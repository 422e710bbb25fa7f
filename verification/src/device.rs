//! The protocol layer: one command constructor per device operation, each
//! pinning down exactly the URL parts the operation sends.
//!
//! Issuing the HTTP GET itself is transport and happens outside the
//! library; a caller builds the command here, sends `build()`'s URL, and
//! hands the response text to the decoders.

use vstd::prelude::*;
use crate::numerals::{dec_of_nat, dec_of_int, u64_to_string, i64_to_string};

pub mod codec;
pub mod command;
pub mod responses;
pub mod xml;

use command::{Command, upsert};

verus! {

/// Pagination bounds for the queue listing.
#[derive(Debug, Clone, Copy, PartialEq, Eq, Structural)]
pub struct Pagination {
    pub start: u64,
    pub end: u64,
}

/// What kind of repeat the device is asked for.
#[derive(Debug, Clone, Copy, PartialEq, Eq, Structural)]
pub enum RepeatSetting {
    EntireQueue,
    CurrentTrack,
    Disable,
}

/// The protocol word of a repeat setting: the digit the device expects.
pub open spec fn repeat_word(setting: RepeatSetting) -> Seq<char> {
    match setting {
        RepeatSetting::EntireQueue => "0"@,
        RepeatSetting::CurrentTrack => "1"@,
        RepeatSetting::Disable => "2"@,
    }
}

impl RepeatSetting {
    /// The digit the device expects for this setting.
    pub fn word(&self) -> (r: &'static str)
        ensures
            r@ == repeat_word(*self),
    {
        match self {
            RepeatSetting::EntireQueue => "0",
            RepeatSetting::CurrentTrack => "1",
            RepeatSetting::Disable => "2",
        }
    }
}

/// The ghost model of a device handle: where its commands are aimed.
pub ghost struct BluOSView {
    pub hostname: Seq<char>,
    pub port: u16,
}

/// A handle on one BluOS player: the address every command of the
/// protocol is aimed at.
pub struct BluOS {
    hostname: String,
    port: u16,
}

impl View for BluOS {
    type V = BluOSView;

    closed spec fn view(&self) -> BluOSView {
        BluOSView { hostname: self.hostname@, port: self.port }
    }
}

/// The parameter list holding exactly one pair.
pub open spec fn one_param(key: Seq<char>, value: Seq<char>) -> Seq<(Seq<char>, Seq<char>)> {
    seq![(key, value)]
}

impl BluOS {
    /// A handle for the player at `hostname`, listening on `custom_port`
    /// or, absent one, on the protocol's usual port 11000.
    pub fn new(hostname: &str, custom_port: Option<u16>) -> (r: BluOS)
        ensures
            r@.hostname == hostname@,
            r@.port == match custom_port {
                Some(p) => p,
                None => 11000u16,
            },
    {
        let port = match custom_port {
            Some(v) => v,
            None => 11000,
        };
        BluOS { hostname: hostname.to_owned(), port }
    }

    /// A handle for the player a discovery session found.
    pub fn new_from_discovered(d: &crate::discover::DiscoveredBluOSDevice) -> (r: BluOS)
        ensures
            r@.hostname == d.hostname@,
            r@.port == d.port,
    {
        BluOS { hostname: d.hostname.clone(), port: d.port }
    }

    /// A command aimed at this player, with no parameters yet.
    pub fn cmd(&self, action: &str) -> (r: Command)
        ensures
            r@.hostname == self@.hostname,
            r@.port == self@.port,
            r@.command_name == action@,
            r@.params == Seq::<(Seq<char>, Seq<char>)>::empty(),
    {
        Command::new(self.hostname.as_str(), self.port, action)
    }

    /// The status request: no parameters.
    pub fn status_command(&self) -> (r: Command)
        ensures
            r@.hostname == self@.hostname,
            r@.port == self@.port,
            r@.command_name == "Status"@,
            r@.params == Seq::<(Seq<char>, Seq<char>)>::empty(),
    {
        self.cmd("Status")
    }

    /// The hierarchical content listing: descends under `key` where one
    /// is given, and lists the root otherwise.
    pub fn browse_command(&self, key: Option<&str>) -> (r: Command)
        ensures
            r@.hostname == self@.hostname,
            r@.port == self@.port,
            r@.command_name == "Browse"@,
            r@.params == match key {
                Some(k) => one_param("key"@, k@),
                None => Seq::<(Seq<char>, Seq<char>)>::empty(),
            },
    {
        let mut c = self.cmd("Browse");
        c.add_optional("key", key);
        proof {
            if let Some(k) = key {
                assert(c@.params =~= one_param("key"@, k@));
            }
        }
        c
    }

    /// The library re-index request: no parameters.
    pub fn update_library_command(&self) -> (r: Command)
        ensures
            r@.hostname == self@.hostname,
            r@.port == self@.port,
            r@.command_name == "Reindex"@,
            r@.params == Seq::<(Seq<char>, Seq<char>)>::empty(),
    {
        self.cmd("Reindex")
    }

    /// The plain play request: whatever source is active, no options.
    pub fn play_command(&self) -> (r: Command)
        ensures
            r@.hostname == self@.hostname,
            r@.port == self@.port,
            r@.command_name == "Play"@,
            r@.params == Seq::<(Seq<char>, Seq<char>)>::empty(),
    {
        self.play_with_options_command(None, None, None)
    }

    /// The play request with its options, each attached only where given:
    /// `seek` in seconds, an input to select, and which input of that kind.
    pub fn play_with_options_command(
        &self,
        seek: Option<i64>,
        input_type: Option<&str>,
        index: Option<i64>,
    ) -> (r: Command)
        ensures
            r@.hostname == self@.hostname,
            r@.port == self@.port,
            r@.command_name == "Play"@,
            r@.params == {
                let p0 = Seq::<(Seq<char>, Seq<char>)>::empty();
                let p1 = match seek {
                    Some(v) => upsert(p0, "seek"@, dec_of_int(v as int)),
                    None => p0,
                };
                let p2 = match input_type {
                    Some(t) => upsert(p1, "inputType"@, t@),
                    None => p1,
                };
                match index {
                    Some(v) => upsert(p2, "index"@, dec_of_int(v as int)),
                    None => p2,
                }
            },
    {
        let mut c = self.cmd("Play");
        match seek {
            Some(v) => {
                let s = i64_to_string(v);
                c.add_param("seek", s.as_str());
            },
            None => {},
        }
        c.add_optional("inputType", input_type);
        match index {
            Some(v) => {
                let s = i64_to_string(v);
                c.add_param("index", s.as_str());
            },
            None => {},
        }
        c
    }

    /// The pause request; with `toggle` the device flips the pause state
    /// instead.
    pub fn pause_command(&self, toggle: bool) -> (r: Command)
        ensures
            r@.hostname == self@.hostname,
            r@.port == self@.port,
            r@.command_name == "Pause"@,
            r@.params == if toggle {
                one_param("toggle"@, "1"@)
            } else {
                Seq::<(Seq<char>, Seq<char>)>::empty()
            },
    {
        let mut c = self.cmd("Pause");
        if toggle {
            c.add_param("toggle", "1");
            proof {
                assert(c@.params =~= one_param("toggle"@, "1"@));
            }
        }
        c
    }

    /// The stop request: no parameters.
    pub fn stop_command(&self) -> (r: Command)
        ensures
            r@.hostname == self@.hostname,
            r@.port == self@.port,
            r@.command_name == "Stop"@,
            r@.params == Seq::<(Seq<char>, Seq<char>)>::empty(),
    {
        self.cmd("Stop")
    }

    /// The skip request: to the next track in the play queue.
    pub fn skip_command(&self) -> (r: Command)
        ensures
            r@.hostname == self@.hostname,
            r@.port == self@.port,
            r@.command_name == "Skip"@,
            r@.params == Seq::<(Seq<char>, Seq<char>)>::empty(),
    {
        self.cmd("Skip")
    }

    /// The back request: to the start of the track or the previous one.
    pub fn back_command(&self) -> (r: Command)
        ensures
            r@.hostname == self@.hostname,
            r@.port == self@.port,
            r@.command_name == "Back"@,
            r@.params == Seq::<(Seq<char>, Seq<char>)>::empty(),
    {
        self.cmd("Back")
    }

    /// The shuffle request: state 1 turns shuffling on, state 0 restores
    /// the unshuffled queue.
    pub fn shuffle_command(&self, enable: bool) -> (r: Command)
        ensures
            r@.hostname == self@.hostname,
            r@.port == self@.port,
            r@.command_name == "Shuffle"@,
            r@.params == one_param("state"@, if enable { "1"@ } else { "0"@ }),
    {
        let mut c = self.cmd("Shuffle");
        if enable {
            c.add_param("state", "1");
        } else {
            c.add_param("state", "0");
        }
        proof {
            assert(c@.params =~= one_param("state"@, if enable { "1"@ } else { "0"@ }));
        }
        c
    }

    /// The repeat request, carrying the digit of the asked-for setting.
    pub fn repeat_command(&self, setting: RepeatSetting) -> (r: Command)
        ensures
            r@.hostname == self@.hostname,
            r@.port == self@.port,
            r@.command_name == "Repeat"@,
            r@.params == one_param("state"@, repeat_word(setting)),
    {
        let mut c = self.cmd("Repeat");
        c.add_param("state", setting.word());
        proof {
            assert(c@.params =~= one_param("state"@, repeat_word(setting)));
        }
        c
    }

    /// The queue listing, bounded where pagination is given.
    pub fn queue_command(&self, pagination: Option<Pagination>) -> (r: Command)
        ensures
            r@.hostname == self@.hostname,
            r@.port == self@.port,
            r@.command_name == "Playlist"@,
            r@.params == match pagination {
                Some(p) => seq![
                    ("start"@, dec_of_nat(p.start as nat)),
                    ("end"@, dec_of_nat(p.end as nat)),
                ],
                None => Seq::<(Seq<char>, Seq<char>)>::empty(),
            },
    {
        let mut c = self.cmd("Playlist");
        match pagination {
            Some(p) => {
                let s = u64_to_string(p.start);
                c.add_param("start", s.as_str());
                let e = u64_to_string(p.end);
                c.add_param("end", e.as_str());
                proof {
                    reveal_strlit("start");
                    reveal_strlit("end");
                    assert("start"@.len() != "end"@.len());
                    let q1 = upsert(
                        Seq::<(Seq<char>, Seq<char>)>::empty(),
                        "start"@,
                        dec_of_nat(p.start as nat),
                    );
                    assert(q1 =~= seq![("start"@, dec_of_nat(p.start as nat))]);
                    crate::device::command::lemma_find_key_spec(q1, "end"@);
                    assert(q1[0].0 != "end"@);
                    assert(crate::device::command::find_key(q1, "end"@) == -1);
                    assert(c@.params =~= seq![
                        ("start"@, dec_of_nat(p.start as nat)),
                        ("end"@, dec_of_nat(p.end as nat)),
                    ]);
                }
            },
            None => {},
        }
        c
    }

    /// The request deleting the track at `position` from the play queue.
    pub fn queue_delete_command(&self, position: u64) -> (r: Command)
        ensures
            r@.hostname == self@.hostname,
            r@.port == self@.port,
            r@.command_name == "Delete"@,
            r@.params == one_param("id"@, dec_of_nat(position as nat)),
    {
        let mut c = self.cmd("Delete");
        let s = u64_to_string(position);
        c.add_param("id", s.as_str());
        proof {
            assert(c@.params =~= one_param("id"@, dec_of_nat(position as nat)));
        }
        c
    }

    /// The request clearing the play queue: no parameters.
    pub fn queue_clear_command(&self) -> (r: Command)
        ensures
            r@.hostname == self@.hostname,
            r@.port == self@.port,
            r@.command_name == "Clear"@,
            r@.params == Seq::<(Seq<char>, Seq<char>)>::empty(),
    {
        self.cmd("Clear")
    }
}

} // verus!
