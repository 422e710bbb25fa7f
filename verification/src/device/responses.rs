//! The typed records the device answers with, their ghost models, and the
//! closed vocabularies (playback state, audio quality) with their exact
//! parsing rules.

use vstd::prelude::*;
use vstd::string::StringExecFns;
use crate::numerals::{dec_of_int, parse_i64_spec, parse_i64_or_zero, i64_to_string};

verus! {

/// Quality of the playing source audio. Unrecognized vocabulary words
/// decode to the numeric/compressed variant, carrying the word read as a
/// number, or zero where it is not one: the documented fallback.
#[derive(Debug, Clone, Copy, PartialEq, Eq, Structural)]
pub enum Quality {
    /// Lossless audio at CD quality.
    Cd,
    /// Lossless audio above CD quality or at 88200 samples/s or more.
    Hd,
    /// DolbyDigital or AC3.
    DolbyAudio,
    /// Valid MQA audio decoded.
    Mqa,
    /// Valid MQA-Authored audio decoded.
    MqaAuthored,
    /// The approximate bitrate of a compressed audio source.
    Compressed(i64),
}

/// The quality a vocabulary word decodes to.
pub open spec fn quality_of_chars(s: Seq<char>) -> Quality {
    if s == "cd"@ {
        Quality::Cd
    } else if s == "hd"@ {
        Quality::Hd
    } else if s == "dolbyAudio"@ {
        Quality::DolbyAudio
    } else if s == "mqa"@ {
        Quality::Mqa
    } else if s == "mqaAuthored"@ {
        Quality::MqaAuthored
    } else {
        Quality::Compressed(
            match parse_i64_spec(s) {
                Some(v) => v,
                None => 0i64,
            },
        )
    }
}

/// The vocabulary word a quality encodes to.
pub open spec fn quality_chars(q: Quality) -> Seq<char> {
    match q {
        Quality::Cd => "cd"@,
        Quality::Hd => "hd"@,
        Quality::DolbyAudio => "dolbyAudio"@,
        Quality::Mqa => "mqa"@,
        Quality::MqaAuthored => "mqaAuthored"@,
        Quality::Compressed(v) => dec_of_int(v as int),
    }
}

/// True where `s` equals the literal, by characters.
pub(crate) fn str_is(s: &String, lit: &str) -> (r: bool)
    ensures
        r == (s@ == lit@),
{
    let t: String = lit.to_owned();
    *s == t
}

impl From<String> for Quality {
    /// Decodes one word of the quality vocabulary, with the numeric
    /// fallback for anything outside it.
    fn from(s: String) -> (r: Quality) {
        if str_is(&s, "cd") {
            Quality::Cd
        } else if str_is(&s, "hd") {
            Quality::Hd
        } else if str_is(&s, "dolbyAudio") {
            Quality::DolbyAudio
        } else if str_is(&s, "mqa") {
            Quality::Mqa
        } else if str_is(&s, "mqaAuthored") {
            Quality::MqaAuthored
        } else {
            Quality::Compressed(parse_i64_or_zero(s.as_str()))
        }
    }
}

impl vstd::std_specs::convert::FromSpecImpl<String> for Quality {
    open spec fn obeys_from_spec() -> bool {
        true
    }

    open spec fn from_spec(s: String) -> Quality {
        quality_of_chars(s@)
    }
}

impl Quality {
    /// Encodes the quality back to its vocabulary word.
    pub fn encode(&self) -> (r: String)
        ensures
            r@ == quality_chars(*self),
    {
        match self {
            Quality::Cd => String::from_str("cd"),
            Quality::Hd => String::from_str("hd"),
            Quality::DolbyAudio => String::from_str("dolbyAudio"),
            Quality::Mqa => String::from_str("mqa"),
            Quality::MqaAuthored => String::from_str("mqaAuthored"),
            Quality::Compressed(v) => i64_to_string(*v),
        }
    }
}

/// The current player state of the device.
#[derive(Debug, Clone, Copy, PartialEq, Eq, Structural)]
pub enum State {
    Stop,
    Play,
    Pause,
    Stream,
    Connecting,
}

/// The state a vocabulary word decodes to, or nothing outside the closed
/// vocabulary.
pub open spec fn state_of_chars(s: Seq<char>) -> Option<State> {
    if s == "stop"@ {
        Some(State::Stop)
    } else if s == "play"@ {
        Some(State::Play)
    } else if s == "pause"@ {
        Some(State::Pause)
    } else if s == "stream"@ {
        Some(State::Stream)
    } else if s == "connecting"@ {
        Some(State::Connecting)
    } else {
        None
    }
}

/// The vocabulary word a state encodes to.
pub open spec fn state_chars(st: State) -> Seq<char> {
    match st {
        State::Stop => "stop"@,
        State::Play => "play"@,
        State::Pause => "pause"@,
        State::Stream => "stream"@,
        State::Connecting => "connecting"@,
    }
}

impl State {
    /// Decodes one word of the state vocabulary.
    pub fn decode(s: &String) -> (r: Option<State>)
        ensures
            r == state_of_chars(s@),
    {
        if str_is(s, "stop") {
            Some(State::Stop)
        } else if str_is(s, "play") {
            Some(State::Play)
        } else if str_is(s, "pause") {
            Some(State::Pause)
        } else if str_is(s, "stream") {
            Some(State::Stream)
        } else if str_is(s, "connecting") {
            Some(State::Connecting)
        } else {
            None
        }
    }

    /// Encodes the state back to its vocabulary word.
    pub fn encode(&self) -> (r: String)
        ensures
            r@ == state_chars(*self),
    {
        match self {
            State::Stop => String::from_str("stop"),
            State::Play => String::from_str("play"),
            State::Pause => String::from_str("pause"),
            State::Stream => String::from_str("stream"),
            State::Connecting => String::from_str("connecting"),
        }
    }
}

/// Decoding a state's word gives that state back: the state vocabulary is
/// unambiguous.
pub proof fn lemma_state_round_trip(st: State)
    ensures
        state_of_chars(state_chars(st)) == Some(st),
{
    reveal_strlit("stop");
    reveal_strlit("play");
    reveal_strlit("pause");
    reveal_strlit("stream");
    reveal_strlit("connecting");
    assert("play"@[0] != "stop"@[0]);
    assert("pause"@.len() != "stop"@.len());
    assert("stream"@.len() != "stop"@.len());
    assert("connecting"@.len() != "stop"@.len());
}

/// One entry of the action list a status may carry.
#[derive(Debug, Clone, PartialEq)]
pub struct Action {
    pub hide: u8,
    pub name: String,
}

/// The ghost model of an [`Action`].
pub ghost struct ActionView {
    pub hide: u8,
    pub name: Seq<char>,
}

impl View for Action {
    type V = ActionView;

    open spec fn view(&self) -> ActionView {
        ActionView { hide: self.hide, name: self.name@ }
    }
}

/// The action list a status may carry.
#[derive(Debug, Clone, PartialEq)]
pub struct Actions {
    pub action: Vec<Action>,
}

/// The ghost model of [`Actions`].
pub ghost struct ActionsView {
    pub action: Seq<ActionView>,
}

impl View for Actions {
    type V = ActionsView;

    open spec fn view(&self) -> ActionsView {
        ActionsView { action: Seq::new(self.action@.len(), |i: int| self.action@[i]@) }
    }
}

/// A snapshot of the player's state: volume, the current track's metadata,
/// playback position, and system identifiers. Valid only at the instant of
/// the response.
#[derive(Debug, Clone, PartialEq)]
pub struct Status {
    pub etag: String,
    /// The player volume level in percentage; -1 means the volume is fixed.
    pub volume: i64,
    /// Volume in decibel.
    pub volume_decibel: i64,
    /// Set to 1 if the volume is muted.
    pub mute: u8,
    /// While muted, the unmuted volume level, from 0 to 100.
    pub muted_volume: Option<i64>,
    /// While muted, the unmuted volume in dB.
    pub muted_decibel: Option<i64>,
    /// The title of the current playing audio track.
    pub name: Option<String>,
    /// Album name of the current active track.
    pub album: Option<String>,
    /// Artist name of the current active track.
    pub artist: Option<String>,
    /// Total length of the current track, in seconds.
    pub total_length: Option<i64>,
    /// The number of seconds the current audio track has been played.
    pub seconds_played: Option<i64>,
    /// 0 repeats the play queue, 1 repeats a track, 2 is repeat off.
    pub repeat: u8,
    /// 0 means shuffle off and 1 means shuffle on.
    pub shuffle: u8,
    /// The position of the current track in the play queue.
    pub song_queue_position: i64,
    /// Quality of the playing source audio.
    pub quality: Option<Quality>,
    pub filename: Option<String>,
    /// URL of the image associated with the current audio.
    pub image: Option<String>,
    /// The first of three lines describing the current audio.
    pub title1: Option<String>,
    /// The second of three lines describing the current audio.
    pub title2: Option<String>,
    /// The third of three lines describing the current audio.
    pub title3: Option<String>,
    /// The first of two lines describing the current audio.
    pub twoline_title1: Option<String>,
    /// The second of two lines describing the current audio.
    pub twoline_title2: Option<String>,
    /// What the player displays currently.
    pub current_image: Option<String>,
    /// Name of the group; the player must be the primary player in it.
    pub group_name: Option<String>,
    /// Volume level of the group.
    pub group_volume: Option<String>,
    pub actions: Option<Actions>,
    pub can_seek: Option<u8>,
    pub can_move_playback: Option<bool>,
    /// URL for a pop-up notification.
    pub notify_url: Option<String>,
    pub mode: i64,
    /// The unique play queue id; it changes when the play queue changes.
    pub pid: i64,
    /// The unique preset id; it changes when a preset changes.
    pub prid: u8,
    pub sid: i64,
    /// The current player state, as the device's raw word: play, pause,
    /// stop, stream, connecting, and so on.
    pub state: String,
    pub stream_url: Option<String>,
    pub sync_stat: i64,
    pub cursor: Option<i64>,
    /// Most likely indicating whether the player is currently indexing.
    pub indexing: i64,
    pub mid: i64,
}

/// The ghost model of a [`Status`], with every text as a character
/// sequence.
pub ghost struct StatusView {
    pub etag: Seq<char>,
    pub volume: i64,
    pub volume_decibel: i64,
    pub mute: u8,
    pub muted_volume: Option<i64>,
    pub muted_decibel: Option<i64>,
    pub name: Option<Seq<char>>,
    pub album: Option<Seq<char>>,
    pub artist: Option<Seq<char>>,
    pub total_length: Option<i64>,
    pub seconds_played: Option<i64>,
    pub repeat: u8,
    pub shuffle: u8,
    pub song_queue_position: i64,
    pub quality: Option<Quality>,
    pub filename: Option<Seq<char>>,
    pub image: Option<Seq<char>>,
    pub title1: Option<Seq<char>>,
    pub title2: Option<Seq<char>>,
    pub title3: Option<Seq<char>>,
    pub twoline_title1: Option<Seq<char>>,
    pub twoline_title2: Option<Seq<char>>,
    pub current_image: Option<Seq<char>>,
    pub group_name: Option<Seq<char>>,
    pub group_volume: Option<Seq<char>>,
    pub actions: Option<ActionsView>,
    pub can_seek: Option<u8>,
    pub can_move_playback: Option<bool>,
    pub notify_url: Option<Seq<char>>,
    pub mode: i64,
    pub pid: i64,
    pub prid: u8,
    pub sid: i64,
    pub state: Seq<char>,
    pub stream_url: Option<Seq<char>>,
    pub sync_stat: i64,
    pub cursor: Option<i64>,
    pub indexing: i64,
    pub mid: i64,
}

/// The model of an optional text field.
pub open spec fn opt_chars(s: Option<String>) -> Option<Seq<char>> {
    match s {
        Some(v) => Some(v@),
        None => None,
    }
}

impl View for Status {
    type V = StatusView;

    open spec fn view(&self) -> StatusView {
        StatusView {
            etag: self.etag@,
            volume: self.volume,
            volume_decibel: self.volume_decibel,
            mute: self.mute,
            muted_volume: self.muted_volume,
            muted_decibel: self.muted_decibel,
            name: opt_chars(self.name),
            album: opt_chars(self.album),
            artist: opt_chars(self.artist),
            total_length: self.total_length,
            seconds_played: self.seconds_played,
            repeat: self.repeat,
            shuffle: self.shuffle,
            song_queue_position: self.song_queue_position,
            quality: self.quality,
            filename: opt_chars(self.filename),
            image: opt_chars(self.image),
            title1: opt_chars(self.title1),
            title2: opt_chars(self.title2),
            title3: opt_chars(self.title3),
            twoline_title1: opt_chars(self.twoline_title1),
            twoline_title2: opt_chars(self.twoline_title2),
            current_image: opt_chars(self.current_image),
            group_name: opt_chars(self.group_name),
            group_volume: opt_chars(self.group_volume),
            actions: match self.actions {
                Some(a) => Some(a@),
                None => None,
            },
            can_seek: self.can_seek,
            can_move_playback: self.can_move_playback,
            notify_url: opt_chars(self.notify_url),
            mode: self.mode,
            pid: self.pid,
            prid: self.prid,
            sid: self.sid,
            state: self.state@,
            stream_url: opt_chars(self.stream_url),
            sync_stat: self.sync_stat,
            cursor: self.cursor,
            indexing: self.indexing,
            mid: self.mid,
        }
    }
}

/// The response of a playback transition: the new player state.
#[derive(Debug, Clone, Copy, PartialEq, Eq, Structural)]
pub struct StateResponse {
    pub state: State,
}

/// The response of a queue navigation: the identifier of the track now
/// selected, where one is.
#[derive(Debug, Clone, Copy, PartialEq, Eq, Structural)]
pub struct IdResponse {
    pub id: Option<i64>,
}

/// One track of the play queue.
#[derive(Debug, Clone, PartialEq)]
pub struct PlaylistEntry {
    /// Track position in the current queue.
    pub id: i64,
    pub song_id: Option<i64>,
    /// The id of the album the track is in.
    pub album_id: Option<i64>,
    pub artist_id: Option<i64>,
    pub service: Option<String>,
    pub title: Option<String>,
    pub art: Option<String>,
    pub alb: Option<String>,
    pub filename: Option<String>,
    pub quality: Option<Quality>,
}

/// The ghost model of a [`PlaylistEntry`].
pub ghost struct PlaylistEntryView {
    pub id: i64,
    pub song_id: Option<i64>,
    pub album_id: Option<i64>,
    pub artist_id: Option<i64>,
    pub service: Option<Seq<char>>,
    pub title: Option<Seq<char>>,
    pub art: Option<Seq<char>>,
    pub alb: Option<Seq<char>>,
    pub filename: Option<Seq<char>>,
    pub quality: Option<Quality>,
}

impl View for PlaylistEntry {
    type V = PlaylistEntryView;

    open spec fn view(&self) -> PlaylistEntryView {
        PlaylistEntryView {
            id: self.id,
            song_id: self.song_id,
            album_id: self.album_id,
            artist_id: self.artist_id,
            service: opt_chars(self.service),
            title: opt_chars(self.title),
            art: opt_chars(self.art),
            alb: opt_chars(self.alb),
            filename: opt_chars(self.filename),
            quality: self.quality,
        }
    }
}

/// The device's play queue: its identity, length, and entries in order.
#[derive(Debug, Clone, PartialEq)]
pub struct Playlist {
    /// Unique id for the current queue state.
    pub id: i64,
    /// The current play queue name.
    pub name: String,
    /// 0 until the queue is modified after loading, 1 afterwards.
    pub modified: i64,
    /// Total number of tracks in the current queue.
    pub length: i64,
    pub entries: Vec<PlaylistEntry>,
}

/// The ghost model of a [`Playlist`].
pub ghost struct PlaylistView {
    pub id: i64,
    pub name: Seq<char>,
    pub modified: i64,
    pub length: i64,
    pub entries: Seq<PlaylistEntryView>,
}

impl View for Playlist {
    type V = PlaylistView;

    open spec fn view(&self) -> PlaylistView {
        PlaylistView {
            id: self.id,
            name: self.name@,
            modified: self.modified,
            length: self.length,
            entries: Seq::new(self.entries@.len(), |i: int| self.entries@[i]@),
        }
    }
}

/// Decoding a quality's word gives that quality back: the quality
/// vocabulary with its numeric fallback is unambiguous.
pub proof fn lemma_quality_round_trip(q: Quality)
    ensures
        quality_of_chars(quality_chars(q)) == q,
{
    reveal_strlit("cd");
    reveal_strlit("hd");
    reveal_strlit("dolbyAudio");
    reveal_strlit("mqa");
    reveal_strlit("mqaAuthored");
    assert("cd"@[0] != "hd"@[0]);
    assert("dolbyAudio"@.len() != "cd"@.len());
    assert("mqa"@.len() != "cd"@.len());
    assert("mqaAuthored"@.len() != "cd"@.len());
    assert("mqaAuthored"@.len() != "dolbyAudio"@.len());
    match q {
        Quality::Compressed(v) => {
            let w = crate::numerals::dec_of_int(v as int);
            crate::numerals::lemma_dec_of_int_chars(v as int);
            assert(w[0] != 'c' && w[0] != 'h' && w[0] != 'd' && w[0] != 'm') by {
                assert(crate::numerals::is_dec_digit(w[0]) || w[0] == '-');
            }
            assert(w != "cd"@) by {
                if w == "cd"@ {
                    assert(w[0] == 'c');
                }
            }
            assert(w != "hd"@) by {
                if w == "hd"@ {
                    assert(w[0] == 'h');
                }
            }
            assert(w != "dolbyAudio"@) by {
                if w == "dolbyAudio"@ {
                    assert(w[0] == 'd');
                }
            }
            assert(w != "mqa"@) by {
                if w == "mqa"@ {
                    assert(w[0] == 'm');
                }
            }
            assert(w != "mqaAuthored"@) by {
                if w == "mqaAuthored"@ {
                    assert(w[0] == 'm');
                }
            }
            crate::numerals::lemma_parse_dec_of_int(v as int);
        },
        _ => {},
    }
}

} // verus!
