//! The command builder: a hostname, a port, a command name and a parameter
//! list, turned into the URL the device understands.
//!
//! Parameters keep insertion order, and writing a key again overwrites the
//! earlier value in place, so keys stay unique.

use vstd::prelude::*;
use vstd::string::StringExecFns;
use crate::numerals::{dec_of_nat, u64_to_string};

verus! {

/// The ghost model of a command: the parts of the URL it builds.
pub ghost struct CommandView {
    pub hostname: Seq<char>,
    pub port: u16,
    pub command_name: Seq<char>,
    pub params: Seq<(Seq<char>, Seq<char>)>,
}

/// The index of the entry carrying `key`, or -1 where no entry does.
pub open spec fn find_key(ps: Seq<(Seq<char>, Seq<char>)>, key: Seq<char>) -> int
    decreases ps.len(),
{
    if ps.len() == 0 {
        -1
    } else if ps[0].0 == key {
        0
    } else {
        let r = find_key(ps.skip(1), key);
        if r < 0 {
            -1
        } else {
            r + 1
        }
    }
}

/// What inserting a parameter does: overwrite the entry already carrying
/// `key`, or append a new entry at the end.
pub open spec fn upsert(
    ps: Seq<(Seq<char>, Seq<char>)>,
    key: Seq<char>,
    value: Seq<char>,
) -> Seq<(Seq<char>, Seq<char>)> {
    let i = find_key(ps, key);
    if i >= 0 {
        ps.update(i, (key, value))
    } else {
        ps.push((key, value))
    }
}

/// True when no two entries share a key.
pub open spec fn params_wf(ps: Seq<(Seq<char>, Seq<char>)>) -> bool {
    forall|i: int, j: int| 0 <= i < j < ps.len() ==> (#[trigger] ps[i]).0 != (#[trigger] ps[j]).0
}

/// `find_key` points at the first entry carrying `key`, and is -1 exactly
/// where no entry carries it.
pub proof fn lemma_find_key_spec(ps: Seq<(Seq<char>, Seq<char>)>, key: Seq<char>)
    ensures
        find_key(ps, key) >= 0 ==> {
            let r = find_key(ps, key);
            0 <= r < ps.len() && ps[r].0 == key && forall|j: int| 0 <= j < r ==> (#[trigger] ps[j]).0 != key
        },
        find_key(ps, key) == -1 ==> forall|j: int| 0 <= j < ps.len() ==> (#[trigger] ps[j]).0 != key,
        find_key(ps, key) >= 0 || find_key(ps, key) == -1,
    decreases ps.len(),
{
    if ps.len() > 0 && ps[0].0 != key {
        lemma_find_key_spec(ps.skip(1), key);
        let tail = ps.skip(1);
        let r = find_key(ps, key);
        if find_key(tail, key) >= 0 {
            assert(r == find_key(tail, key) + 1);
            assert(ps[r] == tail[r - 1]);
            assert forall|j: int| 0 <= j < r implies (#[trigger] ps[j]).0 != key by {
                if j > 0 {
                    assert(ps[j] == tail[j - 1]);
                }
            }
        } else {
            assert(r == -1);
            assert forall|j: int| 0 <= j < ps.len() implies (#[trigger] ps[j]).0 != key by {
                if j > 0 {
                    assert(ps[j] == tail[j - 1]);
                }
            }
        }
    }
}

/// Inserting preserves the invariant that parameter keys are unique.
pub proof fn lemma_upsert_keys_unique(
    ps: Seq<(Seq<char>, Seq<char>)>,
    key: Seq<char>,
    value: Seq<char>,
)
    requires
        params_wf(ps),
    ensures
        params_wf(upsert(ps, key, value)),
{
    lemma_find_key_spec(ps, key);
    let r = find_key(ps, key);
    if r >= 0 {
        assert forall|i: int, j: int| 0 <= i < j < upsert(ps, key, value).len() implies
            (#[trigger] upsert(ps, key, value)[i]).0 != (#[trigger] upsert(ps, key, value)[j]).0 by {
            assert(ps[r].0 == key);
        }
    } else {
        assert forall|i: int, j: int| 0 <= i < j < upsert(ps, key, value).len() implies
            (#[trigger] upsert(ps, key, value)[i]).0 != (#[trigger] upsert(ps, key, value)[j]).0 by {
            if j == ps.len() {
                assert(ps[i].0 != key);
            }
        }
    }
}

/// The part of the URL before any query: `http://host:port/name`.
pub open spec fn base_of(host: Seq<char>, port: u16, name: Seq<char>) -> Seq<char> {
    "http://"@ + host + ":"@ + dec_of_nat(port as nat) + "/"@ + name
}

/// The printed parameter pairs, each as `key=value&`, in order.
pub open spec fn query_pairs(ps: Seq<(Seq<char>, Seq<char>)>) -> Seq<char>
    decreases ps.len(),
{
    if ps.len() == 0 {
        Seq::empty()
    } else {
        query_pairs(ps.drop_last()) + ps.last().0 + seq!['='] + ps.last().1 + seq!['&']
    }
}

/// The query part of the URL: empty with no parameters, else a question
/// mark followed by the printed pairs.
pub open spec fn query_of(ps: Seq<(Seq<char>, Seq<char>)>) -> Seq<char> {
    if ps.len() == 0 {
        Seq::empty()
    } else {
        seq!['?'] + query_pairs(ps)
    }
}

/// The whole URL a command builds.
pub open spec fn url_of(
    host: Seq<char>,
    port: u16,
    name: Seq<char>,
    ps: Seq<(Seq<char>, Seq<char>)>,
) -> Seq<char> {
    base_of(host, port, name) + query_of(ps)
}

/// With no parameters the built URL is exactly the base
/// `http://host:port/name`: nothing follows the command name, in
/// particular no question mark.
pub proof fn lemma_url_no_params(host: Seq<char>, port: u16, name: Seq<char>)
    ensures
        url_of(host, port, name, Seq::empty()) == base_of(host, port, name),
{
    assert(url_of(host, port, name, Seq::empty()) =~= base_of(host, port, name));
}

/// An outbound request descriptor: host, port, command name and query
/// parameters, not yet serialized to a URL.
pub struct Command {
    hostname: String,
    port: u16,
    command_name: String,
    params: Vec<(String, String)>,
}

impl View for Command {
    type V = CommandView;

    closed spec fn view(&self) -> CommandView {
        CommandView {
            hostname: self.hostname@,
            port: self.port,
            command_name: self.command_name@,
            params: Seq::new(self.params@.len(), |i: int| (self.params@[i].0@, self.params@[i].1@)),
        }
    }
}

impl Command {
    /// A command for `command_name` aimed at `hostname:port`, with no
    /// parameters yet.
    pub fn new(hostname: &str, port: u16, command_name: &str) -> (r: Command)
        ensures
            r@.hostname == hostname@,
            r@.port == port,
            r@.command_name == command_name@,
            r@.params == Seq::<(Seq<char>, Seq<char>)>::empty(),
    {
        let c = Command {
            hostname: hostname.to_owned(),
            port,
            command_name: command_name.to_owned(),
            params: Vec::new(),
        };
        proof {
            assert(c@.params =~= Seq::<(Seq<char>, Seq<char>)>::empty());
        }
        c
    }

    /// Inserts `value` under `param`, overwriting in place any value the
    /// key already carries.
    pub fn add_param(&mut self, param: &str, value: &str)
        ensures
            final(self)@.hostname == old(self)@.hostname,
            final(self)@.port == old(self)@.port,
            final(self)@.command_name == old(self)@.command_name,
            final(self)@.params == upsert(old(self)@.params, param@, value@),
    {
        let ghost ps = self@.params;
        let key: String = param.to_owned();
        let val: String = value.to_owned();
        let n = self.params.len();
        let mut i: usize = 0;
        while i < n
            invariant
                i <= n,
                n == self.params.len(),
                key@ == param@,
                val@ == value@,
                *self == *old(self),
                ps == self@.params,
                forall|j: int| 0 <= j < i ==> (#[trigger] ps[j]).0 != param@,
            decreases n - i,
        {
            if self.params[i].0 == key {
                proof {
                    assert(ps[i as int].0 == param@);
                    lemma_find_key_spec(ps, param@);
                    assert(find_key(ps, param@) == i);
                }
                self.params.remove(i);
                self.params.insert(i, (key, val));
                proof {
                    assert(self@.params =~= upsert(ps, param@, value@));
                }
                return;
            }
            i = i + 1;
        }
        proof {
            lemma_find_key_spec(ps, param@);
            assert(find_key(ps, param@) == -1);
        }
        self.params.push((key, val));
        proof {
            assert(self@.params =~= upsert(ps, param@, value@));
        }
    }

    /// With an absent value this changes nothing at all; with a present
    /// value it behaves exactly as [`Command::add_param`].
    pub fn add_optional(&mut self, param: &str, value: Option<&str>)
        ensures
            final(self)@.hostname == old(self)@.hostname,
            final(self)@.port == old(self)@.port,
            final(self)@.command_name == old(self)@.command_name,
            final(self)@.params == match value {
                Some(v) => upsert(old(self)@.params, param@, v@),
                None => old(self)@.params,
            },
    {
        match value {
            Some(v) => self.add_param(param, v),
            None => {},
        }
    }

    /// Serializes the command to the URL the device understands:
    /// `http://host:port/name`, followed, where parameters are present, by
    /// `?` and each pair as `key=value&` in insertion order.
    pub fn build(&self) -> (r: String)
        ensures
            r@ == url_of(self@.hostname, self@.port, self@.command_name, self@.params),
    {
        let mut url = String::from_str("http://");
        url.append(self.hostname.as_str());
        url.append(":");
        let port_str = u64_to_string(self.port as u64);
        url.append(port_str.as_str());
        url.append("/");
        url.append(self.command_name.as_str());
        proof {
            assert(url@ == base_of(self@.hostname, self@.port, self@.command_name));
        }
        let n = self.params.len();
        if n > 0 {
            url.append("?");
            proof {
                reveal_strlit("?");
                assert("?"@ =~= seq!['?']);
            }
            let ghost base = base_of(self@.hostname, self@.port, self@.command_name);
            let mut i: usize = 0;
            while i < n
                invariant
                    i <= n,
                    n == self.params.len(),
                    base == base_of(self@.hostname, self@.port, self@.command_name),
                    url@ == base + seq!['?'] + query_pairs(self@.params.take(i as int)),
                decreases n - i,
            {
                let pair = &self.params[i];
                url.append(pair.0.as_str());
                url.append("=");
                url.append(pair.1.as_str());
                url.append("&");
                proof {
                    reveal_strlit("=");
                    reveal_strlit("&");
                    assert("="@ =~= seq!['=']);
                    assert("&"@ =~= seq!['&']);
                    let t = self@.params.take(i + 1);
                    assert(t.drop_last() =~= self@.params.take(i as int));
                    assert(t.last() == self@.params[i as int]);
                }
                i = i + 1;
            }
            proof {
                assert(self@.params.take(n as int) =~= self@.params);
            }
        }
        url
    }
}

} // verus!
