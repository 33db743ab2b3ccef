//! The messages a peer can open a connection with, and the ordered
//! parameter map carried by a plaintext startup message.

use vstd::prelude::*;

verus! {

/// An ordered collection of key/value string pairs, as extracted from a
/// plaintext startup payload. Insertion order is kept; a later insertion of
/// the same key shadows an earlier one without removing it.
#[derive(Debug)]
pub struct ParameterMap {
    pub entries: Vec<(String, String)>,
}

/// The value bound to `key`, taken from the latest entry that carries it.
pub open spec fn spec_lookup(
    entries: Seq<(Seq<char>, Seq<char>)>,
    key: Seq<char>,
) -> Option<Seq<char>>
    decreases entries.len(),
{
    if entries.len() == 0 {
        None
    } else if entries.last().0 == key {
        Some(entries.last().1)
    } else {
        spec_lookup(entries.drop_last(), key)
    }
}

impl View for ParameterMap {
    type V = Seq<(Seq<char>, Seq<char>)>;

    open spec fn view(&self) -> Seq<(Seq<char>, Seq<char>)> {
        Seq::new(self.entries@.len(), |i: int| (self.entries@[i].0@, self.entries@[i].1@))
    }
}

impl ParameterMap {
    /// The empty map.
    pub fn new() -> (m: ParameterMap)
        ensures
            m@ == Seq::<(Seq<char>, Seq<char>)>::empty(),
    {
        let m = ParameterMap { entries: Vec::new() };
        proof {
            assert(m@ =~= Seq::<(Seq<char>, Seq<char>)>::empty());
        }
        m
    }

    /// Appends one key/value pair at the end, keeping all earlier entries.
    pub fn insert(&mut self, key: String, value: String)
        ensures
            final(self)@ == old(self)@.push((key@, value@)),
    {
        let ghost prior = self@;
        self.entries.push((key, value));
        proof {
            assert(self@ =~= prior.push((key@, value@)));
        }
    }

    /// The number of entries.
    pub fn len(&self) -> (n: usize)
        ensures
            n == self@.len(),
    {
        self.entries.len()
    }

    /// True when the map holds no entry.
    pub fn is_empty(&self) -> (b: bool)
        ensures
            b == (self@.len() == 0),
    {
        self.entries.len() == 0
    }

    /// The key of the entry at position `i`, in insertion order.
    pub fn key_at(&self, i: usize) -> (k: &String)
        requires
            i < self@.len(),
        ensures
            k@ == self@[i as int].0,
    {
        &self.entries[i].0
    }

    /// The value of the entry at position `i`, in insertion order.
    pub fn value_at(&self, i: usize) -> (v: &String)
        requires
            i < self@.len(),
        ensures
            v@ == self@[i as int].1,
    {
        &self.entries[i].1
    }

    /// Looks `key` up, returning the value of the latest entry that binds
    /// it, or `None` when no entry does.
    pub fn get(&self, key: &String) -> (v: Option<&String>)
        ensures
            match v {
                Some(s) => spec_lookup(self@, key@) == Some(s@),
                None => spec_lookup(self@, key@) is None,
            },
    {
        let mut i: usize = self.entries.len();
        proof {
            assert(self@.take(i as int) =~= self@);
        }
        while i > 0
            invariant
                i <= self@.len(),
                spec_lookup(self@, key@) == spec_lookup(self@.take(i as int), key@),
            decreases i,
        {
            i = i - 1;
            if self.entries[i].0.eq(key) {
                proof {
                    assert(self@.take(i as int + 1).last() == self@[i as int]);
                }
                return Some(&self.entries[i].1);
            }
            proof {
                assert(self@.take(i as int + 1).drop_last() =~= self@.take(i as int));
                assert(self@.take(i as int + 1).last() == self@[i as int]);
            }
        }
        proof {
            assert(self@.take(0) =~= Seq::<(Seq<char>, Seq<char>)>::empty());
        }
        None
    }
}

/// Ghost-level image of a decoded startup-phase message: what the decoders
/// are specified to produce, with strings as character sequences.
pub enum SpecStartupMessage {
    SslRequest,
    Startup { params: Seq<(Seq<char>, Seq<char>)>, version: u32 },
    PasswordMessage { password: Seq<char> },
}

/// The first messages of a connection: an SSL negotiation request, a
/// plaintext startup with its parameter map, or a clear-text password
/// response. Produced only by the decoders and consumed once by the
/// handshake state machine.
#[derive(Debug)]
pub enum StartupMessage {
    SslRequest,
    Startup { params: ParameterMap, version: u32 },
    PasswordMessage { password: String },
}

impl View for StartupMessage {
    type V = SpecStartupMessage;

    open spec fn view(&self) -> SpecStartupMessage {
        match self {
            StartupMessage::SslRequest => SpecStartupMessage::SslRequest,
            StartupMessage::Startup { params, version } => SpecStartupMessage::Startup {
                params: params@,
                version: *version,
            },
            StartupMessage::PasswordMessage { password } => SpecStartupMessage::PasswordMessage {
                password: password@,
            },
        }
    }
}

} // verus!
