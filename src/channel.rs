use vstd::prelude::*;
use vstd::string::StringSliceAdditionalSpecFns;

verus! {

/// Which way data moves relative to this machine.
#[derive(Clone, Copy, Debug, PartialEq, Eq, Structural)]
pub enum Direction {
    Exfiltrate,
    Infiltrate,
}

/// The physical channel data moves over.
#[derive(Clone, Copy, Debug, PartialEq, Eq, Structural)]
pub enum Method {
    Audio,
    TermOutVideoIn,
}

/// Why a channel operation cannot run.
#[derive(Clone, Copy, Debug, PartialEq, Eq, Structural)]
pub enum ChannelError {
    /// The channel has no sending side.
    Unsupported,
}

/// `s` holds exactly the bytes of `word`.
fn is_word(s: &str, word: &[u8]) -> (r: bool)
    ensures
        r == (s.spec_bytes() == word@),
{
    let b = s.as_bytes();
    if b.len() != word.len() {
        return false;
    }
    let mut i: usize = 0;
    while i < b.len()
        invariant
            b@ == s.spec_bytes(),
            b@.len() == word@.len(),
            0 <= i <= b@.len(),
            forall|j: int| 0 <= j < i ==> b@[j] == word@[j],
        decreases b@.len() - i,
    {
        if b[i] != word[i] {
            return false;
        }
        i = i + 1;
    }
    proof {
        assert(b@ =~= word@);
    }
    true
}

/// The direction a command-line word names: `ex` or `in`.
pub open spec fn direction_named(b: Seq<u8>) -> Option<Direction> {
    if b == seq![0x65u8, 0x78u8] {
        Some(Direction::Exfiltrate)
    } else if b == seq![0x69u8, 0x6eu8] {
        Some(Direction::Infiltrate)
    } else {
        None
    }
}

/// The method a command-line word names: `audio` or `term`.
pub open spec fn method_named(b: Seq<u8>) -> Option<Method> {
    if b == seq![0x61u8, 0x75u8, 0x64u8, 0x69u8, 0x6fu8] {
        Some(Method::Audio)
    } else if b == seq![0x74u8, 0x65u8, 0x72u8, 0x6du8] {
        Some(Method::TermOutVideoIn)
    } else {
        None
    }
}

impl Direction {
    /// Parses `ex` or `in`; any other word gives `None`.
    pub fn from_str(s: &str) -> (r: Option<Direction>)
        ensures
            r == direction_named(s.spec_bytes()),
    {
        let ex: [u8; 2] = [0x65, 0x78];
        let inward: [u8; 2] = [0x69, 0x6e];
        proof {
            assert(ex@ =~= seq![0x65u8, 0x78u8]);
            assert(inward@ =~= seq![0x69u8, 0x6eu8]);
        }
        if is_word(s, &ex) {
            Some(Direction::Exfiltrate)
        } else if is_word(s, &inward) {
            Some(Direction::Infiltrate)
        } else {
            None
        }
    }

    /// The present participle used in progress messages.
    pub fn gerund(&self) -> (r: &'static str)
        ensures
            r@ == match self {
                Direction::Exfiltrate => "Exfiltrating"@,
                Direction::Infiltrate => "Infiltrating"@,
            },
    {
        match self {
            Direction::Exfiltrate => "Exfiltrating",
            Direction::Infiltrate => "Infiltrating",
        }
    }
}

impl Method {
    /// Parses `audio` or `term`; any other word gives `None`.
    pub fn from_str(s: &str) -> (r: Option<Method>)
        ensures
            r == method_named(s.spec_bytes()),
    {
        let audio: [u8; 5] = [0x61, 0x75, 0x64, 0x69, 0x6f];
        let term: [u8; 4] = [0x74, 0x65, 0x72, 0x6d];
        proof {
            assert(audio@ =~= seq![0x61u8, 0x75u8, 0x64u8, 0x69u8, 0x6fu8]);
            assert(term@ =~= seq![0x74u8, 0x65u8, 0x72u8, 0x6du8]);
        }
        if is_word(s, &audio) {
            Some(Method::Audio)
        } else if is_word(s, &term) {
            Some(Method::TermOutVideoIn)
        } else {
            None
        }
    }

    /// A human-readable name of the channel.
    pub fn description(&self) -> (r: &'static str)
        ensures
            r@ == match self {
                Method::Audio => "audio"@,
                Method::TermOutVideoIn => "terminal output with video input"@,
            },
    {
        match self {
            Method::Audio => "audio",
            Method::TermOutVideoIn => "terminal output with video input",
        }
    }

    /// Sending data: no channel has a sending side, so this always reports
    /// `Unsupported`.
    pub fn encode(&self) -> (r: Result<(), ChannelError>)
        ensures
            r == Err::<(), ChannelError>(ChannelError::Unsupported),
    {
        Err(ChannelError::Unsupported)
    }
}

} // verus!
