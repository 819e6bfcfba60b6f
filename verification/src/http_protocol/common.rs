//! Peer ids, info hashes and announce events of the HTTP tracker protocol.

use vstd::prelude::*;

use crate::text::str_eq;

verus! {

#[derive(Debug, Clone, Copy, Hash, PartialEq, Eq)]
pub struct PeerId(pub [u8; 20]);

#[derive(Debug, Clone, Copy, Hash, PartialEq, Eq, PartialOrd, Ord)]
pub struct InfoHash(pub [u8; 20]);

#[derive(Debug, Clone, Copy, PartialEq, Eq, Structural)]
pub enum AnnounceEvent {
    Started,
    Stopped,
    Completed,
    Empty,
}

impl Default for AnnounceEvent {
    fn default() -> (r: Self)
        ensures
            r == AnnounceEvent::Empty,
    {
        Self::Empty
    }
}

/// The name of an announce event in a request; the empty event has none
pub open spec fn event_name(event: AnnounceEvent) -> Option<Seq<char>> {
    match event {
        AnnounceEvent::Started => Some("started"@),
        AnnounceEvent::Stopped => Some("stopped"@),
        AnnounceEvent::Completed => Some("completed"@),
        AnnounceEvent::Empty => None,
    }
}

/// The announce event of a name: also "empty" names the empty event
pub open spec fn event_of_name(value: Seq<char>) -> Option<AnnounceEvent> {
    if value == "started"@ {
        Some(AnnounceEvent::Started)
    } else if value == "stopped"@ {
        Some(AnnounceEvent::Stopped)
    } else if value == "completed"@ {
        Some(AnnounceEvent::Completed)
    } else if value == "empty"@ {
        Some(AnnounceEvent::Empty)
    } else {
        None
    }
}

impl AnnounceEvent {
    /// The announce event of a name, or an error naming the unknown value
    pub fn parse(value: &str) -> (r: Result<Self, String>)
        ensures
            match event_of_name(value@) {
                Some(event) => r == Ok::<Self, String>(event),
                None => r matches Err(e) && e@ == "Unknown value: "@ + value@,
            },
    {
        proof {
            reveal_strlit("started");
            reveal_strlit("stopped");
            reveal_strlit("completed");
            reveal_strlit("empty");
        }
        if str_eq(value, "started") {
            Ok(Self::Started)
        } else if str_eq(value, "stopped") {
            Ok(Self::Stopped)
        } else if str_eq(value, "completed") {
            Ok(Self::Completed)
        } else if str_eq(value, "empty") {
            Ok(Self::Empty)
        } else {
            let mut message = String::from_str("Unknown value: ");
            message.append(value);
            Err(message)
        }
    }

    pub fn as_str(&self) -> (r: Option<&str>)
        ensures
            match (r, event_name(*self)) {
                (Some(s), Some(name)) => s@ == name,
                (None, None) => true,
                _ => false,
            },
    {
        match self {
            Self::Started => Some("started"),
            Self::Stopped => Some("stopped"),
            Self::Completed => Some("completed"),
            Self::Empty => None,
        }
    }
}

impl std::str::FromStr for AnnounceEvent {
    type Err = String;

    fn from_str(value: &str) -> (r: Result<Self, String>)
        ensures
            match event_of_name(value@) {
                Some(event) => r == Ok::<Self, String>(event),
                None => r matches Err(e) && e@ == "Unknown value: "@ + value@,
            },
    {
        Self::parse(value)
    }
}

/// Every announce event but the empty one has a name, and is parsed back
/// from it; the empty event has none. Every name that parses to an event
/// other than the empty one is that event's name.
pub proof fn law_event_name_roundtrip(event: AnnounceEvent, name: Seq<char>)
    ensures
        !(event is Empty) <==> event_name(event) is Some,
        event_name(event) is Some ==> event_of_name(event_name(event)->Some_0) == Some(event),
        event_of_name(name) == Some(event) && !(event is Empty) ==> event_name(event) == Some(name),
{
    reveal_strlit("started");
    reveal_strlit("stopped");
    reveal_strlit("completed");
    reveal_strlit("empty");
    assert("stopped"@[2] != "started"@[2]);
    assert("completed"@[0] != "started"@[0]);
    assert("completed"@[0] != "stopped"@[0]);
}

} // verus!
