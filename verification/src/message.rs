//! Typed events and payload records handed over by the host editor, once
//! its raw payloads have been decoded into plain values.

use vstd::prelude::*;

verus! {

/// The event kinds the server reacts to; any other event name is kept
/// verbatim as `Unknown`.
pub enum Message {
    Sync,
    Show,
    Close,
    Resize,
    Unknown(String),
}

/// The message a raw event name maps to.
pub open spec fn message_of(event: String) -> Message {
    if event@ == "sync"@ {
        Message::Sync
    } else if event@ == "show"@ {
        Message::Show
    } else if event@ == "close"@ {
        Message::Close
    } else if event@ == "resize"@ {
        Message::Resize
    } else {
        Message::Unknown(event)
    }
}

impl vstd::std_specs::convert::FromSpecImpl<String> for Message {
    open spec fn obeys_from_spec() -> bool {
        true
    }

    open spec fn from_spec(v: String) -> Message {
        message_of(v)
    }
}

impl From<String> for Message {
    fn from(event: String) -> (r: Message) {
        if event == "sync".to_owned() {
            Message::Sync
        } else if event == "show".to_owned() {
            Message::Show
        } else if event == "close".to_owned() {
            Message::Close
        } else if event == "resize".to_owned() {
            Message::Resize
        } else {
            Message::Unknown(event)
        }
    }
}

/// The severity class of a location-list entry: `"W"` marks a warning,
/// `"E"` an error, anything else is unknown.
#[derive(Debug)]
pub enum LocationType {
    Unknown,
    Warning,
    Error,
}

/// The location type a raw type string maps to.
pub open spec fn location_type_of(value: String) -> LocationType {
    if value@ == "W"@ {
        LocationType::Warning
    } else if value@ == "E"@ {
        LocationType::Error
    } else {
        LocationType::Unknown
    }
}

impl vstd::std_specs::convert::FromSpecImpl<String> for LocationType {
    open spec fn obeys_from_spec() -> bool {
        true
    }

    open spec fn from_spec(v: String) -> LocationType {
        location_type_of(v)
    }
}

impl From<String> for LocationType {
    fn from(value: String) -> (r: LocationType) {
        if value == "W".to_owned() {
            LocationType::Warning
        } else if value == "E".to_owned() {
            LocationType::Error
        } else {
            LocationType::Unknown
        }
    }
}

/// One entry of the host's location list: a 0-based line, a severity
/// class and the annotation text.
#[derive(Debug)]
pub struct Location {
    pub lnum: u64,
    pub typ: LocationType,
    pub text: String,
}

/// One hunk of the host's diff: the 1-based first line of the run and
/// its length in lines.
#[derive(Debug)]
pub struct Hunk {
    pub lnum: u64,
    pub len: usize,
}

/// The decoded payload of a sync event.
#[derive(Debug)]
pub struct SyncPayload {
    pub locations: Vec<Location>,
    pub hunks: Vec<Hunk>,
}

} // verus!
