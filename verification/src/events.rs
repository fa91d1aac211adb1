//! Events of the realtime feed, as far as the host routes them.

use vstd::prelude::*;

verus! {

/// The categories of events a plugin may subscribe to.
#[derive(Clone, Copy, Debug, PartialEq, Eq, Structural)]
pub enum EventKind {
    /// An ordinary message posted to a conversation.
    StandardMessage,
}

/// The fields of an ordinary chat message that plugins read.
#[derive(Debug, PartialEq, Eq)]
pub struct MessageStandard {
    pub channel: Option<String>,
    pub user: Option<String>,
    pub text: Option<String>,
    pub ts: Option<String>,
    pub thread_ts: Option<String>,
}

/// One event delivered by the realtime feed.
#[derive(Debug, PartialEq, Eq)]
pub enum Event {
    /// An ordinary message.
    StandardMessage(MessageStandard),
    /// Any event of a category that no plugin can subscribe to.
    Unrouted,
}

impl Event {
    /// The category under which this event is routed, if it is routed at all.
    pub open spec fn spec_kind(&self) -> Option<EventKind> {
        match self {
            Event::StandardMessage(_) => Some(EventKind::StandardMessage),
            Event::Unrouted => None,
        }
    }

    /// The category under which this event is routed, if it is routed at all.
    #[verifier::when_used_as_spec(spec_kind)]
    pub fn kind(&self) -> (kind: Option<EventKind>)
        ensures
            kind == self.spec_kind(),
    {
        match self {
            Event::StandardMessage(_) => Some(EventKind::StandardMessage),
            Event::Unrouted => None,
        }
    }
}

} // verus!
