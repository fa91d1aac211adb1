//! The interface that a generation-2 plugin object implements, and the
//! requests it may send to the host.

use crate::events::{Event, EventKind};
use vstd::prelude::*;

verus! {

/// What a generation-2 plugin may ask of the host.
#[derive(Debug, PartialEq, Eq)]
pub enum Request {
    ApiToken,
    AdminApiToken,
    WebHooksIncomingToken,
    WebHooksOutgoingToken,
    /// The name of the conversation with this identifier.
    GetChannelName(String),
    ConfigPath,
}

/// The host's answer to a [`Request`].
#[derive(Debug, PartialEq, Eq)]
pub enum Reply {
    ApiToken(String),
    AdminApiToken(String),
    WebHooksIncomingToken(String),
    WebHooksOutgoingToken(String),
    ChannelName(String),
    ConfigPath(String),
    /// The requested optional token was never set.
    NotConfigured,
    /// The chat service could not be asked, or did not know the conversation.
    LookupFailed,
}

/// What a [`Request`] holds, as plain values.
pub enum RequestView {
    ApiToken,
    AdminApiToken,
    WebHooksIncomingToken,
    WebHooksOutgoingToken,
    GetChannelName(Seq<char>),
    ConfigPath,
}

impl View for Request {
    type V = RequestView;

    open spec fn view(&self) -> RequestView {
        match self {
            Request::ApiToken => RequestView::ApiToken,
            Request::AdminApiToken => RequestView::AdminApiToken,
            Request::WebHooksIncomingToken => RequestView::WebHooksIncomingToken,
            Request::WebHooksOutgoingToken => RequestView::WebHooksOutgoingToken,
            Request::GetChannelName(id) => RequestView::GetChannelName(id@),
            Request::ConfigPath => RequestView::ConfigPath,
        }
    }
}

/// What a [`Reply`] holds, as plain values.
pub enum ReplyView {
    ApiToken(Seq<char>),
    AdminApiToken(Seq<char>),
    WebHooksIncomingToken(Seq<char>),
    WebHooksOutgoingToken(Seq<char>),
    ChannelName(Seq<char>),
    ConfigPath(Seq<char>),
    NotConfigured,
    LookupFailed,
}

impl View for Reply {
    type V = ReplyView;

    open spec fn view(&self) -> ReplyView {
        match self {
            Reply::ApiToken(token) => ReplyView::ApiToken(token@),
            Reply::AdminApiToken(token) => ReplyView::AdminApiToken(token@),
            Reply::WebHooksIncomingToken(token) => ReplyView::WebHooksIncomingToken(token@),
            Reply::WebHooksOutgoingToken(token) => ReplyView::WebHooksOutgoingToken(token@),
            Reply::ChannelName(name) => ReplyView::ChannelName(name@),
            Reply::ConfigPath(path) => ReplyView::ConfigPath(path@),
            Reply::NotConfigured => ReplyView::NotConfigured,
            Reply::LookupFailed => ReplyView::LookupFailed,
        }
    }
}

/// A generation-2 plugin object.
///
/// Instead of copies of the credentials it receives two sending ends: one
/// for log records and one for [`Request`]s.
pub trait Plugin {
    /// The sending end for log records.
    type Logger: Clone;

    /// The sending end for requests to the host.
    type Sender: Clone;

    /// A human-readable name for log output.
    fn name(&self) -> String;

    /// The event categories this plugin wants delivered.
    fn event_subscript(&self) -> Vec<EventKind>;

    /// Called once, right after construction and before the object is shared.
    fn on_plugin_load(&mut self, logger: Self::Logger, sender: Self::Sender);

    /// Delivers one event of a category the plugin subscribed to.
    fn event(&self, event: &Event);
}

} // verus!
