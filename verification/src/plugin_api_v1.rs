//! The interface that a generation-1 plugin object implements.

use crate::events::{Event, EventKind};
use vstd::prelude::*;

verus! {

/// The credentials that a generation-1 plugin receives, by value, when it is
/// loaded. The plugin gets copies: it cannot reach the host's own store.
#[derive(Debug, PartialEq, Eq)]
pub struct Slack {
    pub api_token: String,
    pub admin_api_token: String,
}

/// A generation-1 plugin object.
///
/// The host makes no assumption about what an implementation does; it only
/// decides when each entry point is called and with which arguments.
pub trait Plugin {
    /// A human-readable name for log output.
    fn name(&self) -> String;

    /// The event categories this plugin wants delivered.
    fn event_subscript(&self) -> Vec<EventKind>;

    /// Called once, right after construction and before the object is shared.
    fn on_plugin_load(&mut self, slack: Slack, config_path: String);

    /// Delivers one event of a category the plugin subscribed to.
    fn event(&self, event: &Event);
}

} // verus!
