//! Verified core of a chat-bot plugin host.
//!
//! The host loads native extension modules, keeps every constructed plugin
//! object together with the module that produced it, routes chat events to
//! the plugins that subscribed to them, and answers the requests that
//! plugins send over a request/reply channel.
//!
//! Everything here is sequential and free of I/O: opening modules, talking
//! to the chat service, threads and locks belong to the embedding
//! application, which drives the state machines defined in this crate.

pub mod channel_return;
pub mod config;
pub mod conversations;
pub mod events;
pub mod logger;
pub mod misc;
pub mod plugin_api_v1;
pub mod plugin_api_v2;
pub mod plugin_manager;
pub mod request_server;
pub mod slack_bot;
