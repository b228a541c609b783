//! A relay from chat messages to a chat-completion service. A configurable table of
//! prefixes picks the model by the longest prefix that starts a message; the model's name
//! picks the schema its answer is read in; the answer becomes one plain reply or a group
//! of forwarded units. The settings change one field at a time.
pub mod text;
pub mod config;
pub mod prefix;
pub mod response;
pub mod request;
pub mod reply;
pub mod laws;
pub mod command;
pub mod relay;
pub mod messages;
