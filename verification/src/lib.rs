//! Verified core of a desktop client for an OpenCode server: the data the
//! server exchanges, the requests the client sends, the state of the chat,
//! session and input panes, and the rendering of Markdown into Pango markup.
pub mod api;
pub mod chat;
pub mod input;
pub mod markdown;
pub mod model;
pub mod server;
pub mod sessions;
pub mod text;
pub mod window;
