//! Core of a chat client that speaks a JSON-tagged-union protocol over a
//! WebSocket-class transport: a wire codec, an input parser, the connection
//! worker's state machine, and the session state that consumes its events.
pub mod json;
pub mod protocol;
pub mod session;
pub mod settings;
pub mod text;
pub mod worker;
