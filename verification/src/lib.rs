//! Verified core of a UDP multicast testing tool: the text renderings of
//! captured datagrams, the record format used to save and load captures,
//! the listener's registration state machine and the capture window's state.
pub mod text;
pub mod util;
pub mod time;
pub mod data;
pub mod listener;
pub mod app;
