//! Connection, framing and report logic of a command-line client that drives the
//! Arc browser over the Chrome DevTools Protocol.

pub mod text;
pub mod http;
pub mod json;
pub mod browser;
pub mod connect;
pub mod console;
pub mod network;
pub mod evaluate;
pub mod snapshot;
pub mod install;
pub mod performance;
pub mod window;
