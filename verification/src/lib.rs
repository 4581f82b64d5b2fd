//! Quiz game played over UDP on a local network: the shared message protocol,
//! the question bank, the server's round-keeping state machine, the client's
//! input rules and the text frames that the terminal shows.

pub mod game;
pub mod questions;
pub mod server;
pub mod server_laws;
pub mod renderer;
pub mod client;
pub mod frame;
pub mod input;
