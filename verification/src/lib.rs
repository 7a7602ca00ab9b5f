//! The verified core of a terminal mirror: a local pane that shows a remote
//! pane, live, over ssh or `docker exec`.

pub mod args;
pub mod behaviour;
pub mod config;
pub mod docker;
pub mod encoding;
pub mod error;
pub mod laws;
pub mod mode;
pub mod mouse;
pub mod outside;
pub mod pane;
pub mod relay;
pub mod screen;
pub mod session;
pub mod state;
pub mod text;
pub mod wire;
