//! Verified core of a command line client for the Z-Wave JS Server websocket API.

pub mod codec;
pub mod controller;
pub mod counts;
pub mod events;
pub mod failure;
pub mod json;
pub mod laws;
pub mod nodes;
pub mod protocol;
pub mod run;
pub mod text;
