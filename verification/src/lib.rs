//! Fleet telemetry agent: the logic of a host agent that reports identity,
//! liveliness and on-demand telemetry over a publish/subscribe overlay.

pub mod codec;
pub mod common;
pub mod communicator;
pub mod messages;
pub mod number;
pub mod platform;
pub mod reporting;
pub mod search;
pub mod text;
pub mod wire;
pub mod words;
