//! A verified real-time frame pipeline: camera frames run through an ordered,
//! toggleable chain of image effects and fan out to a preview window and a
//! network stream sink.
//!
//! `frame` models the image buffer, `effect` the individual transforms and
//! their toggle state, `chain` the ordered application of enabled effects,
//! and `pipeline` the session lifecycle and the per-frame control loop.

pub mod chain;
pub mod effect;
pub mod frame;
pub mod pipeline;
