//! Decoding of fields whose shape varies between replies.

pub mod optionally_enabled;
