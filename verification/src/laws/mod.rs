//! What the client's operations are for, stated of what is handed to them and
//! what they give back.
//!
//! Each law speaks of a call: `call_ensures` of a function, its arguments and its
//! result says that the function may give that result for those arguments.

pub mod bridge;
pub mod config;
pub mod http;
pub mod installer;
pub mod json;
pub mod names;
pub mod paths;
pub mod text;
