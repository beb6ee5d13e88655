//! The terminal client's state, and its reactions to keys and messages.
pub mod input;
pub mod model;
