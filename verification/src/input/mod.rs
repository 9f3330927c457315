//! Input injection: the events the data channel's messages turn into.
pub mod controller;
