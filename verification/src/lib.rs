//! Core logic of a ROS 2 client library: distribution identification,
//! global identifiers, message definition code generation and the
//! decisions an action client makes on what it receives.

pub mod action;
pub mod distributions;
pub mod gid;
pub mod msggen;
pub mod text;
