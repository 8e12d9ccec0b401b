//! Rust code generation from ROS 2 message definitions (`.msg` files).

pub mod definition;
pub mod generate;
