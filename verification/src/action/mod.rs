//! ROS 2 actions: the messages an action client exchanges with an action
//! server, and the decisions the client makes on what it receives.

pub mod client;
pub mod messages;
