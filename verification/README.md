# ros2_client (verified core)

The logic of a ROS 2 client library, written in Verus and proved against its
contracts.

- `src/distributions.rs`: ROS 2 distributions, their release order, which
  distribution a set of distribution features builds for, and what to report
  when `ROS_DISTRO` is compared with the build. The library is built for
  Jazzy (`COMPILED_ROS_DISTRO`).
- `src/gid.rs`: the ROS 2 Gid and its relation to a DDS GUID (`rustdds`).
- `src/msggen/`: a parsed message definition and the Rust source generated
  for it.
- `src/action/`: action protocol messages, the cancel requests a client
  sends, and how it picks the response, feedback or status it waits for out
  of what its readers have received.
- `src/text.rs`: decimal and hexadecimal rendering.
- `app/`: I/O around the library: reading `ROS_DISTRO` and logging, writing
  generated code, a serializable Gid, and `Display` for a distribution.
