//! Game-state logic of the Tribalcraft server and client: packet types,
//! the server's player registry and the choice of who receives which
//! packet, and the client's view of the world it is told about.
//!
//! Positions, angles and velocities travel over the wire as 32-bit floats.
//! The library never computes with them: it carries each one as the `u32`
//! bit pattern of the float, which the transport converts losslessly.
pub mod client;
pub mod relay;
pub mod serial;
pub mod server;
pub mod trusted;
