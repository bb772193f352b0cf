//! The control protocol of [`lldpd`](https://lldpd.github.io/), without its
//! sockets: what to send, and what the bytes that come back mean.
//!
//! lldpd has no stable protocol for its clients. What it sends is its own C
//! structures, copied out of its memory, with a small envelope that turns
//! pointers into what they point to. So what a message means depends on
//!
//! - the version of lldpd: the structures here are those of 1.0.21 and 1.0.22;
//! - the features it was built with: dot1, dot3, LLDP-MED, CDP and FDP are
//!   taken to be there, custom TLVs are not;
//! - the machine's C ABI: byte order, pointer width and alignment are those of
//!   the machine that runs this code, which has to be that of lldpd.
//!
//! A payload is read by [`wire`], and everything that is read is stated:
//! which bytes give which value, and which bytes give which error. The
//! modules [`wire::sent`] and [`wire::round_trip`] hold the theorems that
//! reading gives back what was sent, and [`wire::locality`] those on messages
//! that are followed by something else or cut short. [`transport`] frames messages, and
//! [`client`] and [`subscription`] say what each request and each reply is.
//!
//! The requests that are spoken are `GET_INTERFACES`, `GET_INTERFACE`,
//! `SUBSCRIBE` with its `NOTIFICATION`s, and `SET_PORT` for a port's
//! description. Nothing else that changes the daemon's state is.

pub mod client;
pub mod error;
pub mod model;
pub mod subscription;
pub mod text;
pub mod transport;
pub mod wire;

pub use client::DEFAULT_SOCKET_PATH;
pub use error::Error;
pub use model::{
    Capabilities, Chassis, ChassisIdSubtype, Interface, InterfaceDetails, IpAddr,
    ManagementAddress, MedInventory, Neighbor, NeighborChange, NeighborChangeKind, PortIdSubtype,
};
pub use subscription::{Awaiting, Incoming, Received};
