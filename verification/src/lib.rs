//! ICMPv4 echo packets: the Internet checksum, the ICMPv4 and IPv4 header
//! codecs, a bounds-checked writable packet view, and the decisions of a
//! readiness-driven raw socket.

pub mod bits;
pub mod checksum;
pub mod endian;
pub mod error;
pub mod icmp;
pub mod ipv4;
pub mod socket;

pub use error::Error;
pub use icmp::IcmpV4Header;
pub use icmp::WritableIcmpPacket;
pub use ipv4::IpV4PacketHeader;
