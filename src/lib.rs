//! A user-space point-to-multipoint IPv4 tunnel: wire framing, a per-peer
//! session state machine, a longest-prefix routing table and the decisions of
//! the data-plane device. The host's TUN interface, sockets and readiness
//! multiplexor are driven by the caller, which feeds packets in and carries
//! out the returned actions.
pub mod allowed_ip;
pub mod bytes;
pub mod conf;
pub mod dev;
pub mod ipv4;
pub mod packet;
pub mod peer;
pub mod poll;

pub use allowed_ip::{AllowedIps, Iter};
pub use conf::Section;
pub use dev::{Arrival, Device, DeviceConfig, EventSource, Transmit, BUF_SIZE, MAX_PEERS};
pub use ipv4::SockAddr;
pub use packet::{HandshakeInit, HandshakeResponse, PackeParseError, Packet, PacketData};
pub use peer::{Action, Endpoint, HandshakeState, Peer, PeerName, PeerNameRef, PeerNameTooLong};
pub use poll::{SockID, Token, UnknownToken};
