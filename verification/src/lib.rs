//! The decisions of an SSH tunnel proxy: packet parsing and building, NAT-style
//! connection tracking, the message framing between the two ends, and the state
//! machines of the host and of the remote side.

pub mod addr;
pub mod address_text;
pub mod bytes;
pub mod cli;
pub mod host;
pub mod packet;
pub mod packet_laws;
pub mod protocol;
pub mod remote;
pub mod tables;
pub mod text;
pub mod text_laws;
pub mod tunnel;
pub mod view_laws;
pub mod wire;
