//! The host side: it reads packets from the TUN interface and talks to the remote.

pub mod dns;
pub mod forward;
pub mod laws;
pub mod login_laws;
pub mod nat_laws;
pub mod nat_table;
pub mod routing;
pub mod segment_laws;
pub mod session;
pub mod session_laws;
pub mod setup;
pub mod setup_laws;
pub mod ssh;
pub mod tun;
