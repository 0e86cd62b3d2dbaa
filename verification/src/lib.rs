//! A point-to-point secure session protocol: a mutually authenticated key
//! agreement between two long-lived identities, followed by an encrypted,
//! replay-resistant datagram transport with periodic key ratcheting.
//!
//! The library performs no I/O and keeps no timers. Every entry point takes
//! the current time from its caller and hands back the datagrams that the
//! caller is expected to put on the wire.

pub mod clock;
pub mod context;
pub mod driver;
pub mod error;
pub mod fragment;
pub mod handshake;
pub mod keys;
pub mod laws;
pub mod primitives;
pub mod replay;
pub mod session;
pub mod settings;
pub mod wire;

pub use context::ApplicationLayer;
pub use context::Context;
pub use context::ReceiveResult;
pub use context::Received;
pub use context::ServiceReport;
pub use error::Error;
pub use primitives::KeyPair;
pub use session::RemoteIdentity;
pub use session::Session;
pub use settings::Settings;
