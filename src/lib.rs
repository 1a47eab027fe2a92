//! Core of a proximity voice relay: connection records, the audience engine,
//! the login handshake, the command dispatcher and the connection registry.

pub mod connection;
pub mod dispatch;
pub mod driver;
pub mod error;
pub mod handshake;
pub mod hash;
pub mod messages;
pub mod records;
pub mod registry;
pub mod text;

