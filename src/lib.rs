//! Core of a peer-to-peer LAN file-transfer engine: the wire protocol, the sender and receiver
//! decisions, the folder stream writer, and the discovery state, each with its contract.

pub mod checksum;
pub mod connection;
pub mod crypto;
pub mod discovery;
pub mod engine;
pub mod heartbeat;
pub mod hostview;
pub mod peers;
pub mod protocol;
pub mod receiver;
pub mod sender;
pub mod stream;
pub mod text;
pub mod transfer;
pub mod transport;
pub mod vwtp;
pub mod wire;
pub mod writer;
