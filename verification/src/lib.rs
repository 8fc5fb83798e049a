//! A gateway for Minecraft Java Edition clients: it answers the handshake of a
//! client and, by the address the client asked for, shows it a status, turns it
//! away or transfers it to another server.

pub mod behaviour;
pub mod bytes;
pub mod cache;
pub mod config;
pub mod conversation;
pub mod error;
pub mod json;
pub mod layout;
pub mod notice;
pub mod packet;
pub mod packets;
pub mod session;
pub mod text;
pub mod varint;
pub mod wire;
