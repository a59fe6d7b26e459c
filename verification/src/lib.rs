//! Core library of a shared image gallery server.
//!
//! Clients upload pictures into lobbies and rooms, other clients listening on
//! the same lobby receive live JSON events over a persistent connection, and
//! every mutating action is gated by a configurable access-control decision.
//! This crate holds the verified logic: the notification hub's membership
//! index, the per-connection liveness state machine, the policy evaluator,
//! the image ingestion pipeline and the content-store index, and the wire
//! format of every event. The unverified shell around it (HTTP routes,
//! sockets, the filesystem mirror of the store) lives outside this crate and
//! only hands plain values in and out.
use vstd::prelude::*;

pub mod api;
pub mod assoc;
pub mod config;
pub mod conn;
pub mod hub;
pub mod img;
pub mod policy;
pub mod store;
pub mod wire;

verus! {

/// Top-level container of rooms; a 128-bit random identifier.
pub type LobbyId = u128;

/// Identifier of a group of images inside a lobby.
pub type RoomId = u32;

/// Identifier of one live client connection; a 128-bit random identifier.
pub type SessionId = u128;

/// Content-derived identifier of an image: the first 32 bits of a perceptual
/// hash of the full-resolution variant.
pub type ImgId = u32;

/// Token under which the unverified shell keeps the outbound socket writer
/// of one connection; the hub only ever pairs it with a session.
pub type ChannelId = u64;

} // verus!
