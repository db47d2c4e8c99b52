// Core of a federated IRC server: the line codec, the reply catalog, the user
// and channel state machines, the command handlers, and the spanning tree of
// servers with its gossip. Handlers take the shared state as plain values and
// return the replies and the messages to hand on; the program around the
// library does the socket work.
use vstd::prelude::*;

// Channel mode flags.
pub mod channel_modes;
// String helpers over character sequences.
pub mod text;
// Parsing and writing protocol lines.
pub mod message;
// The numeric replies.
pub mod replies;
// Channels, their modes and ban masks.
pub mod channel;
// The tree of servers reachable from this one.
pub mod net;
// Users of the network.
pub mod user;
pub mod server_errors;
// Lookups in the user directory.
pub mod directory;
// JOIN, PART, INVITE, TOPIC, MODE, KICK, LIST, NAMES and OPERCH.
pub mod channel_msgs;
// The other client commands, and PRIVMSG routing.
pub mod commands;
// Server links: SQUIT, SERVER gossip and the link handshake.
pub mod federation;
// The registration phase of a connection.
pub mod registration;
// Invariants of channels and of joining and leaving.
pub mod laws;
// File names in peer-to-peer transfers.
pub mod transfer;
// The codec's round trip.
pub mod codec_laws;

verus! {

} // verus!
