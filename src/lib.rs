//! A federated, line-oriented chat server core: the record parser, the shared
//! directory of accounts, channels and peers, and the client and peer session
//! state machines. Nothing here performs I/O; every effect is returned as a value.

pub mod text;
pub mod parse;
pub mod model;
pub mod keyed;
pub mod directory;
pub mod client;
pub mod peer;
pub mod dispatch;
