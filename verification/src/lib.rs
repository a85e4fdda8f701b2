//! State core of a peer-to-peer chat node: a bounded history of exchanged
//! messages, a directory of known participants, the merge that reconciles
//! the two with a snapshot received from another peer, and the routing of
//! inbound envelopes.

pub mod console;
pub mod directory;
pub mod history;
pub mod replies;
pub mod router;
pub mod state;
pub mod wire;
