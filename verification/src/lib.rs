//! Worker library for a mental-poker shuffle-proving protocol.
//!
//! The library covers the task wire protocol and the orchestration pipeline:
//! binary framing, token layout and ordering conventions, the public/private
//! card split used for the hash commitment, and the decode -> prove -> hash ->
//! encode pipeline with its validation contracts. Curve arithmetic, the
//! shuffle argument and the hash permutation are outside collaborators,
//! reached through narrow trusted interfaces.

pub mod bytes;
pub mod cards;
pub mod codec;
pub mod crypto;
pub mod laws;
pub mod orchestrator;
