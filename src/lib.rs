//! An identity-and-reputation registry for agents, modelled on the account
//! store of a Solana program.
//!
//! Each owner has one agent record, stored at an address derived from a
//! namespace tag and the owner's key. Registration is signed by the owner and
//! pays a fixed stake into the record; reputation is raised by a delegated
//! authority that names the owner without the owner's signature.
pub mod pubkey;

pub mod address;

pub mod store;

pub mod program;
