//! Coordination core of a peer-to-peer CFD trading daemon: the peer endpoint's
//! connection bookkeeping, the taker's trading controller and the store that
//! keeps the rollover snapshots of each CFD.

pub mod bytes;
pub mod cfd;
pub mod chain;
pub mod clock;
pub mod endpoint;
pub mod hex;
pub mod keypair;
pub mod model;
pub mod models;
pub mod rollover;
pub mod setup_contract_actor;
pub mod taker_cfd_actor;
pub mod vec_set;
pub mod wire;
