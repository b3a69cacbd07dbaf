//! The record-keeping layer of a cross-chain message relay agent: committed
//! messages, signed root updates, their metadata and merkle proofs, looked up
//! by several keys, with pointers to the latest contiguous message and update.

use vstd::prelude::*;

pub mod types;
pub mod table;
pub mod db;
pub mod laws;
pub mod secrets;

pub use db::{DbModel, LeafPoll, NomadDB, LEAF_POLL_INTERVAL_MS};
pub use secrets::{AgentSecrets, ChainConf, Connection, SignerConf};
pub use types::{
    destination_and_nonce, DbError, H256, NomadMessage, NomadProof, Proof, RawCommittedMessage,
    SignedUpdate, SignedUpdateWithMeta, Update, UpdateMeta, MESSAGE_HEADER_LEN,
};

verus! {

} // verus!
