use vstd::prelude::*;
use std::collections::HashMap;

verus! {

/// How an agent reaches a chain's RPC endpoint.
#[derive(Clone, Debug, PartialEq, Eq)]
pub enum Connection {
    /// An HTTP endpoint, by URL.
    Http(String),
    /// A websocket endpoint, by URL.
    Ws(String),
}

/// The RPC configuration of one chain, by RPC style.
#[derive(Clone, Debug, PartialEq, Eq)]
pub enum ChainConf {
    /// An Ethereum-style RPC.
    Ethereum(Connection),
}

/// How an agent signs.
#[derive(Clone, Debug, PartialEq, Eq)]
pub enum SignerConf {
    /// A hex-encoded private key.
    HexKey(String),
    /// A key held by AWS KMS.
    Aws { id: String, region: String },
    /// The node's own signer.
    Node,
}

/// Agent secrets block: RPC endpoints and transaction signers by network
/// name, and the attestation signer.
#[derive(Clone, Debug)]
pub struct AgentSecrets {
    /// RPC endpoints
    pub rpcs: HashMap<String, ChainConf>,
    /// Transaction signers
    pub transaction_signers: HashMap<String, SignerConf>,
    /// Attestation signer
    pub attestation_signer: SignerConf,
}

} // verus!
