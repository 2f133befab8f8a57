//! Descriptors of the RPC services through which a chain is reached.
//!
//! The relay core hands a descriptor on to the gateway unread, but for the
//! chain id that it stands for, which goes into every transaction.

use vstd::prelude::*;

verus! {

/// A provider of the Ethereum Sepolia test network.
#[derive(Clone, Copy, Debug, PartialEq, Eq, Structural)]
pub enum EthSepoliaService {
    Alchemy,
    BlockPi,
    PublicNode,
    Ankr,
}

/// A provider of a layer-2 main network.
#[derive(Clone, Copy, Debug, PartialEq, Eq, Structural)]
pub enum L2MainnetService {
    Alchemy,
    BlockPi,
    PublicNode,
    Ankr,
}

/// A provider of the Ethereum main network.
#[derive(Clone, Copy, Debug, PartialEq, Eq, Structural)]
pub enum EthMainnetService {
    Alchemy,
    BlockPi,
    Cloudflare,
    PublicNode,
    Ankr,
}

/// One header of an HTTP request.
#[derive(Clone, Debug, PartialEq, Eq)]
pub struct HttpHeader {
    pub value: String,
    pub name: String,
}

/// An RPC endpoint given by its URL.
#[derive(Clone, Debug, PartialEq, Eq)]
pub struct RpcApi {
    pub url: String,
    pub headers: Option<Vec<HttpHeader>>,
}

/// The RPC services of one chain: a known network with a choice of
/// providers (`None` for the default ones), or a custom network with its
/// chain id and endpoints.
#[derive(Clone, Debug, PartialEq, Eq)]
pub enum RpcServices {
    EthSepolia(Option<Vec<EthSepoliaService>>),
    BaseMainnet(Option<Vec<L2MainnetService>>),
    Custom { chain_id: u64, services: Vec<RpcApi> },
    OptimismMainnet(Option<Vec<L2MainnetService>>),
    ArbitrumOne(Option<Vec<L2MainnetService>>),
    EthMainnet(Option<Vec<EthMainnetService>>),
}

impl RpcServices {
    /// The EIP-155 chain id of the network that the services reach.
    pub open spec fn spec_chain_id(&self) -> u64 {
        match self {
            RpcServices::EthSepolia(_) => 11155111,
            RpcServices::BaseMainnet(_) => 8453,
            RpcServices::Custom { chain_id, .. } => *chain_id,
            RpcServices::OptimismMainnet(_) => 10,
            RpcServices::ArbitrumOne(_) => 42161,
            RpcServices::EthMainnet(_) => 1,
        }
    }

    /// The EIP-155 chain id of the network that the services reach.
    #[verifier::when_used_as_spec(spec_chain_id)]
    pub fn chain_id(&self) -> (id: u64)
        ensures
            id == self.spec_chain_id(),
    {
        match self {
            RpcServices::EthSepolia(_) => 11155111,
            RpcServices::BaseMainnet(_) => 8453,
            RpcServices::Custom { chain_id, .. } => *chain_id,
            RpcServices::OptimismMainnet(_) => 10,
            RpcServices::ArbitrumOne(_) => 42161,
            RpcServices::EthMainnet(_) => 1,
        }
    }
}

} // verus!
