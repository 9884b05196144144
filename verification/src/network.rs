use vstd::prelude::*;

verus! {

/// The class of chain a group deploys to. Block times differ by class, so
/// the settling delay after a transaction does too.
#[derive(Debug, Clone, Copy, PartialEq, Eq, Structural)]
pub enum Network {
    LocalTerra,
    Testnet,
    Mainnet,
}

/// Post-operation settling delay per network class, in seconds. After a
/// transaction is accepted, reads made by the next operation of a
/// deployment script may observe stale chain state until enough blocks have
/// passed; the delay is a coarse substitute for confirmation-depth
/// tracking. The values are policy, not protocol, so they are carried in
/// the configuration rather than hardcoded.
#[derive(Debug, Clone, Copy, PartialEq, Eq, Structural)]
pub struct WaitPolicy {
    pub local_secs: u64,
    pub testnet_secs: u64,
    pub mainnet_secs: u64,
}

/// The settling delay `policy` assigns to `network`.
pub open spec fn delay_spec(policy: WaitPolicy, network: Network) -> u64 {
    match network {
        Network::LocalTerra => policy.local_secs,
        Network::Testnet => policy.testnet_secs,
        Network::Mainnet => policy.mainnet_secs,
    }
}

impl WaitPolicy {
    /// The delays the original deployment scripts settled on: 6 s locally,
    /// 30 s on a testnet, 60 s on mainnet.
    pub fn customary() -> (r: WaitPolicy)
        ensures
            r == (WaitPolicy { local_secs: 6, testnet_secs: 30, mainnet_secs: 60 }),
    {
        WaitPolicy { local_secs: 6, testnet_secs: 30, mainnet_secs: 60 }
    }

    /// How many seconds to sleep after an operation on `network` before
    /// returning to the caller. The sleep itself is the caller's business.
    pub fn delay_seconds(&self, network: Network) -> (r: u64)
        ensures
            r == delay_spec(*self, network),
    {
        match network {
            Network::LocalTerra => self.local_secs,
            Network::Testnet => self.testnet_secs,
            Network::Mainnet => self.mainnet_secs,
        }
    }
}

} // verus!
