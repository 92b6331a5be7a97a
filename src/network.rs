use vstd::prelude::*;
use crate::error::WalletError;

verus! {

/// The chain that keys, addresses and heights refer to.
#[derive(Debug, Clone, Copy, PartialEq, Eq)]
pub enum Network {
    TestNetwork,
    MainNetwork,
}

/// The network named by its numeric identifier: 0 for the test network, 1 for
/// the main network.
pub open spec fn network_of_id(id: u32) -> Option<Network> {
    if id == 0 {
        Some(Network::TestNetwork)
    } else if id == 1 {
        Some(Network::MainNetwork)
    } else {
        None
    }
}

/// Maps a numeric network identifier to a network; any other value is refused.
pub fn parse_network(value: u32) -> (r: Result<Network, WalletError>)
    ensures
        match network_of_id(value) {
            Some(n) => r == Ok::<Network, WalletError>(n),
            None => r == Err::<Network, WalletError>(WalletError::InvalidArgument),
        },
{
    match value {
        0 => Ok(Network::TestNetwork),
        1 => Ok(Network::MainNetwork),
        _ => Err(WalletError::InvalidArgument),
    }
}

} // verus!

verus! {

/// The first height at which shielded notes of this kind exist on `n`.
pub open spec fn sapling_activation(n: Network) -> u32 {
    match n {
        Network::MainNetwork => 419_200,
        Network::TestNetwork => 280_000,
    }
}

/// The height from which a wallet that has scanned nothing starts scanning.
pub fn sapling_activation_height(n: Network) -> (r: u32)
    ensures
        r == sapling_activation(n),
{
    match n {
        Network::MainNetwork => 419_200,
        Network::TestNetwork => 280_000,
    }
}

} // verus!

verus! {

/// The consensus branch id in force at `height` on `n`: that of the latest
/// network upgrade activated at or below it, and 0 (Sprout) before all of them.
pub open spec fn branch_id(n: Network, height: u32) -> u32 {
    let (overwinter, sapling, blossom, heartwood, canopy) = match n {
        Network::MainNetwork => (347_500u32, 419_200u32, 653_600u32, 903_000u32, 1_046_400u32),
        Network::TestNetwork => (207_500u32, 280_000u32, 584_000u32, 903_800u32, 1_028_500u32),
    };
    if height >= canopy {
        0xe9ff_75a6
    } else if height >= heartwood {
        0xf5b9_230b
    } else if height >= blossom {
        0x2bb4_0e60
    } else if height >= sapling {
        0x76b8_09bb
    } else if height >= overwinter {
        0x5ba8_1b19
    } else {
        0
    }
}

/// Relies on zcash_primitives' BranchId::for_height with the network's upgrade
/// activation heights, and on the numeric value of each branch id.
#[verifier::external_body]
fn consensus_branch_id(n: Network, height: u32) -> (r: u32)
    ensures
        r == branch_id(n, height),
{
    let params = match n {
        Network::MainNetwork => zcash_primitives::consensus::Network::MainNetwork,
        Network::TestNetwork => zcash_primitives::consensus::Network::TestNetwork,
    };
    let h = zcash_primitives::consensus::BlockHeight::from_u32(height);
    u32::from(zcash_primitives::consensus::BranchId::for_height(&params, h))
}

/// The consensus branch id for a block height; heights are never negative.
pub fn branch_id_for_height(height: i32, n: Network) -> (r: Result<u32, WalletError>)
    ensures
        match r {
            Ok(id) => height >= 0 && id == branch_id(n, height as u32),
            Err(e) => height < 0 && e == WalletError::InvalidArgument,
        },
{
    if height < 0 {
        return Err(WalletError::InvalidArgument);
    }
    Ok(consensus_branch_id(n, height as u32))
}

} // verus!
