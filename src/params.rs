//! Per-network consensus parameters.
use vstd::prelude::*;

verus! {

/// The value of a single coin in satoshis.
pub const COIN_VALUE: u64 = 100_000_000;

/// The largest amount of satoshis that can ever exist.
pub const MAX_MONEY: u64 = 2_100_000_000_000_000;

/// Blocks a coinbase output must wait before it may be spent.
pub const COINBASE_MATURITY: u32 = 100;

/// The networks this library knows the parameters of.
#[derive(Clone, Copy, Debug, PartialEq, Eq, Structural)]
pub enum Network {
    Bitcoin,
    Testnet,
    Testnet4,
    Signet,
    Regtest,
}

/// Consensus parameters of one network.
#[derive(Clone, Copy, Debug)]
pub struct ChainParams {
    pub network: Network,
    /// Blocks between two halvings of the block subsidy.
    pub subsidy_halving_interval: u64,
    /// Height from which the coinbase must commit to the block height.
    pub bip34_height: u32,
    /// Seconds that a difficulty period is meant to last.
    pub pow_target_timespan: u64,
    /// Blocks in a difficulty period.
    pub difficulty_adjustment_interval: u64,
    /// Whether the anti-timewarp rules of BIP94 are enforced.
    pub enforce_bip94: bool,
    /// Whether a block found more than twenty minutes after its parent may
    /// use the easiest target.
    pub allow_min_difficulty_blocks: bool,
    /// The easiest target, in compact form.
    pub pow_limit_bits: u32,
}

impl ChainParams {
    /// Well-formed parameters: intervals are positive, and four target
    /// timespans fit in 64 bits.
    pub open spec fn wf(&self) -> bool {
        &&& self.subsidy_halving_interval > 0
        &&& self.pow_target_timespan > 0
        &&& self.pow_target_timespan <= u64::MAX / 4
        &&& self.difficulty_adjustment_interval > 0
    }

    /// The parameters of `network`.
    pub fn for_network(network: Network) -> (r: ChainParams)
        ensures
            r.wf(),
            r.network == network,
            r.pow_target_timespan == 1_209_600,
            r.difficulty_adjustment_interval == 2016,
            r.subsidy_halving_interval == (if network == Network::Regtest { 150u64 } else { 210_000u64 }),
            r.enforce_bip94 == (network == Network::Testnet4),
            r.allow_min_difficulty_blocks == (network == Network::Testnet || network
                == Network::Testnet4),
            r.pow_limit_bits == (match network {
                Network::Signet => 0x1e03_77aeu32,
                Network::Regtest => 0x207f_ffffu32,
                _ => 0x1d00_ffffu32,
            }),
            r.bip34_height == (match network {
                Network::Bitcoin => 227_836u32,
                Network::Testnet => 21_111u32,
                Network::Testnet4 => 1u32,
                Network::Signet => 1u32,
                Network::Regtest => 100_000_000u32,
            }),
    {
        let bip34_height: u32 = match network {
            Network::Bitcoin => 227_836,
            Network::Testnet => 21_111,
            Network::Testnet4 => 1,
            Network::Signet => 1,
            Network::Regtest => 100_000_000,
        };
        let subsidy_halving_interval: u64 = match network {
            Network::Regtest => 150,
            _ => 210_000,
        };
        ChainParams {
            network,
            subsidy_halving_interval,
            bip34_height,
            pow_target_timespan: 14 * 24 * 60 * 60,
            difficulty_adjustment_interval: 2016,
            enforce_bip94: match network {
                Network::Testnet4 => true,
                _ => false,
            },
            allow_min_difficulty_blocks: match network {
                Network::Testnet | Network::Testnet4 => true,
                _ => false,
            },
            pow_limit_bits: match network {
                Network::Signet => 0x1e03_77ae,
                Network::Regtest => 0x207f_ffff,
                _ => 0x1d00_ffff,
            },
        }
    }
}

} // verus!
