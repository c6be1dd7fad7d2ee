//! Block subsidy and header rules.
use vstd::arithmetic::div_mod::{lemma_div_denominator, lemma_div_is_ordered_by_denominator};
use vstd::arithmetic::power::pow;
use vstd::arithmetic::power2::{
    lemma2_to64, lemma_pow2_pos, lemma_pow2_strictly_increases, lemma_pow2_unfold,
    pow2,
};
use vstd::bits::lemma_u64_shr_is_div;
use vstd::prelude::*;

use crate::params::{ChainParams, Network, COIN_VALUE};
use crate::encode::block_hash_of;
use crate::script::le_unsigned;
use crate::types::{hash_eq, BlockHeader, BlockValidationErrors, Hash32};

verus! {

/// The subsidy of the first block: fifty coins.
pub open spec fn initial_subsidy() -> nat {
    5_000_000_000
}

/// Satoshis that a block at `height` may mint: fifty coins halved once per
/// `interval` blocks, and nothing once the halvings reach 64.
pub open spec fn subsidy_at(interval: nat, height: nat) -> nat
    recommends
        interval > 0,
{
    let halvings = height / interval;
    if halvings >= 64 {
        0
    } else {
        initial_subsidy() / pow2(halvings)
    }
}

/// The compact target that bitcoin's retargeting gives after a period that
/// started at `bits` and lasted `timespan` seconds on `network`.
pub uninterp spec fn next_work_of(bits: u32, timespan: u64, network: Network) -> u32;

/// The value of a compact target: a 23-bit mantissa shifted left by eight
/// bits for each unit of the exponent above three (right for those below),
/// the shift taken modulo 256 and the result modulo 2^256; zero where the
/// sign bit is set.
pub open spec fn compact_target(bits: u32) -> int {
    let e = (bits >> 24u32) as int;
    let m = if e <= 3 {
        ((bits & 0xFF_FFFF) >> ((8 * (3 - e)) as u32)) as int
    } else {
        (bits & 0xFF_FFFF) as int
    };
    let shift = if e <= 3 {
        0
    } else {
        (8 * (e - 3)) % 256
    };
    if m > 0x7F_FFFF {
        0
    } else {
        (m * pow2(shift as nat)) % (pow2(256) as int)
    }
}

/// Relies on bitcoin's `CompactTarget::from_next_work_required`: the target
/// scaled by `timespan` over the network's target timespan and capped at its
/// proof-of-work limit; on regtest, which does not retarget, `bits` unchanged.
/// It does not panic for any `bits`: the 256-bit product with the 64-bit
/// timespan goes through `U256::overflowing_mul`, whose overflow flag comes
/// only from the multiplier's top 64-bit word, here zero, so the
/// `debug_assert` in `Mul` cannot fire; the shifts wrap and the divisor is a
/// nonzero constant.
#[verifier::external_body]
fn next_work_required(bits: u32, timespan: u64, network: Network) -> (r: u32)
    ensures
        r == next_work_of(bits, timespan, network),
        network == Network::Regtest ==> r == bits,
{
    let network = match network {
        Network::Bitcoin => bitcoin::Network::Bitcoin,
        Network::Testnet => bitcoin::Network::Testnet,
        Network::Testnet4 => bitcoin::Network::Testnet4,
        Network::Signet => bitcoin::Network::Signet,
        Network::Regtest => bitcoin::Network::Regtest,
    };
    let last = bitcoin::CompactTarget::from_consensus(bits);
    bitcoin::CompactTarget::from_next_work_required(last, timespan, network).to_consensus()
}

/// The time between the first and the last block of a period, held between a
/// quarter and four times the target timespan.
pub open spec fn clamped_timespan(last_time: u32, first_time: u32, target: u64) -> int {
    let actual = last_time as int - first_time as int;
    if actual < target / 4 {
        (target / 4) as int
    } else if actual > target * 4 {
        (target * 4) as int
    } else {
        actual
    }
}

/// Whether a header keeps the anti-timewarp rule of BIP94 towards its parent.
pub open spec fn bip94_time_ok(header: BlockHeader, prev: BlockHeader) -> bool {
    header.time as int >= prev.time as int - 600
}

/// From 64 halvings on, a block mints nothing.
pub proof fn lemma_subsidy_ends(interval: nat, height: nat)
    requires
        interval > 0,
        height >= interval * 64,
    ensures
        subsidy_at(interval, height) == 0,
{
    assert(height / interval >= 64) by (nonlinear_arith)
        requires
            interval > 0,
            height >= interval * 64,
    ;
}

/// Every `interval` blocks the subsidy halves, rounding down: fifty coins
/// divided by two to the number of halvings.
pub proof fn lemma_subsidy_halves(interval: nat, height: nat)
    requires
        interval > 0,
    ensures
        subsidy_at(interval, height + interval) == subsidy_at(interval, height) / 2,
{
    let k = height / interval;
    assert((height + interval) / interval == k + 1) by (nonlinear_arith)
        requires
            interval > 0,
            k == height / interval,
    ;
    lemma_pow2_pos(k);
    lemma_pow2_unfold(k + 1);
    if k + 1 < 64 {
        lemma_div_denominator(initial_subsidy() as int, pow2(k) as int, 2);
    } else if k < 64 {
        // k == 63: half of fifty coins over 2^63 is already zero.
        lemma2_to64();
        lemma_pow2_strictly_increases(32, k);
        lemma_div_is_ordered_by_denominator(initial_subsidy() as int, pow2(32) as int, pow2(k) as int);
        assert(initial_subsidy() / pow2(32) == 1);
        assert(initial_subsidy() / pow2(k) <= 1);
        assert(initial_subsidy() < pow2(k));
    }
}

/// Relies on bitcoin's `Target::from_compact`: the target a header's `bits`
/// encode, as 32 little-endian bytes.
#[verifier::external_body]
fn target_from_bits(bits: u32) -> (r: Hash32)
    ensures
        le_unsigned(r@) == compact_target(bits),
{
    bitcoin::Target::from_compact(bitcoin::CompactTarget::from_consensus(bits)).to_le_bytes()
}

/// Whether compact `bits` are too large for 256 bits: a nonzero mantissa
/// whose bytes, placed by the exponent, reach past the 32nd byte.
pub open spec fn compact_overflows(bits: u32) -> bool {
    let e = bits >> 24u32;
    let m = bits & 0x7F_FFFF;
    m != 0 && (e > 34 || (m > 0xff && e > 33) || (m > 0xffff && e > 32))
}

/// Whether `bits` encode a usable target: not negative, zero or overflowing,
/// and no easier than the network's limit `limit_bits`.
pub open spec fn target_in_range(bits: u32, limit_bits: u32) -> bool {
    !compact_overflows(bits) && compact_target(bits) != 0 && compact_target(bits) <= compact_target(
        limit_bits,
    )
}

/// Whether the header's hash, read as a little-endian number, is at most the
/// target its `bits` encode.
pub open spec fn pow_ok(header: BlockHeader) -> bool {
    le_unsigned(block_hash_of(header)) <= compact_target(header.bits)
}

/// Bytes that are all zero stand for zero.
proof fn lemma_le_unsigned_zero(v: Seq<u8>)
    requires
        forall|i: int| 0 <= i < v.len() ==> v[i] == 0,
    ensures
        le_unsigned(v) == 0,
    decreases v.len(),
{
    if v.len() > 0 {
        lemma_le_unsigned_zero(v.drop_first());
    }
}

/// The value of `v` is below `256^len`.
proof fn lemma_le_unsigned_bound(v: Seq<u8>)
    ensures
        0 <= le_unsigned(v) < pow(256, v.len()),
    decreases v.len(),
{
    reveal(pow);
    if v.len() > 0 {
        lemma_le_unsigned_bound(v.drop_first());
        let rest = le_unsigned(v.drop_first());
        let p = pow(256, (v.len() - 1) as nat);
        assert(v[0] + 256 * rest < 256 * p) by (nonlinear_arith)
            requires
                0 <= v[0] < 256,
                0 <= rest < p,
        ;
    }
}

/// The last byte of `v` is its most significant.
proof fn lemma_le_unsigned_last(v: Seq<u8>)
    requires
        v.len() > 0,
    ensures
        le_unsigned(v) == le_unsigned(v.drop_last()) + pow(256, (v.len() - 1) as nat) * v.last(),
    decreases v.len(),
{
    reveal(pow);
    if v.len() > 1 {
        let rest = v.drop_first();
        lemma_le_unsigned_last(rest);
        assert(rest.drop_last() =~= v.drop_last().drop_first());
        let p = pow(256, (rest.len() - 1) as nat);
        let x = le_unsigned(rest.drop_last());
        assert(rest.last() == v.last());
        assert(le_unsigned(rest) == x + p * v.last());
        assert(v.drop_last()[0] == v[0]);
        assert(le_unsigned(v.drop_last()) == v[0] + 256 * x);
        assert(pow(256, (v.len() - 1) as nat) == 256 * p);
        assert(256 * (x + p * v.last()) == 256 * x + (256 * p) * v.last()) by (nonlinear_arith);
    } else {
        assert(v.drop_last() =~= Seq::<u8>::empty());
        assert(v.drop_first() =~= Seq::<u8>::empty());
        assert(pow(256, 0) == 1);
    }
}

/// Whether the number in `a` is at most the number in `b`, both 32
/// little-endian bytes.
fn le_bytes_at_most(a: &Hash32, b: &Hash32) -> (r: bool)
    ensures
        r == (le_unsigned(a@) <= le_unsigned(b@)),
{
    let mut i: usize = 32;
    assert(a@.subrange(0, 32) =~= a@);
    assert(b@.subrange(0, 32) =~= b@);
    while i > 0
        invariant
            0 <= i <= 32,
            (le_unsigned(a@) <= le_unsigned(b@)) == (le_unsigned(a@.subrange(0, i as int))
                <= le_unsigned(b@.subrange(0, i as int))),
        decreases i,
    {
        let ghost sa = a@.subrange(0, i as int);
        let ghost sb = b@.subrange(0, i as int);
        proof {
            lemma_le_unsigned_last(sa);
            lemma_le_unsigned_last(sb);
            assert(sa.drop_last() =~= a@.subrange(0, i - 1));
            assert(sb.drop_last() =~= b@.subrange(0, i - 1));
            lemma_le_unsigned_bound(sa.drop_last());
            lemma_le_unsigned_bound(sb.drop_last());
        }
        let x = a[i - 1];
        let y = b[i - 1];
        let ghost p = pow(256, (i - 1) as nat);
        let ghost la = le_unsigned(sa.drop_last());
        let ghost lb = le_unsigned(sb.drop_last());
        if x < y {
            assert(la + p * x < lb + p * y) by (nonlinear_arith)
                requires
                    0 <= la < p,
                    0 <= lb < p,
                    x < y,
            ;
            return true;
        }
        if x > y {
            assert(lb + p * y < la + p * x) by (nonlinear_arith)
                requires
                    0 <= la < p,
                    0 <= lb < p,
                    y < x,
            ;
            return false;
        }
        i = i - 1;
    }
    assert(a@.subrange(0, 0) =~= Seq::<u8>::empty());
    assert(b@.subrange(0, 0) =~= Seq::<u8>::empty());
    true
}

/// What the consensus rules read from the chain parameters.
#[derive(Clone, Copy, Debug)]
pub struct Consensus {
    pub parameters: ChainParams,
}

impl Consensus {
    /// The amount of block subsidy to be paid in a block at `height`.
    pub fn get_subsidy(&self, height: u32) -> (r: u64)
        requires
            self.parameters.subsidy_halving_interval > 0,
        ensures
            r == subsidy_at(self.parameters.subsidy_halving_interval as nat, height as nat),
    {
        let halvings = height as u64 / self.parameters.subsidy_halving_interval;
        // Force the reward to zero where the right shift is undefined.
        if halvings >= 64 {
            return 0;
        }
        let subsidy: u64 = 50 * COIN_VALUE;
        proof {
            lemma_u64_shr_is_div(subsidy, halvings);
        }
        subsidy >> halvings
    }

    /// Checks that `header` builds on `prev_block`: its previous-block hash is
    /// the hash of the parent.
    pub fn check_link(header: &BlockHeader, prev_block: &BlockHeader) -> (r: bool)
        ensures
            r == (header.prev_blockhash@ == block_hash_of(*prev_block)),
    {
        let parent = prev_block.block_hash();
        hash_eq(&header.prev_blockhash, &parent)
    }

    /// Whether `bits` encode a target that is neither negative, zero nor
    /// overflowing, and no easier than the limit `limit_bits`.
    pub fn check_target_range(bits: u32, limit_bits: u32) -> (r: bool)
        ensures
            r == target_in_range(bits, limit_bits),
    {
        let e = bits >> 24u32;
        let m = bits & 0x7F_FFFF;
        if m != 0 && (e > 34 || (m > 0xff && e > 33) || (m > 0xffff && e > 32)) {
            return false;
        }
        let target = target_from_bits(bits);
        let limit = target_from_bits(limit_bits);
        let zero: Hash32 = [0u8; 32];
        proof {
            assert(zero@ =~= Seq::new(32, |_i: int| 0u8));
            lemma_le_unsigned_zero(zero@);
            lemma_le_unsigned_bound(target@);
        }
        if le_bytes_at_most(&target, &zero) {
            return false;
        }
        le_bytes_at_most(&target, &limit)
    }

    /// Checks the proof of work: the header's hash is at most the target its
    /// `bits` encode.
    pub fn check_pow(header: &BlockHeader) -> (r: Result<(), BlockValidationErrors>)
        ensures
            r is Ok <==> pow_ok(*header),
            r is Err ==> r == Err::<(), BlockValidationErrors>(BlockValidationErrors::BadPoW),
    {
        let hash = header.block_hash();
        let target = target_from_bits(header.bits);
        if le_bytes_at_most(&hash, &target) {
            Ok(())
        } else {
            Err(BlockValidationErrors::BadPoW)
        }
    }

    /// Checks the anti-timewarp rule of BIP94: a block's time is at least its
    /// parent's time minus 600 seconds.
    pub fn check_bip94_time(block: &BlockHeader, prev_block: &BlockHeader) -> (r: Result<
        (),
        BlockValidationErrors,
    >)
        ensures
            r is Ok <==> bip94_time_ok(*block, *prev_block),
            r is Err ==> r == Err::<(), BlockValidationErrors>(BlockValidationErrors::BIP94TimeWarp),
    {
        if prev_block.time >= 600 && block.time < prev_block.time - 600 {
            return Err(BlockValidationErrors::BIP94TimeWarp);
        }
        Ok(())
    }

    /// The compact target of the next difficulty period, given the last and
    /// the first header of the period that ends.
    ///
    /// The period's length is clamped to between a quarter and four times the
    /// target timespan. With BIP94 the old target is that of the first block,
    /// else that of the last.
    pub fn calc_next_work_required(
        last_block: &BlockHeader,
        first_block: &BlockHeader,
        params: ChainParams,
    ) -> (r: u32)
        requires
            params.pow_target_timespan > 0,
            params.pow_target_timespan <= u64::MAX / 4,
        ensures
            r == next_work_of(
                if params.enforce_bip94 {
                    first_block.bits
                } else {
                    last_block.bits
                },
                clamped_timespan(last_block.time, first_block.time, params.pow_target_timespan) as u64,
                params.network,
            ),
    {
        let target = params.pow_target_timespan;
        let min = target / 4;
        let max = target * 4;
        // The span may be negative: clamp it in the integers.
        let timespan: u64 = if last_block.time < first_block.time {
            min
        } else {
            let actual = (last_block.time - first_block.time) as u64;
            if actual < min {
                min
            } else if actual > max {
                max
            } else {
                actual
            }
        };
        // BIP94: the base difficulty is taken from the first block of the
        // period, not from the last.
        let bits = if params.enforce_bip94 {
            first_block.bits
        } else {
            last_block.bits
        };
        next_work_required(bits, timespan, params.network)
    }
}

} // verus!
