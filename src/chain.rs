//! The chain state: the best header chain, how far blocks have been
//! validated along it, and the accumulator at that point.
use vstd::prelude::*;
use vstd::relations::total_ordering;

use crate::accumulator::{
    adds_of, deletion_in_range, has_unspendable, modify_of, spent_leaf_hashes, spent_leaves,
    views_of, Proof, Stump,
};
use crate::block_validation::block_outcome;
use crate::consensus::{
    bip94_time_ok, clamped_timespan, next_work_of, pow_ok, target_in_range, Consensus,
};
use crate::params::Network;
use crate::encode::block_hash_of;
use crate::tx_validation::UtxoSet;
use crate::types::{hash_eq, Block, BlockHeader, BlockValidationErrors, Hash32};

verus! {

/// The best header chain from genesis, the height up to which its blocks
/// have been validated, and the accumulator after that block.
pub struct ChainState {
    consensus: Consensus,
    headers: Vec<BlockHeader>,
    validation_height: u32,
    acc: Stump,
}

/// The target of the last header at or below index `k` that is not an
/// easiest-target block between two retargets.
pub open spec fn last_regular_bits(headers: Seq<BlockHeader>, k: int, interval: int, limit: u32) -> u32
    decreases k,
{
    if k > 0 && k % interval != 0 && headers[k].bits == limit {
        last_regular_bits(headers, k - 1, interval, limit)
    } else {
        headers[k].bits
    }
}

/// Whether `header`, at the height after the tip of `headers`, carries the
/// target that the schedule asks for. Regtest never retargets. Elsewhere the
/// first block of each period takes the retargeted value; in between, the
/// target stays that of the parent, except on networks with easiest-target
/// blocks: there a block more than twenty minutes after its parent takes the
/// easiest target, and any other the target of the last block that did not.
pub open spec fn bits_ok(consensus: Consensus, headers: Seq<BlockHeader>, header: BlockHeader) -> bool {
    let params = consensus.parameters;
    let h = headers.len() as int;
    let tip = headers.last();
    let interval = params.difficulty_adjustment_interval as int;
    if params.network == Network::Regtest {
        header.bits == tip.bits
    } else if h % interval == 0 {
        let first = headers[h - interval];
        let base = if params.enforce_bip94 {
            first.bits
        } else {
            tip.bits
        };
        header.bits == next_work_of(
            base,
            clamped_timespan(tip.time, first.time, params.pow_target_timespan) as u64,
            params.network,
        )
    } else if params.allow_min_difficulty_blocks {
        if header.time as int > tip.time as int + 1200 {
            header.bits == params.pow_limit_bits
        } else {
            header.bits == last_regular_bits(headers, h - 1, interval, params.pow_limit_bits)
        }
    } else {
        header.bits == tip.bits
    }
}

/// The order of timestamps.
pub open spec fn time_leq() -> spec_fn(u32, u32) -> bool {
    |a: u32, b: u32| a <= b
}

/// The times of the last eleven headers, or of all where there are fewer.
pub open spec fn recent_times(headers: Seq<BlockHeader>) -> Seq<u32> {
    let k = if headers.len() < 11 {
        headers.len()
    } else {
        11
    };
    Seq::new(k, |i: int| headers[headers.len() - k + i].time)
}

/// The median of the times of the last eleven headers.
pub open spec fn median_time_past(headers: Seq<BlockHeader>) -> u32 {
    let sorted = recent_times(headers).sort_by(time_leq());
    sorted[sorted.len() as int / 2]
}

/// Seconds that the median time past may lag the wall clock once the node
/// has caught up.
pub const MAX_TIP_AGE: u64 = 24 * 60 * 60;

proof fn lemma_time_leq_total()
    ensures
        total_ordering(time_leq()),
{
    let leq = time_leq();
    assert(vstd::relations::reflexive(leq));
    assert(vstd::relations::antisymmetric(leq));
    assert(vstd::relations::transitive(leq));
    assert(vstd::relations::strongly_connected(leq));
}

/// Relies on `slice::sort`: the times in ascending order, which for
/// integers is the one sorted arrangement of them.
#[verifier::external_body]
fn sort_times(v: &mut Vec<u32>)
    ensures
        final(v)@ == old(v)@.sort_by(time_leq()),
{
    v.sort();
}

/// The outcome of offering `header` on top of the chain `headers`.
pub open spec fn header_outcome(consensus: Consensus, headers: Seq<BlockHeader>, header: BlockHeader) -> Result<
    (),
    BlockValidationErrors,
> {
    if header.prev_blockhash@ != block_hash_of(headers.last()) {
        Err(BlockValidationErrors::PrevBlockNotFound)
    } else if !target_in_range(header.bits, consensus.parameters.pow_limit_bits) || !pow_ok(header) {
        Err(BlockValidationErrors::BadPoW)
    } else if !bits_ok(consensus, headers, header) {
        Err(BlockValidationErrors::BadDifficultyBits)
    } else if consensus.parameters.enforce_bip94 && !bip94_time_ok(header, headers.last()) {
        Err(BlockValidationErrors::BIP94TimeWarp)
    } else {
        Ok(())
    }
}

impl ChainState {
    /// The rules the chain follows.
    pub closed spec fn rules(&self) -> Consensus {
        self.consensus
    }

    /// The headers of the best chain; the one at index `h` has height `h`.
    pub closed spec fn headers(&self) -> Seq<BlockHeader> {
        self.headers@
    }

    /// The height of the last validated block.
    pub closed spec fn validated(&self) -> u32 {
        self.validation_height
    }

    /// The accumulator after the last validated block.
    pub closed spec fn accumulator(&self) -> Stump {
        self.acc
    }

    /// Headers start at genesis, validation is not ahead of them, and
    /// heights fit in 32 bits.
    pub closed spec fn wf(&self) -> bool {
        &&& self.headers@.len() >= 1
        &&& self.validation_height < self.headers@.len()
        &&& self.headers@.len() <= u32::MAX
        &&& self.consensus.parameters.wf()
    }

    /// A chain holding only `genesis`, validated, with an empty accumulator.
    pub fn new(consensus: Consensus, genesis: BlockHeader) -> (r: ChainState)
        requires
            consensus.parameters.wf(),
        ensures
            r.wf(),
            r.rules() == consensus,
            r.headers() == seq![genesis],
            r.validated() == 0,
            r.accumulator().leaves == 0,
            r.accumulator().roots@.len() == 0,
    {
        let mut headers: Vec<BlockHeader> = Vec::new();
        headers.push(genesis);
        ChainState { consensus, headers, validation_height: 0, acc: Stump::new() }
    }

    /// Extends the best chain by `header` and returns its height, once it
    /// links to the tip, meets its target and, where BIP94 holds, its time
    /// rule. Refused headers leave the chain as it was.
    pub fn accept_header(&mut self, header: BlockHeader) -> (r: Result<u32, BlockValidationErrors>)
        requires
            old(self).wf(),
        ensures
            final(self).wf(),
            final(self).rules() == old(self).rules(),
            final(self).validated() == old(self).validated(),
            final(self).accumulator() == old(self).accumulator(),
            match header_outcome(old(self).rules(), old(self).headers(), header) {
                Ok(()) => if old(self).headers().len() < u32::MAX {
                    r == Ok::<u32, BlockValidationErrors>(old(self).headers().len() as u32)
                        && final(self).headers() == old(self).headers().push(header)
                } else {
                    r == Err::<u32, BlockValidationErrors>(BlockValidationErrors::TooManyHeaders)
                },
                Err(e) => r == Err::<u32, BlockValidationErrors>(e) && final(self).headers() == old(self).headers(),
            },
            r is Err ==> final(self).headers() == old(self).headers(),
    {
        let tip = self.headers[self.headers.len() - 1];
        if !Consensus::check_link(&header, &tip) {
            return Err(BlockValidationErrors::PrevBlockNotFound);
        }
        if !Consensus::check_target_range(header.bits, self.consensus.parameters.pow_limit_bits) {
            return Err(BlockValidationErrors::BadPoW);
        }
        match Consensus::check_pow(&header) {
            Err(e) => {
                return Err(e);
            },
            Ok(()) => {},
        }
        if !self.bits_follow_schedule(&header) {
            return Err(BlockValidationErrors::BadDifficultyBits);
        }
        if self.consensus.parameters.enforce_bip94 {
            match Consensus::check_bip94_time(&header, &tip) {
                Err(e) => {
                    return Err(e);
                },
                Ok(()) => {},
            }
        }
        if self.headers.len() >= u32::MAX as usize {
            // No height is left for another header.
            return Err(BlockValidationErrors::TooManyHeaders);
        }
        let height = self.headers.len() as u32;
        self.headers.push(header);
        Ok(height)
    }

    /// Validates `block` as the next block of the best chain, spending the
    /// outputs that `spent` records, and applies it to the accumulator: the
    /// leaves of those outputs, proved by `proof`, are deleted and the block's
    /// new outputs added. Spent outputs that do not match the accumulator fail
    /// the proof. Only a block that passes every check advances the validated
    /// height; any failure leaves the state as it was.
    pub fn connect_block(&mut self, block: &Block, proof: Proof, spent: UtxoSet) -> (r: Result<
        (),
        BlockValidationErrors,
    >)
        requires
            old(self).wf(),
            spent.wf(),
        ensures
            final(self).wf(),
            final(self).rules() == old(self).rules(),
            final(self).headers() == old(self).headers(),
            r is Err ==> final(self).validated() == old(self).validated() && final(self).accumulator()
                == old(self).accumulator(),
            ({
                let h = old(self).validated() + 1;
                if h >= old(self).headers().len() || block_hash_of(block.header) != block_hash_of(
                    old(self).headers()[h],
                ) {
                    r == Err::<(), BlockValidationErrors>(BlockValidationErrors::UnknownBlock)
                } else if block_outcome(old(self).rules().parameters, *block, h as u32, spent.entries()) is Err {
                    r == block_outcome(old(self).rules().parameters, *block, h as u32, spent.entries())
                } else {
                    exists|dels: Seq<Hash32>|
                        views_of(dels) == spent_leaves(spent.entries()) && (if has_unspendable(dels) {
                            r == Err::<(), BlockValidationErrors>(BlockValidationErrors::UnspendableUTXO)
                        } else if !deletion_in_range(old(self).accumulator(), dels) {
                            r == Err::<(), BlockValidationErrors>(BlockValidationErrors::BadAccumulatorProof)
                        } else {
                            exists|adds: Seq<Hash32>|
                                views_of(adds) == adds_of(*block, h as u32) && match modify_of(
                                    old(self).accumulator(),
                                    adds,
                                    dels,
                                    proof,
                                ) {
                                    Some(s) => r == Ok::<(), BlockValidationErrors>(())
                                        && final(self).accumulator() == s && final(self).validated() == h
                                        && s.leaves == old(self).accumulator().leaves + adds_of(
                                        *block,
                                        h as u32,
                                    ).len(),
                                    None => r == Err::<(), BlockValidationErrors>(
                                        BlockValidationErrors::BadAccumulatorProof,
                                    ),
                                }
                        })
                }
            }),
    {
        let next = self.validation_height as usize + 1;
        if next >= self.headers.len() {
            return Err(BlockValidationErrors::UnknownBlock);
        }
        let expected = self.headers[next].block_hash();
        let offered = block.header.block_hash();
        if !hash_eq(&offered, &expected) {
            return Err(BlockValidationErrors::UnknownBlock);
        }
        let height = next as u32;
        // The leaves of the spent outputs are what the block deletes.
        let del_hashes = spent_leaf_hashes(&spent);
        let ghost dels = del_hashes@;
        match self.consensus.validate_block_no_acc(block, height, spent, false) {
            Err(e) => {
                return Err(e);
            },
            Ok(()) => {},
        }
        let result = Consensus::update_acc(&self.acc, block, height, proof, del_hashes);
        let r = match result {
            Err(e) => Err(e),
            Ok(acc) => {
                self.acc = acc;
                self.validation_height = height;
                Ok(())
            },
        };
        r
    }

    fn bits_follow_schedule(&self, header: &BlockHeader) -> (r: bool)
        requires
            self.wf(),
        ensures
            r == bits_ok(self.rules(), self.headers(), *header),
    {
        let params = self.consensus.parameters;
        let h = self.headers.len();
        let tip = self.headers[h - 1];
        let interval = params.difficulty_adjustment_interval;
        if params.network == Network::Regtest {
            return header.bits == tip.bits;
        }
        if (h as u64) % interval == 0 {
            assert(h as int >= interval as int) by (nonlinear_arith)
                requires
                    h as int > 0,
                    interval as int > 0,
                    (h as int) % (interval as int) == 0,
            ;
            let first = self.headers[h - interval as usize];
            return header.bits == Consensus::calc_next_work_required(&tip, &first, params);
        }
        if !params.allow_min_difficulty_blocks {
            return header.bits == tip.bits;
        }
        if header.time as u64 > tip.time as u64 + 1200 {
            return header.bits == params.pow_limit_bits;
        }
        // Walk back over easiest-target blocks to the last regular one.
        let mut k: usize = h - 1;
        while k > 0 && (k as u64) % interval != 0 && self.headers[k].bits == params.pow_limit_bits
            invariant
                0 <= k < h,
                h == self.headers@.len(),
                interval == params.difficulty_adjustment_interval,
                interval > 0,
                params == self.consensus.parameters,
                last_regular_bits(self.headers@, k as int, interval as int, params.pow_limit_bits)
                    == last_regular_bits(self.headers@, h - 1, interval as int, params.pow_limit_bits),
            decreases k,
        {
            k = k - 1;
        }
        header.bits == self.headers[k].bits
    }

    /// The median of the times of the last eleven headers of the best chain.
    pub fn median_time_past(&self) -> (r: u32)
        requires
            self.wf(),
        ensures
            r == median_time_past(self.headers()),
    {
        let n = self.headers.len();
        let k: usize = if n < 11 {
            n
        } else {
            11
        };
        let mut times: Vec<u32> = Vec::new();
        let mut i: usize = n - k;
        while i < n
            invariant
                n == self.headers@.len(),
                k == (if n < 11 { n } else { 11 }),
                n - k <= i <= n,
                times@ == Seq::new((i - (n - k)) as nat, |j: int| self.headers@[n - k + j].time),
            decreases n - i,
        {
            times.push(self.headers[i].time);
            i = i + 1;
            assert(times@ =~= Seq::new((i - (n - k)) as nat, |j: int| self.headers@[n - k + j].time));
        }
        assert(times@ =~= recent_times(self.headers@));
        sort_times(&mut times);
        proof {
            lemma_time_leq_total();
            recent_times(self.headers@).lemma_sort_by_ensures(time_leq());
            recent_times(self.headers@).to_multiset_ensures();
            times@.to_multiset_ensures();
        }
        times[times.len() / 2]
    }

    /// Whether the node is still catching up at wall-clock time `now`: blocks
    /// are validated short of the best header, or the median time past lags
    /// `now` by more than a day.
    pub fn is_in_ibd(&self, now: u64) -> (r: bool)
        requires
            self.wf(),
        ensures
            r == (self.validated() < self.headers().len() - 1 || median_time_past(self.headers()) as int
                + MAX_TIP_AGE < now as int),
    {
        if (self.validation_height as usize) < self.headers.len() - 1 {
            return true;
        }
        let mtp = self.median_time_past() as u64;
        mtp + MAX_TIP_AGE < now
    }

    /// The height and hash of the tip of the best chain.
    pub fn get_best_block(&self) -> (r: (u32, Hash32))
        requires
            self.wf(),
        ensures
            r.0 == self.headers().len() - 1,
            r.1@ == block_hash_of(self.headers().last()),
    {
        let n = self.headers.len() - 1;
        (n as u32, self.headers[n].block_hash())
    }

    /// The hash of the best chain's block at `height`, if there is one.
    pub fn get_block_hash(&self, height: u32) -> (r: Option<Hash32>)
        requires
            self.wf(),
        ensures
            match r {
                Some(h) => height < self.headers().len() && h@ == block_hash_of(self.headers()[height as int]),
                None => height >= self.headers().len(),
            },
    {
        if height as usize >= self.headers.len() {
            return None;
        }
        Some(self.headers[height as usize].block_hash())
    }

    /// The header of the best chain whose hash is `hash`, if there is one.
    pub fn get_header(&self, hash: &Hash32) -> (r: Option<BlockHeader>)
        requires
            self.wf(),
        ensures
            match r {
                Some(h) => block_hash_of(h) == hash@ && exists|i: int|
                    0 <= i < self.headers().len() && self.headers()[i] == h,
                None => forall|i: int|
                    0 <= i < self.headers().len() ==> block_hash_of(#[trigger] self.headers()[i]) != hash@,
            },
    {
        let mut i: usize = 0;
        while i < self.headers.len()
            invariant
                0 <= i <= self.headers@.len(),
                forall|k: int| 0 <= k < i ==> block_hash_of(#[trigger] self.headers@[k]) != hash@,
            decreases self.headers@.len() - i,
        {
            let h = self.headers[i];
            if hash_eq(&h.block_hash(), hash) {
                assert(self.headers()[i as int] == h);
                return Some(h);
            }
            i = i + 1;
        }
        None
    }

    /// The header at `height` of the best chain, if there is one.
    pub fn get_header_by_height(&self, height: u32) -> (r: Option<BlockHeader>)
        requires
            self.wf(),
        ensures
            match r {
                Some(h) => height < self.headers().len() && h == self.headers()[height as int],
                None => height >= self.headers().len(),
            },
    {
        if height as usize >= self.headers.len() {
            return None;
        }
        Some(self.headers[height as usize])
    }

    /// The height of the last validated block.
    pub fn get_validation_index(&self) -> (r: u32)
        ensures
            r == self.validated(),
    {
        self.validation_height
    }

    /// The accumulator after the last validated block.
    pub fn accumulator_state(&self) -> (r: &Stump)
        ensures
            *r == self.accumulator(),
    {
        &self.acc
    }
}

} // verus!
