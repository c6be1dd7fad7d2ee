//! Rules that each transaction of a block must follow.
use vstd::prelude::*;

use crate::consensus::Consensus;

use crate::encode::base_size_of;
use crate::params::{COINBASE_MATURITY, MAX_MONEY};
use crate::types::{is_coinbase_spec, same_outpoint, BlockValidationErrors, OutPoint, Transaction, TxIn, TxOut, UtxoData};

verus! {

/// The most weight a transaction's encoding without witnesses may have:
/// that of a whole block.
pub const MAX_TX_WEIGHT: u64 = 4_000_000;

/// The outputs a block may spend, with what is known of each.
///
/// A lookup finds the first entry for an outpoint; `insert` keeps one entry
/// per outpoint.
#[derive(Clone, Debug)]
pub struct UtxoSet {
    entries: Vec<(OutPoint, UtxoData)>,
}

/// Index of the first entry of `s` for outpoint `o`.
pub open spec fn find_utxo(s: Seq<(OutPoint, UtxoData)>, o: OutPoint) -> Option<int>
    decreases s.len(),
{
    if s.len() == 0 {
        None
    } else if same_outpoint(s[0].0, o) {
        Some(0)
    } else {
        match find_utxo(s.drop_first(), o) {
            Some(i) => Some(i + 1),
            None => None,
        }
    }
}

proof fn lemma_find_utxo(s: Seq<(OutPoint, UtxoData)>, o: OutPoint, i: int)
    requires
        0 <= i <= s.len(),
        forall|j: int| 0 <= j < i ==> !same_outpoint(#[trigger] s[j].0, o),
        i < s.len() ==> same_outpoint(s[i].0, o),
    ensures
        find_utxo(s, o) == (if i < s.len() { Some(i) } else { None::<int> }),
    decreases s.len(),
{
    if s.len() > 0 && i > 0 {
        assert(!same_outpoint(s[0].0, o));
        let t = s.drop_first();
        assert forall|j: int| 0 <= j < i - 1 implies !same_outpoint(#[trigger] t[j].0, o) by {
            assert(t[j] == s[j + 1]);
        }
        if i < s.len() {
            assert(t[i - 1] == s[i]);
        }
        lemma_find_utxo(t, o, i - 1);
    }
}

proof fn lemma_find_utxo_bounds(s: Seq<(OutPoint, UtxoData)>, o: OutPoint)
    ensures
        match find_utxo(s, o) {
            Some(i) => 0 <= i < s.len() && same_outpoint(s[i].0, o),
            None => true,
        },
    decreases s.len(),
{
    if s.len() > 0 && !same_outpoint(s[0].0, o) {
        lemma_find_utxo_bounds(s.drop_first(), o);
    }
}

/// No two entries of `s` are for the same outpoint.
pub open spec fn unique_outpoints(s: Seq<(OutPoint, UtxoData)>) -> bool {
    forall|i: int, j: int|
        0 <= i < j < s.len() ==> !same_outpoint(#[trigger] s[i].0, #[trigger] s[j].0)
}

proof fn lemma_find_utxo_none(s: Seq<(OutPoint, UtxoData)>, o: OutPoint)
    requires
        find_utxo(s, o) is None,
    ensures
        forall|k: int| 0 <= k < s.len() ==> !same_outpoint(#[trigger] s[k].0, o),
    decreases s.len(),
{
    if s.len() > 0 {
        lemma_find_utxo_none(s.drop_first(), o);
        assert forall|k: int| 0 <= k < s.len() implies !same_outpoint(#[trigger] s[k].0, o) by {
            if k > 0 {
                assert(s[k] == s.drop_first()[k - 1]);
            }
        }
    }
}

/// Removing an entry keeps the outpoints unique.
pub proof fn lemma_remove_keeps_unique(s: Seq<(OutPoint, UtxoData)>, i: int)
    requires
        unique_outpoints(s),
        0 <= i < s.len(),
    ensures
        unique_outpoints(s.remove(i)),
{
    let t = s.remove(i);
    assert forall|a: int, b: int| 0 <= a < b < t.len() implies !same_outpoint(
        #[trigger] t[a].0,
        #[trigger] t[b].0,
    ) by {
        let a2 = if a < i { a } else { a + 1 };
        let b2 = if b < i { b } else { b + 1 };
        assert(t[a] == s[a2] && t[b] == s[b2]);
    }
}

/// Once the entry for an outpoint is spent from a table with unique
/// outpoints, the outpoint is no longer found: a second spend of it fails.
pub proof fn lemma_spent_outpoint_gone(s: Seq<(OutPoint, UtxoData)>, o: OutPoint)
    requires
        unique_outpoints(s),
        find_utxo(s, o) is Some,
    ensures
        find_utxo(s.remove(find_utxo(s, o).unwrap()), o) is None,
{
    lemma_find_utxo_bounds(s, o);
    let i = find_utxo(s, o).unwrap();
    let t = s.remove(i);
    assert forall|k: int| 0 <= k < t.len() implies !same_outpoint(#[trigger] t[k].0, o) by {
        let k2 = if k < i { k } else { k + 1 };
        assert(t[k] == s[k2]);
        if k2 < i {
            assert(!same_outpoint(s[k2].0, s[i].0));
        } else {
            assert(!same_outpoint(s[i].0, s[k2].0));
        }
    }
    lemma_find_utxo(t, o, t.len() as int);
}

impl UtxoSet {
    /// Each outpoint has at most one entry.
    pub closed spec fn wf(&self) -> bool {
        unique_outpoints(self.entries@)
    }

    /// The entries, in the order lookups visit them.
    pub closed spec fn entries(&self) -> Seq<(OutPoint, UtxoData)> {
        self.entries@
    }

    /// An empty set.
    pub fn new() -> (r: UtxoSet)
        ensures
            r.entries() == Seq::<(OutPoint, UtxoData)>::empty(),
            r.wf(),
    {
        UtxoSet { entries: Vec::new() }
    }

    /// Position of the first entry for `o`.
    fn position(&self, o: &OutPoint) -> (r: Option<usize>)
        ensures
            match r {
                Some(p) => find_utxo(self.entries(), *o) == Some(p as int) && p < self.entries().len(),
                None => find_utxo(self.entries(), *o) is None,
            },
    {
        let mut i: usize = 0;
        while i < self.entries.len()
            invariant
                0 <= i <= self.entries@.len(),
                forall|j: int| 0 <= j < i ==> !same_outpoint(#[trigger] self.entries@[j].0, *o),
            decreases self.entries@.len() - i,
        {
            if self.entries[i].0.same_as(o) {
                proof {
                    lemma_find_utxo(self.entries@, *o, i as int);
                }
                return Some(i);
            }
            i = i + 1;
        }
        proof {
            lemma_find_utxo(self.entries@, *o, i as int);
        }
        None
    }

    /// Records `data` for `o`, in place of what was recorded for it before.
    pub fn insert(&mut self, o: OutPoint, data: UtxoData)
        ensures
            match find_utxo(old(self).entries(), o) {
                Some(i) => final(self).entries() == old(self).entries().update(i, (o, data)),
                None => final(self).entries() == old(self).entries().push((o, data)),
            },
            old(self).wf() ==> final(self).wf(),
    {
        match self.position(&o) {
            Some(i) => {
                proof {
                    lemma_find_utxo_bounds(self.entries@, o);
                }
                let ghost before = self.entries@;
                self.entries.set(i, (o, data));
                proof {
                    if unique_outpoints(before) {
                        assert forall|a: int, b: int| 0 <= a < b < self.entries@.len() implies !same_outpoint(
                            #[trigger] self.entries@[a].0,
                            #[trigger] self.entries@[b].0,
                        ) by {
                            if a == i {
                                assert(!same_outpoint(before[i as int].0, before[b].0));
                            } else if b == i {
                                assert(!same_outpoint(before[a].0, before[i as int].0));
                            } else {
                                assert(!same_outpoint(before[a].0, before[b].0));
                            }
                        }
                    }
                }
            },
            None => {
                proof {
                    lemma_find_utxo_none(self.entries@, o);
                }
                self.entries.push((o, data));
                proof {
                    assert forall|a: int, b: int| 0 <= a < b < self.entries@.len() && old(self).wf() implies !same_outpoint(
                        #[trigger] self.entries@[a].0,
                        #[trigger] self.entries@[b].0,
                    ) by {
                        if b == self.entries@.len() - 1 {
                            assert(!same_outpoint(old(self).entries@[a].0, o));
                        } else {
                            assert(!same_outpoint(old(self).entries@[a].0, old(self).entries@[b].0));
                        }
                    }
                }
            },
        }
    }

    /// The entry at index `i`.
    pub fn entry(&self, i: usize) -> (r: &(OutPoint, UtxoData))
        requires
            i < self.entries().len(),
        ensures
            *r == self.entries()[i as int],
    {
        &self.entries[i]
    }

    /// The number of entries.
    pub fn len(&self) -> (r: usize)
        ensures
            r == self.entries().len(),
    {
        self.entries.len()
    }
}

/// Two inputs of `inputs` spend the same outpoint.
pub open spec fn has_duplicate_inputs(inputs: Seq<TxIn>) -> bool {
    exists|i: int, j: int|
        0 <= i < j < inputs.len() && same_outpoint(
            #[trigger] inputs[i].previous_output,
            #[trigger] inputs[j].previous_output,
        )
}

/// Sum of the values of `outs`.
pub open spec fn total_value(outs: Seq<TxOut>) -> int
    decreases outs.len(),
{
    if outs.len() == 0 {
        0
    } else {
        total_value(outs.drop_last()) + outs.last().value
    }
}

/// Whether `u` is a coinbase output still too young to spend at `height`.
pub open spec fn immature(u: UtxoData, height: u32) -> bool {
    u.is_coinbase && (height as int) - (u.creation_height as int) < COINBASE_MATURITY as int
}

/// Spends the first `n` inputs in order: the running sum of their values and
/// what is left of the table, or the first failure.
pub open spec fn spend_inputs(
    table: Seq<(OutPoint, UtxoData)>,
    inputs: Seq<TxIn>,
    height: u32,
    n: nat,
) -> Result<(int, Seq<(OutPoint, UtxoData)>), BlockValidationErrors>
    decreases n,
{
    if n == 0 {
        Ok((0, table))
    } else {
        match spend_inputs(table, inputs, height, (n - 1) as nat) {
            Err(e) => Err(e),
            Ok((sum, t)) => match find_utxo(t, inputs[n - 1].previous_output) {
                None => Err(BlockValidationErrors::UtxoNotFound),
                Some(i) => {
                    let u = t[i].1;
                    if immature(u, height) {
                        Err(BlockValidationErrors::PrematureCoinbaseSpend)
                    } else if sum + u.txout.value > MAX_MONEY {
                        Err(BlockValidationErrors::AmountOverflow)
                    } else {
                        Ok((sum + u.txout.value, t.remove(i)))
                    }
                },
            },
        }
    }
}

/// The outcome of validating a non-coinbase transaction against `table` at
/// `height`: its input and output totals and the table without the spent
/// entries, or the first rule broken.
pub open spec fn tx_outcome(table: Seq<(OutPoint, UtxoData)>, tx: Transaction, height: u32) -> Result<
    (int, int, Seq<(OutPoint, UtxoData)>),
    BlockValidationErrors,
> {
    if tx.input@.len() == 0 {
        Err(BlockValidationErrors::EmptyInputs)
    } else if tx.output@.len() == 0 {
        Err(BlockValidationErrors::EmptyOutputs)
    } else if 4 * base_size_of(tx) > MAX_TX_WEIGHT {
        Err(BlockValidationErrors::TransactionTooBig)
    } else if has_duplicate_inputs(tx.input@) {
        Err(BlockValidationErrors::DuplicateInput)
    } else {
        match spend_inputs(table, tx.input@, height, tx.input@.len()) {
            Err(e) => Err(e),
            Ok((in_value, t)) => {
                let out_value = total_value(tx.output@);
                if out_value > MAX_MONEY {
                    Err(BlockValidationErrors::AmountOverflow)
                } else if in_value < out_value {
                    Err(BlockValidationErrors::NegativeFee)
                } else {
                    Ok((in_value, out_value, t))
                }
            },
        }
    }
}

/// The outcome of checking the coinbase itself.
pub open spec fn coinbase_outcome(tx: Transaction) -> Result<(), BlockValidationErrors> {
    if !is_coinbase_spec(tx) {
        Err(BlockValidationErrors::InvalidCoinbase)
    } else if tx.input@[0].script_sig@.len() < 2 || tx.input@[0].script_sig@.len() > 100 {
        Err(BlockValidationErrors::InvalidCoinbase)
    } else {
        Ok(())
    }
}

/// A sum of output values is never negative.
pub proof fn lemma_total_value_nonneg(outs: Seq<TxOut>)
    ensures
        total_value(outs) >= 0,
    decreases outs.len(),
{
    if outs.len() > 0 {
        lemma_total_value_nonneg(outs.drop_last());
    }
}

proof fn lemma_total_value_monotone(outs: Seq<TxOut>, n: int)
    requires
        0 <= n <= outs.len(),
    ensures
        0 <= total_value(outs.subrange(0, n)) <= total_value(outs),
    decreases outs.len(),
{
    if outs.len() > 0 {
        if n == outs.len() {
            assert(outs.subrange(0, n) =~= outs);
            lemma_total_value_monotone(outs.drop_last(), outs.len() - 1);
        } else {
            assert(outs.subrange(0, n) =~= outs.drop_last().subrange(0, n));
            lemma_total_value_monotone(outs.drop_last(), n);
        }
    }
}

/// Sum of the output values, or `None` where it exceeds `MAX_MONEY`.
pub fn sum_outputs(outs: &Vec<TxOut>) -> (r: Option<u64>)
    ensures
        match r {
            Some(v) => v == total_value(outs@) && v <= MAX_MONEY,
            None => total_value(outs@) > MAX_MONEY,
        },
{
    let mut sum: u64 = 0;
    let mut i: usize = 0;
    while i < outs.len()
        invariant
            0 <= i <= outs@.len(),
            sum == total_value(outs@.subrange(0, i as int)),
            sum <= MAX_MONEY,
        decreases outs@.len() - i,
    {
        assert(outs@.subrange(0, i + 1).drop_last() =~= outs@.subrange(0, i as int));
        if outs[i].value > MAX_MONEY - sum {
            proof {
                lemma_total_value_monotone(outs@, i + 1);
            }
            return None;
        }
        sum = sum + outs[i].value;
        i = i + 1;
    }
    assert(outs@.subrange(0, i as int) =~= outs@);
    Some(sum)
}

fn has_duplicates(inputs: &Vec<TxIn>) -> (r: bool)
    ensures
        r == has_duplicate_inputs(inputs@),
{
    let mut i: usize = 0;
    while i < inputs.len()
        invariant
            0 <= i <= inputs@.len(),
            forall|a: int, b: int|
                0 <= a < i && a < b < inputs@.len() ==> !same_outpoint(
                    #[trigger] inputs@[a].previous_output,
                    #[trigger] inputs@[b].previous_output,
                ),
        decreases inputs@.len() - i,
    {
        let mut j: usize = i + 1;
        while j < inputs.len()
            invariant
                0 <= i < inputs@.len(),
                i + 1 <= j <= inputs@.len(),
                forall|a: int, b: int|
                    0 <= a < i && a < b < inputs@.len() ==> !same_outpoint(
                        #[trigger] inputs@[a].previous_output,
                        #[trigger] inputs@[b].previous_output,
                    ),
                forall|b: int|
                    i < b < j ==> !same_outpoint(
                        inputs@[i as int].previous_output,
                        #[trigger] inputs@[b].previous_output,
                    ),
            decreases inputs@.len() - j,
        {
            if inputs[i].previous_output.same_as(&inputs[j].previous_output) {
                return true;
            }
            j = j + 1;
        }
        i = i + 1;
    }
    false
}

impl Consensus {
    /// Checks the coinbase transaction: one input spending the null outpoint,
    /// with a `script_sig` of 2 to 100 bytes.
    pub fn verify_coinbase(transaction: &Transaction) -> (r: Result<(), BlockValidationErrors>)
        ensures
            r == coinbase_outcome(*transaction),
    {
        if !transaction.is_coinbase() {
            return Err(BlockValidationErrors::InvalidCoinbase);
        }
        let len = transaction.input[0].script_sig.len();
        if len < 2 || len > 100 {
            return Err(BlockValidationErrors::InvalidCoinbase);
        }
        Ok(())
    }

    /// Validates a non-coinbase transaction, spending its inputs from `utxos`,
    /// and returns its input and output totals.
    ///
    /// Scripts are not executed: no script interpreter is linked, so
    /// `verify_script` and `flags` do not change the outcome.
    pub fn verify_transaction(
        transaction: &Transaction,
        utxos: &mut UtxoSet,
        height: u32,
        verify_script: bool,
        flags: u32,
    ) -> (r: Result<(u64, u64), BlockValidationErrors>)
        ensures
            match tx_outcome(old(utxos).entries(), *transaction, height) {
                Ok((i, o, t)) => r == Ok::<(u64, u64), BlockValidationErrors>((i as u64, o as u64))
                    && final(utxos).entries() == t && 0 <= o <= i <= MAX_MONEY,
                Err(e) => r == Err::<(u64, u64), BlockValidationErrors>(e),
            },
            r is Ok && old(utxos).wf() ==> final(utxos).wf(),
    {
        if transaction.input.len() == 0 {
            return Err(BlockValidationErrors::EmptyInputs);
        }
        if transaction.output.len() == 0 {
            return Err(BlockValidationErrors::EmptyOutputs);
        }
        // Without its witnesses, a transaction must fit in a block.
        if transaction.base_size() > (MAX_TX_WEIGHT / 4) as usize {
            return Err(BlockValidationErrors::TransactionTooBig);
        }
        if has_duplicates(&transaction.input) {
            return Err(BlockValidationErrors::DuplicateInput);
        }
        let ghost table = utxos.entries();
        let mut in_value: u64 = 0;
        let mut i: usize = 0;
        while i < transaction.input.len()
            invariant
                0 <= i <= transaction.input@.len(),
                spend_inputs(table, transaction.input@, height, i as nat) == Ok::<
                    (int, Seq<(OutPoint, UtxoData)>),
                    BlockValidationErrors,
                >((in_value as int, utxos.entries())),
                in_value <= MAX_MONEY,
                transaction.input@.len() > 0,
                transaction.output@.len() > 0,
                !has_duplicate_inputs(transaction.input@),
                4 * base_size_of(*transaction) <= MAX_TX_WEIGHT,
                table == old(utxos).entries(),
                old(utxos).wf() ==> utxos.wf(),
            decreases transaction.input@.len() - i,
        {
            let prev = &transaction.input[i].previous_output;
            let pos = utxos.position(prev);
            match pos {
                None => {
                    assert(spend_inputs(table, transaction.input@, height, (i + 1) as nat)
                        == Err::<(int, Seq<(OutPoint, UtxoData)>), BlockValidationErrors>(
                        BlockValidationErrors::UtxoNotFound));
                    proof {
                        lemma_spend_inputs_stops(table, transaction.input@, height, (i + 1) as nat);
                    }
                    return Err(BlockValidationErrors::UtxoNotFound);
                },
                Some(p) => {
                    proof {
                        lemma_find_utxo_bounds(utxos.entries@, *prev);
                    }
                    let ghost before = utxos.entries@;
                    proof {
                    if unique_outpoints(before) {
                        lemma_remove_keeps_unique(before, p as int);
                    }
                }
                let (_, utxo) = utxos.entries.remove(p);
                    assert(utxo == before[p as int].1);
                    assert(find_utxo(before, *prev) == Some(p as int));
                    assert(spend_inputs(table, transaction.input@, height, (i + 1) as nat) == (if immature(utxo, height) {
                        Err(BlockValidationErrors::PrematureCoinbaseSpend)
                    } else if in_value + utxo.txout.value > MAX_MONEY {
                        Err(BlockValidationErrors::AmountOverflow)
                    } else {
                        Ok((in_value + utxo.txout.value, utxos.entries()))
                    }));
                    if utxo.is_coinbase && (height < utxo.creation_height || height
                        - utxo.creation_height < COINBASE_MATURITY) {
                        proof {
                            lemma_spend_inputs_stops(table, transaction.input@, height, (i + 1) as nat);
                        }
                        return Err(BlockValidationErrors::PrematureCoinbaseSpend);
                    }
                    if utxo.txout.value > MAX_MONEY - in_value {
                        proof {
                            lemma_spend_inputs_stops(table, transaction.input@, height, (i + 1) as nat);
                        }
                        return Err(BlockValidationErrors::AmountOverflow);
                    }
                    in_value = in_value + utxo.txout.value;
                },
            }
            i = i + 1;
        }
        let out_value = match sum_outputs(&transaction.output) {
            Some(v) => v,
            None => {
                return Err(BlockValidationErrors::AmountOverflow);
            },
        };
        if in_value < out_value {
            return Err(BlockValidationErrors::NegativeFee);
        }
        Ok((in_value, out_value))
    }
}

/// Once spending fails at input `n`, it fails the same way for all inputs.
proof fn lemma_spend_inputs_stops(
    table: Seq<(OutPoint, UtxoData)>,
    inputs: Seq<TxIn>,
    height: u32,
    n: nat,
)
    requires
        n <= inputs.len(),
        spend_inputs(table, inputs, height, n) is Err,
    ensures
        spend_inputs(table, inputs, height, inputs.len()) == spend_inputs(table, inputs, height, n),
    decreases inputs.len() - n,
{
    if n < inputs.len() {
        lemma_spend_inputs_stops(table, inputs, height, n + 1);
    }
}

} // verus!
