//! Reading the block height that BIP34 puts at the start of the coinbase.
use vstd::prelude::*;

use bitcoin::script::Instruction;

use crate::consensus::Consensus;
use crate::types::Block;

verus! {

/// The first instruction of a script.
#[derive(Clone, Debug)]
pub enum FirstInstruction {
    /// The script is empty.
    Empty,
    /// The script does not start with a well-formed, minimally encoded instruction.
    Invalid,
    /// A push of these bytes.
    PushBytes(Vec<u8>),
    /// Some other opcode.
    Op(u8),
}

/// What bitcoin's minimal instruction reader finds first in `script`.
pub uninterp spec fn first_instruction_of(script: Seq<u8>) -> FirstInstruction;

/// Relies on bitcoin's `Script::instructions_minimal`: the first instruction,
/// with non-minimal pushes refused; nothing for an empty script.
#[verifier::external_body]
fn first_instruction(script: &[u8]) -> (r: FirstInstruction)
    ensures
        r == first_instruction_of(script@),
        script@.len() == 0 ==> r is Empty,
{
    match bitcoin::Script::from_bytes(script).instructions_minimal().next() {
        None => FirstInstruction::Empty,
        Some(Err(_)) => FirstInstruction::Invalid,
        Some(Ok(Instruction::PushBytes(b))) => FirstInstruction::PushBytes(b.as_bytes().to_vec()),
        Some(Ok(Instruction::Op(op))) => FirstInstruction::Op(op.to_u8()),
    }
}

/// The unsigned little-endian value of `v`.
pub open spec fn le_unsigned(v: Seq<u8>) -> int
    decreases v.len(),
{
    if v.len() == 0 {
        0
    } else {
        v[0] + 256 * le_unsigned(v.drop_first())
    }
}

/// The value of a script number: little-endian, at most four bytes, the top
/// bit of the last byte its sign, minimally encoded.
pub open spec fn scriptint_of(v: Seq<u8>) -> Option<i64> {
    if v.len() == 0 {
        Some(0)
    } else if v.len() > 4 {
        None
    } else if v.last() & 0x7f == 0 && (v.len() <= 1 || v[v.len() - 2] & 0x80 == 0) {
        None
    } else {
        let magnitude = le_unsigned(v.update(v.len() - 1, v.last() & 0x7f));
        Some(
            (if v.last() & 0x80 != 0 {
                -magnitude
            } else {
                magnitude
            }) as i64,
        )
    }
}

/// The value of the script number `v`, where it is one: at most four bytes,
/// minimally encoded.
pub fn read_scriptint(v: &[u8]) -> (r: Option<i64>)
    ensures
        r == scriptint_of(v@),
{
    let n = v.len();
    if n == 0 {
        return Some(0);
    }
    if n > 4 {
        return None;
    }
    let last = v[n - 1];
    // The most significant byte, but for the sign bit, may only be zero where
    // the byte below it needs the sign bit's place.
    if last & 0x7f == 0 && (n <= 1 || v[n - 2] & 0x80 == 0) {
        return None;
    }
    let ghost w = v@.update(n - 1, last & 0x7f);
    let mut magnitude: i64 = (last & 0x7f) as i64;
    let mut i: usize = n - 1;
    proof {
        assert(w.subrange(n - 1, n as int).drop_first() =~= Seq::<u8>::empty());
        assert(w.subrange(n - 1, n as int)[0] == w[n - 1]);
        assert(w[n - 1] == last & 0x7f);
        assert(le_unsigned(Seq::<u8>::empty()) == 0);
        assert(le_unsigned(w.subrange(n - 1, n as int)) == (last & 0x7f) as int);
        reveal_with_fuel(pow256, 5);
        assert(pow256(1) == 256);
    }
    while i > 0
        invariant
            0 <= i < n <= 4,
            n == v@.len(),
            w == v@.update(n - 1, last & 0x7f),
            magnitude as int == le_unsigned(w.subrange(i as int, n as int)),
            0 <= magnitude < pow256(n - i),
        decreases i,
    {
        let ghost tail = w.subrange(i as int, n as int);
        assert(w.subrange(i - 1, n as int).drop_first() =~= tail);
        assert(w[i - 1] == v@[i - 1]);
        let b = v[i - 1];
        proof {
            reveal_with_fuel(pow256, 5);
            assert(pow256(n - i) <= 16_777_216);
            assert(magnitude * 256 + b < pow256(n - i + 1)) by (nonlinear_arith)
                requires
                    0 <= magnitude < pow256(n - i),
                    pow256(n - i + 1) == 256 * pow256(n - i),
                    0 <= b < 256,
            ;
        }
        magnitude = magnitude * 256 + b as i64;
        i = i - 1;
    }
    assert(w.subrange(0, n as int) =~= w);
    if last & 0x80 != 0 {
        Some(-magnitude)
    } else {
        Some(magnitude)
    }
}

/// `256^k` for the few lengths a script number can have.
pub open spec fn pow256(k: int) -> int
    decreases k,
{
    if k <= 0 {
        1
    } else {
        256 * pow256(k - 1)
    }
}

/// The height that an instruction at the start of a coinbase encodes: the
/// value of a pushed number, or `n` for `OP_1` to `OP_16`.
pub open spec fn bip34_height_from(ins: FirstInstruction) -> Option<u32> {
    match ins {
        FirstInstruction::PushBytes(b) => match scriptint_of(b@) {
            Some(h) => Some(h as u32),
            None => None,
        },
        FirstInstruction::Op(op) => if 0x51 <= op <= 0x60 {
            Some((op - 0x50) as u32)
        } else {
            None
        },
        _ => None,
    }
}

/// The height that a coinbase `script_sig` commits to, if any.
pub open spec fn coinbase_height(b: Block) -> Option<u32> {
    if b.txdata@.len() == 0 || b.txdata@[0].input@.len() == 0 {
        None
    } else {
        bip34_height_from(first_instruction_of(b.txdata@[0].input@[0].script_sig@))
    }
}

/// The height that `ins`, read at the start of a coinbase, encodes.
pub fn height_from_instruction(ins: &FirstInstruction) -> (r: Option<u32>)
    ensures
        r == bip34_height_from(*ins),
{
    match ins {
        FirstInstruction::PushBytes(b) => match read_scriptint(b.as_slice()) {
            Some(h) => Some(h as u32),
            None => None,
        },
        FirstInstruction::Op(op) => {
            if 0x51 <= *op && *op <= 0x60 {
                Some((*op - 0x50) as u32)
            } else {
                None
            }
        },
        _ => None,
    }
}

impl Consensus {
    /// The height encoded at the start of the block's coinbase `script_sig`.
    pub fn get_bip34_height(&self, block: &Block) -> (r: Option<u32>)
        ensures
            r == coinbase_height(*block),
    {
        if block.txdata.len() == 0 || block.txdata[0].input.len() == 0 {
            return None;
        }
        let ins = first_instruction(block.txdata[0].input[0].script_sig.as_slice());
        height_from_instruction(&ins)
    }
}

} // verus!
