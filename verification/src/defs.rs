//! Which temporaries the code of a function defines, and how often.

use crate::ir::{BasicBlock, Instruction, Spanned, Temp};
use crate::list::List;
use crate::valid::code_ok;
use std::rc::Rc;
use vstd::prelude::*;

verus! {

/// The temporary that an instruction defines.
pub open spec fn def_of(i: &Instruction) -> Option<Temp> {
    match i {
        Instruction::Const { dst, .. } => Some(*dst),
        Instruction::Call { dst, .. } => Some(*dst),
        Instruction::CallIntrinsic { dst, .. } => Some(*dst),
        Instruction::Coerce { dst, .. } => Some(*dst),
        Instruction::CloneBox { dst, .. } => Some(*dst),
        Instruction::MakeCell { dst, .. } => Some(*dst),
        Instruction::CellGet { dst, .. } => Some(*dst),
        Instruction::GlobalValGet { dst, .. } => Some(*dst),
        Instruction::Index { dst, .. } => Some(*dst),
        Instruction::FieldGet { dst, .. } => Some(*dst),
        Instruction::SealedArrayFieldGet { dst, .. } => Some(*dst),
        Instruction::BoxedArrayFieldGet { dst, .. } => Some(*dst),
        Instruction::MakeObject { dst, .. } => Some(*dst),
        Instruction::MakeArray { dst, .. } => Some(*dst),
        Instruction::MakeClosure { dst, .. } => Some(*dst),
        Instruction::MakeNamedClosure { dst, .. } => Some(*dst),
        Instruction::EnvCapture { dst, .. } => Some(*dst),
        Instruction::Phi { dst, .. } => Some(*dst),
        Instruction::Binary { dst, .. } => Some(*dst),
        Instruction::Unary { dst, .. } => Some(*dst),
        Instruction::IsType { dst, .. } => Some(*dst),
        Instruction::HasPattern { dst, .. } => Some(*dst),
        Instruction::MatchesSchema { dst, .. } => Some(*dst),
        _ => None,
    }
}

/// How often the instruction defines the temporary.
pub open spec fn defines(i: &Instruction, t: Temp) -> nat {
    if def_of(i) == Some(t) {
        1
    } else {
        0
    }
}

/// How often the code defines the temporary.
pub open spec fn defs_in(code: &List<Rc<Spanned>>, t: Temp) -> nat
    decreases code,
{
    match code {
        List::Nil => 0,
        List::Cons(n) => defs_in(&n.tail, t) + defines(&n.head.instr, t),
    }
}

/// How often the blocks define the temporary.
pub open spec fn defs_all(blocks: Seq<BasicBlock>, t: Temp) -> nat
    decreases blocks.len(),
{
    if blocks.len() == 0 {
        0
    } else {
        defs_all(blocks.drop_last(), t) + defs_in(&blocks.last().code, t)
    }
}

/// A new block counts with its own definitions.
pub proof fn defs_push(blocks: Seq<BasicBlock>, block: BasicBlock, t: Temp)
    ensures
        defs_all(blocks.push(block), t) == defs_all(blocks, t) + defs_in(&block.code, t),
{
    assert(blocks.push(block).drop_last() =~= blocks);
}

/// A block that replaces another one counts in its place.
pub proof fn defs_update(blocks: Seq<BasicBlock>, k: int, block: BasicBlock, t: Temp)
    requires
        0 <= k < blocks.len(),
    ensures
        defs_all(blocks.update(k, block), t) + defs_in(&blocks[k].code, t) == defs_all(blocks, t)
            + defs_in(&block.code, t),
    decreases blocks.len(),
{
    let changed = blocks.update(k, block);
    if k == blocks.len() - 1 {
        assert(changed.drop_last() =~= blocks.drop_last());
    } else {
        assert(changed.drop_last() =~= blocks.drop_last().update(k, block));
        defs_update(blocks.drop_last(), k, block, t);
    }
}

/// Code that mentions only the first `n` temporaries defines no later one.
pub proof fn no_later_defs_in(code: &List<Rc<Spanned>>, n: nat, t: Temp)
    requires
        code_ok(code, n),
        n <= t.0,
    ensures
        defs_in(code, t) == 0,
    decreases code,
{
    match code {
        List::Nil => {},
        List::Cons(k) => no_later_defs_in(&k.tail, n, t),
    }
}

/// Blocks that mention only the first `n` temporaries define no later one.
pub proof fn no_later_defs(blocks: Seq<BasicBlock>, n: nat, t: Temp)
    requires
        forall|i: int| 0 <= i < blocks.len() ==> code_ok(&(#[trigger] blocks[i]).code, n),
        n <= t.0,
    ensures
        defs_all(blocks, t) == 0,
    decreases blocks.len(),
{
    if blocks.len() > 0 {
        let rest = blocks.drop_last();
        assert forall|i: int| 0 <= i < rest.len() implies code_ok(
            &(#[trigger] rest[i]).code,
            n,
        ) by {
            assert(rest[i] == blocks[i]);
        }
        no_later_defs(rest, n, t);
        assert(code_ok(&blocks[blocks.len() - 1].code, n));
        no_later_defs_in(&blocks.last().code, n, t);
    }
}

} // verus!
