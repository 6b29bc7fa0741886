//! When a temporary or a block that the state mentions exists.

use crate::builder::{Cell, Entry, Owned, Scope};
use crate::call::{LoweredArgs, TrackedArg};
use crate::coerce::{Branch, OutputArray};
use crate::collect::{CountLoop, ReduceLoop, SortArrays};
use crate::combinator::{FindLoop, FlagLoop, RangeLoop};
use crate::control::BranchEnd;
use crate::ctx::PackedElem;
use crate::expr::{ArrayElems, Assignment, BoxedOperand, Operands};
use crate::func::{CaptureTemp, CaptureTemps, StringParts};
use crate::fuse::{FuseOut, Terminal};
use crate::ir::{
    BlockId, CallTarget, Incoming, Instruction, KeyedTemp, NamedTemp, Spanned, Temp, Terminator,
};
use crate::list::{List, cons};
use crate::literal::{ChildTemp, Place, SumFields, SumScrutinee};
use crate::loops::{BoxedCall, CallArgs, Inlined, LoopFlow, LoopFrame, TypedTemp};
use crate::recognize::FnTarget;
use std::rc::Rc;
use vstd::prelude::*;

verus! {

/// The temporary is one of the first `n`.
pub open spec fn temp_ok(t: Temp, n: nat) -> bool {
    t.0 < n
}

/// The temporary, if there is one, is one of the first `n`.
pub open spec fn otemp_ok(t: Option<Temp>, n: nat) -> bool {
    match t {
        Some(x) => temp_ok(x, n),
        None => true,
    }
}

/// The temporaries of the temporaries are among the first `n`.
pub open spec fn temps_ok(l: &List<Temp>, n: nat) -> bool
    decreases l,
{
    match l {
        List::Nil => true,
        List::Cons(k) => temp_ok(k.head, n) && temps_ok(&k.tail, n),
    }
}

/// What is among the first `n` is among the first `m`.
pub broadcast proof fn temps_mono(l: &List<Temp>, n: nat, m: nat)
    requires
        #[trigger] temps_ok(l, n),
        n <= m,
    ensures
        #[trigger] temps_ok(l, m),
    decreases l,
{
    match l {
        List::Nil => {},
        List::Cons(k) => {
            temps_mono(&k.tail, n, m);
        },
    }
}

/// Where the items are in order, so are the first one and the others.
pub proof fn temps_tail(l: &List<Temp>, n: nat)
    ensures
        match l {
            List::Nil => true,
            List::Cons(k) => temps_ok(l, n) ==> temp_ok(k.head, n) && temps_ok(&k.tail, n),
        },
{
}

/// An item in front and the rest.
pub broadcast proof fn temps_cons(x: Temp, l: List<Temp>, n: nat)
    ensures
        #[trigger] temps_ok(&cons(x, l), n) <==> temp_ok(x, n) && temps_ok(&l, n),
{
}

/// The temporaries of the optional temporaries are among the first `n`.
pub open spec fn otemps_ok(l: &List<Option<Temp>>, n: nat) -> bool
    decreases l,
{
    match l {
        List::Nil => true,
        List::Cons(k) => otemp_ok(k.head, n) && otemps_ok(&k.tail, n),
    }
}

/// What is among the first `n` is among the first `m`.
pub broadcast proof fn otemps_mono(l: &List<Option<Temp>>, n: nat, m: nat)
    requires
        #[trigger] otemps_ok(l, n),
        n <= m,
    ensures
        #[trigger] otemps_ok(l, m),
    decreases l,
{
    match l {
        List::Nil => {},
        List::Cons(k) => {
            otemps_mono(&k.tail, n, m);
        },
    }
}

/// Where the items are in order, so are the first one and the others.
pub proof fn otemps_tail(l: &List<Option<Temp>>, n: nat)
    ensures
        match l {
            List::Nil => true,
            List::Cons(k) => otemps_ok(l, n) ==> otemp_ok(k.head, n) && otemps_ok(&k.tail, n),
        },
{
}

/// An item in front and the rest.
pub broadcast proof fn otemps_cons(x: Option<Temp>, l: List<Option<Temp>>, n: nat)
    ensures
        #[trigger] otemps_ok(&cons(x, l), n) <==> otemp_ok(x, n) && otemps_ok(&l, n),
{
}

/// The temporaries of the typed values are among the first `n`.
pub open spec fn typed_ok(l: &List<TypedTemp>, n: nat) -> bool
    decreases l,
{
    match l {
        List::Nil => true,
        List::Cons(k) => temp_ok(k.head.temp, n) && typed_ok(&k.tail, n),
    }
}

/// What is among the first `n` is among the first `m`.
pub broadcast proof fn typed_mono(l: &List<TypedTemp>, n: nat, m: nat)
    requires
        #[trigger] typed_ok(l, n),
        n <= m,
    ensures
        #[trigger] typed_ok(l, m),
    decreases l,
{
    match l {
        List::Nil => {},
        List::Cons(k) => {
            typed_mono(&k.tail, n, m);
        },
    }
}

/// Where the items are in order, so are the first one and the others.
pub proof fn typed_tail(l: &List<TypedTemp>, n: nat)
    ensures
        match l {
            List::Nil => true,
            List::Cons(k) => typed_ok(l, n) ==> temp_ok(k.head.temp, n) && typed_ok(&k.tail, n),
        },
{
}

/// An item in front and the rest.
pub broadcast proof fn typed_cons(x: TypedTemp, l: List<TypedTemp>, n: nat)
    ensures
        #[trigger] typed_ok(&cons(x, l), n) <==> temp_ok(x.temp, n) && typed_ok(&l, n),
{
}

/// The temporaries of the fields are among the first `n`.
pub open spec fn named_ok(l: &List<NamedTemp>, n: nat) -> bool
    decreases l,
{
    match l {
        List::Nil => true,
        List::Cons(k) => temp_ok(k.head.temp, n) && named_ok(&k.tail, n),
    }
}

/// What is among the first `n` is among the first `m`.
pub broadcast proof fn named_mono(l: &List<NamedTemp>, n: nat, m: nat)
    requires
        #[trigger] named_ok(l, n),
        n <= m,
    ensures
        #[trigger] named_ok(l, m),
    decreases l,
{
    match l {
        List::Nil => {},
        List::Cons(k) => {
            named_mono(&k.tail, n, m);
        },
    }
}

/// An item in front and the rest.
pub broadcast proof fn named_cons(x: NamedTemp, l: List<NamedTemp>, n: nat)
    ensures
        #[trigger] named_ok(&cons(x, l), n) <==> temp_ok(x.temp, n) && named_ok(&l, n),
{
}

/// The temporaries of the computed fields are among the first `n`.
pub open spec fn keyed_ok(l: &List<KeyedTemp>, n: nat) -> bool
    decreases l,
{
    match l {
        List::Nil => true,
        List::Cons(k) => temp_ok(k.head.key, n) && temp_ok(k.head.value, n) && keyed_ok(&k.tail, n),
    }
}

/// What is among the first `n` is among the first `m`.
pub broadcast proof fn keyed_mono(l: &List<KeyedTemp>, n: nat, m: nat)
    requires
        #[trigger] keyed_ok(l, n),
        n <= m,
    ensures
        #[trigger] keyed_ok(l, m),
    decreases l,
{
    match l {
        List::Nil => {},
        List::Cons(k) => {
            keyed_mono(&k.tail, n, m);
        },
    }
}

/// An item in front and the rest.
pub broadcast proof fn keyed_cons(x: KeyedTemp, l: List<KeyedTemp>, n: nat)
    ensures
        #[trigger] keyed_ok(&cons(x, l), n)
            <==> temp_ok(x.key, n) && temp_ok(x.value, n) && keyed_ok(&l, n),
{
}

/// The temporaries of the incomings are among the first `n`.
pub open spec fn incomings_ok(l: &List<Incoming>, n: nat) -> bool
    decreases l,
{
    match l {
        List::Nil => true,
        List::Cons(k) => temp_ok(k.head.val, n) && incomings_ok(&k.tail, n),
    }
}

/// What is among the first `n` is among the first `m`.
pub broadcast proof fn incomings_mono(l: &List<Incoming>, n: nat, m: nat)
    requires
        #[trigger] incomings_ok(l, n),
        n <= m,
    ensures
        #[trigger] incomings_ok(l, m),
    decreases l,
{
    match l {
        List::Nil => {},
        List::Cons(k) => {
            incomings_mono(&k.tail, n, m);
        },
    }
}

/// An item in front and the rest.
pub broadcast proof fn incomings_cons(x: Incoming, l: List<Incoming>, n: nat)
    ensures
        #[trigger] incomings_ok(&cons(x, l), n) <==> temp_ok(x.val, n) && incomings_ok(&l, n),
{
}

/// The temporaries of the registered references are among the first `n`.
pub open spec fn owned_ok(l: &List<Owned>, n: nat) -> bool
    decreases l,
{
    match l {
        List::Nil => true,
        List::Cons(k) => temp_ok(k.head.temp, n) && owned_ok(&k.tail, n),
    }
}

/// What is among the first `n` is among the first `m`.
pub broadcast proof fn owned_mono(l: &List<Owned>, n: nat, m: nat)
    requires
        #[trigger] owned_ok(l, n),
        n <= m,
    ensures
        #[trigger] owned_ok(l, m),
    decreases l,
{
    match l {
        List::Nil => {},
        List::Cons(k) => {
            owned_mono(&k.tail, n, m);
        },
    }
}

/// Where the items are in order, so are the first one and the others.
pub proof fn owned_tail(l: &List<Owned>, n: nat)
    ensures
        match l {
            List::Nil => true,
            List::Cons(k) => owned_ok(l, n) ==> temp_ok(k.head.temp, n) && owned_ok(&k.tail, n),
        },
{
}

/// An item in front and the rest.
pub broadcast proof fn owned_cons(x: Owned, l: List<Owned>, n: nat)
    ensures
        #[trigger] owned_ok(&cons(x, l), n) <==> temp_ok(x.temp, n) && owned_ok(&l, n),
{
}

/// The temporaries of the scopes are among the first `n`.
pub open spec fn scopes_ok(l: &List<Scope>, n: nat) -> bool
    decreases l,
{
    match l {
        List::Nil => true,
        List::Cons(k) => owned_ok(&k.head.owned, n)
            && temps_ok(&k.head.shells, n)
            && scopes_ok(&k.tail, n),
    }
}

/// What is among the first `n` is among the first `m`.
pub broadcast proof fn scopes_mono(l: &List<Scope>, n: nat, m: nat)
    requires
        #[trigger] scopes_ok(l, n),
        n <= m,
    ensures
        #[trigger] scopes_ok(l, m),
    decreases l,
{
    match l {
        List::Nil => {},
        List::Cons(k) => {
            owned_mono(&k.head.owned, n, m);
            temps_mono(&k.head.shells, n, m);
            scopes_mono(&k.tail, n, m);
        },
    }
}

/// Where the items are in order, so are the first one and the others.
pub proof fn scopes_tail(l: &List<Scope>, n: nat)
    ensures
        match l {
            List::Nil => true,
            List::Cons(k) => scopes_ok(l, n)
                ==> owned_ok(&k.head.owned, n)
                    && temps_ok(&k.head.shells, n)
                    && scopes_ok(&k.tail, n),
        },
{
}

/// An item in front and the rest.
pub broadcast proof fn scopes_cons(x: Scope, l: List<Scope>, n: nat)
    ensures
        #[trigger] scopes_ok(&cons(x, l), n)
            <==> owned_ok(&x.owned, n) && temps_ok(&x.shells, n) && scopes_ok(&l, n),
{
}

/// The temporaries of the variables are among the first `n`.
pub open spec fn slots_ok(l: &List<Entry<Temp>>, n: nat) -> bool
    decreases l,
{
    match l {
        List::Nil => true,
        List::Cons(k) => temp_ok(k.head.value, n) && slots_ok(&k.tail, n),
    }
}

/// What is among the first `n` is among the first `m`.
pub broadcast proof fn slots_mono(l: &List<Entry<Temp>>, n: nat, m: nat)
    requires
        #[trigger] slots_ok(l, n),
        n <= m,
    ensures
        #[trigger] slots_ok(l, m),
    decreases l,
{
    match l {
        List::Nil => {},
        List::Cons(k) => {
            slots_mono(&k.tail, n, m);
        },
    }
}

/// Where the items are in order, so are the first one and the others.
pub proof fn slots_tail(l: &List<Entry<Temp>>, n: nat)
    ensures
        match l {
            List::Nil => true,
            List::Cons(k) => slots_ok(l, n) ==> temp_ok(k.head.value, n) && slots_ok(&k.tail, n),
        },
{
}

/// An item in front and the rest.
pub broadcast proof fn slots_cons(x: Entry<Temp>, l: List<Entry<Temp>>, n: nat)
    ensures
        #[trigger] slots_ok(&cons(x, l), n) <==> temp_ok(x.value, n) && slots_ok(&l, n),
{
}

/// The temporaries of the heap cells are among the first `n`.
pub open spec fn cells_ok(l: &List<Cell>, n: nat) -> bool
    decreases l,
{
    match l {
        List::Nil => true,
        List::Cons(k) => temp_ok(k.head.temp, n) && cells_ok(&k.tail, n),
    }
}

/// What is among the first `n` is among the first `m`.
pub broadcast proof fn cells_mono(l: &List<Cell>, n: nat, m: nat)
    requires
        #[trigger] cells_ok(l, n),
        n <= m,
    ensures
        #[trigger] cells_ok(l, m),
    decreases l,
{
    match l {
        List::Nil => {},
        List::Cons(k) => {
            cells_mono(&k.tail, n, m);
        },
    }
}

/// Where the items are in order, so are the first one and the others.
pub proof fn cells_tail(l: &List<Cell>, n: nat)
    ensures
        match l {
            List::Nil => true,
            List::Cons(k) => cells_ok(l, n) ==> temp_ok(k.head.temp, n) && cells_ok(&k.tail, n),
        },
{
}

/// An item in front and the rest.
pub broadcast proof fn cells_cons(x: Cell, l: List<Cell>, n: nat)
    ensures
        #[trigger] cells_ok(&cons(x, l), n) <==> temp_ok(x.temp, n) && cells_ok(&l, n),
{
}

/// The temporaries of the variables for packed elements are among the first `n`.
pub open spec fn packed_ok(l: &List<Entry<PackedElem>>, n: nat) -> bool
    decreases l,
{
    match l {
        List::Nil => true,
        List::Cons(k) => packed_elem_ok(&k.head.value, n) && packed_ok(&k.tail, n),
    }
}

/// What is among the first `n` is among the first `m`.
pub broadcast proof fn packed_mono(l: &List<Entry<PackedElem>>, n: nat, m: nat)
    requires
        #[trigger] packed_ok(l, n),
        n <= m,
    ensures
        #[trigger] packed_ok(l, m),
    decreases l,
{
    match l {
        List::Nil => {},
        List::Cons(k) => {
            packed_mono(&k.tail, n, m);
        },
    }
}

/// An item in front and the rest.
pub broadcast proof fn packed_cons(x: Entry<PackedElem>, l: List<Entry<PackedElem>>, n: nat)
    ensures
        #[trigger] packed_ok(&cons(x, l), n) <==> packed_elem_ok(&x.value, n) && packed_ok(&l, n),
{
}

/// The temporaries of the nested nodes are among the first `n`.
pub open spec fn children_ok(l: &List<Option<ChildTemp>>, n: nat) -> bool
    decreases l,
{
    match l {
        List::Nil => true,
        List::Cons(k) => child_ok(&k.head, n) && children_ok(&k.tail, n),
    }
}

/// What is among the first `n` is among the first `m`.
pub broadcast proof fn children_mono(l: &List<Option<ChildTemp>>, n: nat, m: nat)
    requires
        #[trigger] children_ok(l, n),
        n <= m,
    ensures
        #[trigger] children_ok(l, m),
    decreases l,
{
    match l {
        List::Nil => {},
        List::Cons(k) => {
            children_mono(&k.tail, n, m);
        },
    }
}

/// Where the items are in order, so are the first one and the others.
pub proof fn children_tail(l: &List<Option<ChildTemp>>, n: nat)
    ensures
        match l {
            List::Nil => true,
            List::Cons(k) => children_ok(l, n) ==> child_ok(&k.head, n) && children_ok(&k.tail, n),
        },
{
}

/// An item in front and the rest.
pub broadcast proof fn children_cons(x: Option<ChildTemp>, l: List<Option<ChildTemp>>, n: nat)
    ensures
        #[trigger] children_ok(&cons(x, l), n) <==> child_ok(&x, n) && children_ok(&l, n),
{
}

/// The temporaries of the ends of branches are among the first `n`.
pub open spec fn ends_ok(l: &List<BranchEnd>, n: nat) -> bool
    decreases l,
{
    match l {
        List::Nil => true,
        List::Cons(k) => branch_end_ok(&k.head, n) && ends_ok(&k.tail, n),
    }
}

/// What is among the first `n` is among the first `m`.
pub broadcast proof fn ends_mono(l: &List<BranchEnd>, n: nat, m: nat)
    requires
        #[trigger] ends_ok(l, n),
        n <= m,
    ensures
        #[trigger] ends_ok(l, m),
    decreases l,
{
    match l {
        List::Nil => {},
        List::Cons(k) => {
            slots_mono(&k.head.slots, n, m);
            ends_mono(&k.tail, n, m);
        },
    }
}

/// Where the items are in order, so are the first one and the others.
pub proof fn ends_tail(l: &List<BranchEnd>, n: nat)
    ensures
        match l {
            List::Nil => true,
            List::Cons(k) => ends_ok(l, n) ==> branch_end_ok(&k.head, n) && ends_ok(&k.tail, n),
        },
{
}

/// An item in front and the rest.
pub broadcast proof fn ends_cons(x: BranchEnd, l: List<BranchEnd>, n: nat)
    ensures
        #[trigger] ends_ok(&cons(x, l), n) <==> branch_end_ok(&x, n) && ends_ok(&l, n),
{
}

/// The temporaries of the instructions are among the first `n`.
pub open spec fn code_ok(l: &List<Rc<Spanned>>, n: nat) -> bool
    decreases l,
{
    match l {
        List::Nil => true,
        List::Cons(k) => instr_ok(&k.head.instr, n) && code_ok(&k.tail, n),
    }
}

/// What is among the first `n` is among the first `m`.
pub broadcast proof fn code_mono(l: &List<Rc<Spanned>>, n: nat, m: nat)
    requires
        #[trigger] code_ok(l, n),
        n <= m,
    ensures
        #[trigger] code_ok(l, m),
    decreases l,
{
    match l {
        List::Nil => {},
        List::Cons(k) => {
            instr_mono(&k.head.instr, n, m);
            code_mono(&k.tail, n, m);
        },
    }
}

/// An item in front and the rest.
pub broadcast proof fn code_cons(x: Rc<Spanned>, l: List<Rc<Spanned>>, n: nat)
    ensures
        #[trigger] code_ok(&cons(x, l), n) <==> instr_ok(&x.instr, n) && code_ok(&l, n),
{
}

/// The blocks that the incomings come from are among the first `n`.
pub open spec fn preds_ok(l: &List<Incoming>, n: nat) -> bool
    decreases l,
{
    match l {
        List::Nil => true,
        List::Cons(k) => k.head.pred.0 < n && preds_ok(&k.tail, n),
    }
}

/// What is among the first `n` is among the first `m`.
pub broadcast proof fn preds_mono(l: &List<Incoming>, n: nat, m: nat)
    requires
        #[trigger] preds_ok(l, n),
        n <= m,
    ensures
        #[trigger] preds_ok(l, m),
    decreases l,
{
    match l {
        List::Nil => {},
        List::Cons(k) => {
            preds_mono(&k.tail, n, m);
        },
    }
}

/// An item in front and the rest.
pub broadcast proof fn preds_cons(x: Incoming, l: List<Incoming>, n: nat)
    ensures
        #[trigger] preds_ok(&cons(x, l), n) <==> x.pred.0 < n && preds_ok(&l, n),
{
}

/// The blocks in which the branches end are among the first `n`.
pub open spec fn end_preds_ok(l: &List<BranchEnd>, n: nat) -> bool
    decreases l,
{
    match l {
        List::Nil => true,
        List::Cons(k) => k.head.pred.0 < n && end_preds_ok(&k.tail, n),
    }
}

/// What is among the first `n` is among the first `m`.
pub broadcast proof fn end_preds_mono(l: &List<BranchEnd>, n: nat, m: nat)
    requires
        #[trigger] end_preds_ok(l, n),
        n <= m,
    ensures
        #[trigger] end_preds_ok(l, m),
    decreases l,
{
    match l {
        List::Nil => {},
        List::Cons(k) => {
            end_preds_mono(&k.tail, n, m);
        },
    }
}

/// Where the items are in order, so are the first one and the others.
pub proof fn end_preds_tail(l: &List<BranchEnd>, n: nat)
    ensures
        match l {
            List::Nil => true,
            List::Cons(k) => end_preds_ok(l, n) ==> k.head.pred.0 < n && end_preds_ok(&k.tail, n),
        },
{
}

/// An item in front and the rest.
pub broadcast proof fn end_preds_cons(x: BranchEnd, l: List<BranchEnd>, n: nat)
    ensures
        #[trigger] end_preds_ok(&cons(x, l), n) <==> x.pred.0 < n && end_preds_ok(&l, n),
{
}

/// The blocks are among the first `n`.
pub open spec fn block_ids_ok(l: &List<BlockId>, n: nat) -> bool
    decreases l,
{
    match l {
        List::Nil => true,
        List::Cons(k) => k.head.0 < n && block_ids_ok(&k.tail, n),
    }
}

/// What is among the first `n` is among the first `m`.
pub broadcast proof fn block_ids_mono(l: &List<BlockId>, n: nat, m: nat)
    requires
        #[trigger] block_ids_ok(l, n),
        n <= m,
    ensures
        #[trigger] block_ids_ok(l, m),
    decreases l,
{
    match l {
        List::Nil => {},
        List::Cons(k) => {
            block_ids_mono(&k.tail, n, m);
        },
    }
}

/// Where the items are in order, so are the first one and the others.
pub proof fn block_ids_tail(l: &List<BlockId>, n: nat)
    ensures
        match l {
            List::Nil => true,
            List::Cons(k) => block_ids_ok(l, n) ==> k.head.0 < n && block_ids_ok(&k.tail, n),
        },
{
}

/// An item in front and the rest.
pub broadcast proof fn block_ids_cons(x: BlockId, l: List<BlockId>, n: nat)
    ensures
        #[trigger] block_ids_ok(&cons(x, l), n) <==> x.0 < n && block_ids_ok(&l, n),
{
}

/// The blocks that the phis of the code name are among the first `n`.
pub open spec fn phis_ok(l: &List<Rc<Spanned>>, n: nat) -> bool
    decreases l,
{
    match l {
        List::Nil => true,
        List::Cons(k) => phi_ok(&k.head.instr, n) && phis_ok(&k.tail, n),
    }
}

/// What is among the first `n` is among the first `m`.
pub broadcast proof fn phis_mono(l: &List<Rc<Spanned>>, n: nat, m: nat)
    requires
        #[trigger] phis_ok(l, n),
        n <= m,
    ensures
        #[trigger] phis_ok(l, m),
    decreases l,
{
    match l {
        List::Nil => {},
        List::Cons(k) => {
            phi_mono(&k.head.instr, n, m);
            phis_mono(&k.tail, n, m);
        },
    }
}

/// An item in front and the rest.
pub broadcast proof fn phis_cons(x: Rc<Spanned>, l: List<Rc<Spanned>>, n: nat)
    ensures
        #[trigger] phis_ok(&cons(x, l), n) <==> phi_ok(&x.instr, n) && phis_ok(&l, n),
{
}

/// The temporaries in it are among the first `n`.
pub open spec fn typed_temp_ok(x: &TypedTemp, n: nat) -> bool {
    temp_ok(x.temp, n)
}

/// The temporaries in it are among the first `n`.
pub open spec fn inlined_ok(x: &Inlined, n: nat) -> bool {
    &&& temp_ok(x.val, n)
    &&& temps_ok(&x.boxes, n)
}

/// The temporaries in it are among the first `n`.
pub open spec fn call_args_ok(x: &CallArgs, n: nat) -> bool {
    &&& temps_ok(&x.args, n)
    &&& temps_ok(&x.boxes, n)
}

/// The temporaries in it are among the first `n`.
pub open spec fn boxed_call_ok(x: &BoxedCall, n: nat) -> bool {
    &&& temp_ok(x.dst, n)
    &&& temps_ok(&x.boxes, n)
}

/// The temporaries in it are among the first `n`.
pub open spec fn loop_frame_ok(x: &LoopFrame, n: nat) -> bool {
    &&& temp_ok(x.i, n)
    &&& temp_ok(x.i_next, n)
    &&& temp_ok(x.elem, n)
}

/// The temporaries in it are among the first `n`.
pub open spec fn flag_loop_temps_ok(x: &FlagLoop, n: nat) -> bool {
    &&& temp_ok(x.i, n)
    &&& temp_ok(x.i_next, n)
    &&& temp_ok(x.flag, n)
    &&& temp_ok(x.flag_next, n)
}

/// The temporaries in it are among the first `n`.
pub open spec fn find_loop_temps_ok(x: &FindLoop, n: nat) -> bool {
    &&& temp_ok(x.i, n)
    &&& temp_ok(x.i_next, n)
    &&& temp_ok(x.result, n)
    &&& temp_ok(x.result_next, n)
    &&& temp_ok(x.found, n)
    &&& temp_ok(x.found_next, n)
}

/// The temporaries in it are among the first `n`.
pub open spec fn range_loop_temps_ok(x: &RangeLoop, n: nat) -> bool {
    &&& temp_ok(x.i, n)
    &&& temp_ok(x.i_next, n)
    &&& temp_ok(x.idx, n)
    &&& temp_ok(x.idx_next, n)
}

/// The temporaries in it are among the first `n`.
pub open spec fn reduce_loop_temps_ok(x: &ReduceLoop, n: nat) -> bool {
    &&& temp_ok(x.i, n)
    &&& temp_ok(x.i_next, n)
    &&& temp_ok(x.acc, n)
    &&& temp_ok(x.pending, n)
}

/// The temporaries in it are among the first `n`.
pub open spec fn count_loop_temps_ok(x: &CountLoop, n: nat) -> bool {
    &&& temp_ok(x.i, n)
    &&& temp_ok(x.i_next, n)
}

/// The temporaries in it are among the first `n`.
pub open spec fn output_array_ok(x: &OutputArray, n: nat) -> bool {
    temp_ok(x.out, n)
}

/// The temporaries in it are among the first `n`.
pub open spec fn fuse_out_ok(x: &FuseOut, n: nat) -> bool {
    &&& temp_ok(x.val, n)
    &&& temp_ok(x.idx, n)
}

/// The temporaries in it are among the first `n`.
pub open spec fn fn_target_ok(x: &FnTarget, n: nat) -> bool {
    callee_ok(&x.target, n)
}

/// The temporaries in it are among the first `n`.
pub open spec fn sum_fields_ok(x: &SumFields, n: nat) -> bool {
    &&& named_ok(&x.temps, n)
    &&& children_ok(&x.children, n)
}

/// The temporaries in it are among the first `n`.
pub open spec fn place_ok(x: &Place, n: nat) -> bool {
    &&& temp_ok(x.object, n)
    &&& temp_ok(x.key, n)
}

/// The temporaries in it are among the first `n`.
pub open spec fn sum_scrutinee_ok(x: &SumScrutinee, n: nat) -> bool {
    temp_ok(x.temp, n)
}

/// The temporaries in it are among the first `n`.
pub open spec fn branch_ok(x: &Branch, n: nat) -> bool {
    temp_ok(x.val, n)
}

/// The temporaries in it are among the first `n`.
pub open spec fn branch_end_ok(x: &BranchEnd, n: nat) -> bool {
    &&& slots_ok(&x.slots, n)
    &&& temp_ok(x.val, n)
}

/// The temporaries in it are among the first `n`.
pub open spec fn operands_ok(x: &Operands, n: nat) -> bool {
    &&& temp_ok(x.lhs, n)
    &&& temp_ok(x.rhs, n)
    &&& temps_ok(&x.shells, n)
}

/// The temporaries in it are among the first `n`.
pub open spec fn boxed_operand_ok(x: &BoxedOperand, n: nat) -> bool {
    &&& temp_ok(x.temp, n)
    &&& temps_ok(&x.shells, n)
}

/// The temporaries in it are among the first `n`.
pub open spec fn array_elems_ok(x: &ArrayElems, n: nat) -> bool {
    &&& temps_ok(&x.temps, n)
    &&& temps_ok(&x.shells, n)
}

/// The temporaries in it are among the first `n`.
pub open spec fn assignment_ok(x: &Assignment, n: nat) -> bool {
    &&& temp_ok(x.object, n)
    &&& temp_ok(x.key, n)
    &&& temp_ok(x.value, n)
}

/// The temporaries in it are among the first `n`.
pub open spec fn capture_temp_ok(x: &CaptureTemp, n: nat) -> bool {
    temp_ok(x.temp, n)
}

/// The temporaries in it are among the first `n`.
pub open spec fn capture_temps_ok(x: &CaptureTemps, n: nat) -> bool {
    temps_ok(&x.temps, n)
}

/// The temporaries in it are among the first `n`.
pub open spec fn string_parts_ok(x: &StringParts, n: nat) -> bool {
    &&& temps_ok(&x.temps, n)
    &&& temps_ok(&x.owned, n)
}

/// The temporaries in it are among the first `n`.
pub open spec fn tracked_arg_ok(x: &TrackedArg, n: nat) -> bool {
    &&& temp_ok(x.temp, n)
    &&& otemp_ok(x.raw, n)
}

/// The temporaries in it are among the first `n`.
pub open spec fn lowered_args_ok(x: &LoweredArgs, n: nat) -> bool {
    &&& temps_ok(&x.args, n)
    &&& temps_ok(&x.shells, n)
    &&& owned_ok(&x.releases, n)
}

/// The temporaries in it are among the first `n`.
pub open spec fn sort_arrays_ok(x: &SortArrays, n: nat) -> bool {
    &&& temp_ok(x.out, n)
    &&& temp_ok(x.work, n)
    &&& temp_ok(x.one_c, n)
}

/// The temporaries in it are among the first `n`.
pub open spec fn child_temp_ok(x: &ChildTemp, n: nat) -> bool {
    &&& temp_ok(x.slot_temp, n)
    &&& temp_ok(x.raw, n)
}

/// The temporaries in it are among the first `n`.
pub open spec fn packed_elem_ok(x: &PackedElem, n: nat) -> bool {
    &&& temp_ok(x.array, n)
    &&& temp_ok(x.index, n)
}

/// The temporaries in it are among the first `n`.
pub open spec fn incoming_ok(x: &Incoming, n: nat) -> bool {
    temp_ok(x.val, n)
}

/// The temporaries in it are among the first `n`.
pub open spec fn child_ok(x: &Option<ChildTemp>, n: nat) -> bool {
    match x {
        Some(c) => child_temp_ok(c, n),
        None => true,
    }
}

/// The temporaries in it are among the first `n`.
pub open spec fn terminal_ok(x: &Terminal, n: nat) -> bool {
    match x {
        Terminal::Run { .. } => true,
        Terminal::MapInto { out, .. } => temp_ok(*out, n),
        Terminal::FilterInto { out, .. } => temp_ok(*out, n),
        Terminal::PushInto { out, .. } => temp_ok(*out, n),
        Terminal::ReduceInto { cell, .. } => temp_ok(*cell, n),
    }
}

/// The temporary that decides whether a loop goes on, if there is one, is among the first
/// `n`.
pub open spec fn flow_ok(x: &LoopFlow, n: nat) -> bool {
    match x {
        LoopFlow::ContinueIf(t) => temp_ok(*t, n),
        LoopFlow::Fallthrough => true,
    }
}

/// The temporary that is called, if one is, is among the first `n`.
pub open spec fn callee_ok(x: &CallTarget, n: nat) -> bool {
    match x {
        CallTarget::Indirect(t) => temp_ok(*t, n),
        _ => true,
    }
}

/// The temporaries that an instruction mentions are among the first `n`.
pub open spec fn instr_ok(i: &Instruction, n: nat) -> bool {
    match i {
        Instruction::Const { dst, .. } => temp_ok(*dst, n),
        Instruction::Call { dst, callee, args, .. } => temp_ok(*dst, n)
            && callee_ok(callee, n)
            && temps_ok(args, n),
        Instruction::CallIntrinsic { dst, args, .. } => temp_ok(*dst, n) && temps_ok(args, n),
        Instruction::Coerce { dst, src, .. } => temp_ok(*dst, n) && temp_ok(*src, n),
        Instruction::Retain { val, .. } => temp_ok(*val, n),
        Instruction::Release { val, .. } => temp_ok(*val, n),
        Instruction::ReleaseIfDistinct { val, other } => temp_ok(*val, n) && temp_ok(*other, n),
        Instruction::ReleaseRawIfDistinct { val, other, .. } => temp_ok(*val, n)
            && temp_ok(*other, n),
        Instruction::FreeBoxShell { val } => temp_ok(*val, n),
        Instruction::FreeBoxShellIfDistinct { val, other } => temp_ok(*val, n)
            && temp_ok(*other, n),
        Instruction::CloneBox { dst, src, .. } => temp_ok(*dst, n) && temp_ok(*src, n),
        Instruction::MakeCell { dst, init, .. } => temp_ok(*dst, n) && temp_ok(*init, n),
        Instruction::CellGet { dst, cell, .. } => temp_ok(*dst, n) && temp_ok(*cell, n),
        Instruction::CellSet { cell, value, .. } => temp_ok(*cell, n) && temp_ok(*value, n),
        Instruction::FreeCell { cell, .. } => temp_ok(*cell, n),
        Instruction::GlobalValGet { dst, .. } => temp_ok(*dst, n),
        Instruction::GlobalValSet { value, .. } => temp_ok(*value, n),
        Instruction::Index { dst, object, key, .. } => temp_ok(*dst, n)
            && temp_ok(*object, n)
            && temp_ok(*key, n),
        Instruction::IndexSet { object, key, value, .. } => temp_ok(*object, n)
            && temp_ok(*key, n)
            && temp_ok(*value, n),
        Instruction::FieldGet { dst, object, .. } => temp_ok(*dst, n) && temp_ok(*object, n),
        Instruction::FieldSet { object, value, .. } => temp_ok(*object, n) && temp_ok(*value, n),
        Instruction::SealedArrayFieldGet { dst, array, index, .. } => temp_ok(*dst, n)
            && temp_ok(*array, n)
            && temp_ok(*index, n),
        Instruction::BoxedArrayFieldGet { dst, array, index, .. } => temp_ok(*dst, n)
            && temp_ok(*array, n)
            && temp_ok(*index, n),
        Instruction::MakeObject { dst, fields, spreads, computed_fields, .. } => temp_ok(*dst, n)
            && named_ok(fields, n)
            && temps_ok(spreads, n)
            && keyed_ok(computed_fields, n),
        Instruction::MakeArray { dst, elements, .. } => temp_ok(*dst, n) && temps_ok(elements, n),
        Instruction::MakeClosure { dst, captures, .. } => temp_ok(*dst, n) && temps_ok(captures, n),
        Instruction::MakeNamedClosure { dst, .. } => temp_ok(*dst, n),
        Instruction::EnvCapture { dst, env, .. } => temp_ok(*dst, n) && temp_ok(*env, n),
        Instruction::DebugDeclare { temp, .. } => temp_ok(*temp, n),
        Instruction::Phi { dst, incomings, .. } => temp_ok(*dst, n) && incomings_ok(incomings, n),
        Instruction::Binary { dst, lhs, rhs, .. } => temp_ok(*dst, n)
            && temp_ok(*lhs, n)
            && temp_ok(*rhs, n),
        Instruction::Unary { dst, operand, .. } => temp_ok(*dst, n) && temp_ok(*operand, n),
        Instruction::IsType { dst, val, .. } => temp_ok(*dst, n) && temp_ok(*val, n),
        Instruction::HasPattern { dst, val, .. } => temp_ok(*dst, n) && temp_ok(*val, n),
        Instruction::MatchesSchema { dst, val, .. } => temp_ok(*dst, n) && temp_ok(*val, n),
    }
}

/// The blocks that a phi names are among the first `n`.
pub open spec fn phi_ok(i: &Instruction, n: nat) -> bool {
    match i {
        Instruction::Phi { incomings, .. } => preds_ok(incomings, n),
        _ => true,
    }
}

/// What is among the first `n` is among the first `m`.
pub broadcast proof fn phi_mono(i: &Instruction, n: nat, m: nat)
    requires
        #[trigger] phi_ok(i, n),
        n <= m,
    ensures
        #[trigger] phi_ok(i, m),
{
    broadcast use preds_mono;
}

/// What is among the first `n` is among the first `m`.
pub broadcast proof fn instr_mono(i: &Instruction, n: nat, m: nat)
    requires
        #[trigger] instr_ok(i, n),
        n <= m,
    ensures
        #[trigger] instr_ok(i, m),
{
    broadcast use {temps_mono, named_mono, keyed_mono, incomings_mono};
}

/// The temporaries that the end of a block mentions are among the first `n`.
pub open spec fn term_temps_ok(t: &Terminator, n: nat) -> bool {
    match t {
        Terminator::CondJump { cond, .. } => temp_ok(*cond, n),
        Terminator::Return(r) => otemp_ok(*r, n),
        Terminator::TailCall { args } => temps_ok(args, n),
        _ => true,
    }
}

pub broadcast group group_valid {
    temps_mono,
    temps_cons,
    otemps_mono,
    otemps_cons,
    typed_mono,
    typed_cons,
    named_mono,
    named_cons,
    keyed_mono,
    keyed_cons,
    incomings_mono,
    incomings_cons,
    owned_mono,
    owned_cons,
    scopes_mono,
    scopes_cons,
    slots_mono,
    slots_cons,
    cells_mono,
    cells_cons,
    packed_mono,
    packed_cons,
    children_mono,
    children_cons,
    ends_mono,
    ends_cons,
    code_mono,
    code_cons,
    preds_mono,
    preds_cons,
    end_preds_mono,
    end_preds_cons,
    block_ids_mono,
    block_ids_cons,
    phis_mono,
    phis_cons,
    instr_mono,
    phi_mono,
}

} // verus!
