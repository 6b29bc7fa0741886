//! The function under construction: blocks, temporaries, slots and owned references.

use crate::analysis::{
    BranchVars, branch_vars, branch_vars_stmts, captured_mutably, captured_mutably_stmts,
    collect_branch_reassigned_var_slots_expr, collect_branch_reassigned_var_slots_stmts,
    collect_mutable_capture_slots_expr, collect_mutable_capture_slots_stmts, expr_is_fresh_alloc,
};
use crate::ast::{Span, TypedExpr, TypedStmt};
use crate::defs::{def_of, defines, defs_all, defs_in, defs_push, defs_update, no_later_defs};
use crate::ir::{
    BasicBlock, BlockId, CallTarget, Const, FuncId, Function, Incoming, Instruction, Intrinsic,
    IrParam, Spanned, Temp, Terminator, const_type,
};
use crate::list::{List, cons, from_seq, from_seq_view, list_of, prepend, share};
use crate::repr::{is_rc_type, is_union_ty, needs_owning};
use crate::text::Text;
use crate::types::Type;
use crate::valid::{
    callee_ok, cells_ok, code_ok, group_valid, incomings_ok, instr_ok, owned_ok, owned_tail, phi_ok,
    phis_ok, preds_ok, scopes_ok, scopes_tail, slots_ok, temp_ok, temps_ok, temps_tail,
    term_temps_ok,
};
use std::collections::HashSet;
use std::rc::Rc;
use vstd::prelude::*;

verus! {

broadcast use group_valid;

/// A value filed under a slot.
pub struct Entry<V> {
    pub slot: usize,
    pub value: V,
}

/// The value that was filed last under the slot.
pub open spec fn find_spec<V>(l: &List<Entry<V>>, slot: usize) -> Option<V>
    decreases l,
{
    match l {
        List::Nil => None,
        List::Cons(n) => if n.head.slot == slot {
            Some(n.head.value)
        } else {
            find_spec(&n.tail, slot)
        },
    }
}

/// Looks up the value that was filed last under the slot.
pub fn find<V>(l: &List<Entry<V>>, slot: usize) -> (r: Option<&V>)
    ensures
        match r {
            Some(v) => find_spec(l, slot) == Some(*v),
            None => find_spec(l, slot) is None,
        },
    decreases l,
{
    match l {
        List::Nil => None,
        List::Cons(n) => if n.head.slot == slot {
            Some(&n.head.value)
        } else {
            find(&n.tail, slot)
        },
    }
}

/// The temporary is in the list.
pub open spec fn has_temp_spec(l: &List<Temp>, t: Temp) -> bool
    decreases l,
{
    match l {
        List::Nil => false,
        List::Cons(n) => n.head == t || has_temp_spec(&n.tail, t),
    }
}

/// Whether the temporary is in the list.
#[verifier::when_used_as_spec(has_temp_spec)]
pub fn has_temp(l: &List<Temp>, t: Temp) -> (r: bool)
    ensures
        r == has_temp_spec(l, t),
    decreases l,
{
    match l {
        List::Nil => false,
        List::Cons(n) => n.head == t || has_temp(&n.tail, t),
    }
}

/// The list without the temporary.
pub open spec fn without_temp_spec(l: &List<Temp>, t: Temp) -> List<Temp>
    decreases l,
{
    match l {
        List::Nil => List::Nil,
        List::Cons(n) => if n.head == t {
            without_temp_spec(&n.tail, t)
        } else {
            cons(n.head, without_temp_spec(&n.tail, t))
        },
    }
}

/// The list without the temporary.
pub fn without_temp(l: &List<Temp>, t: Temp) -> (r: List<Temp>)
    ensures
        r == without_temp_spec(l, t),
    decreases l,
{
    match l {
        List::Nil => List::Nil,
        List::Cons(n) => if n.head == t {
            without_temp(&n.tail, t)
        } else {
            prepend(n.head, without_temp(&n.tail, t))
        },
    }
}

/// A reference that a scope has to give back.
pub struct Owned {
    pub temp: Temp,
    pub ty: Type,
}

/// What a scope has to give back when it ends, last registered first: references, and boxes
/// of which only the shell is freed.
pub struct Scope {
    pub owned: List<Owned>,
    pub shells: List<Temp>,
}

/// A heap cell that the function has made.
pub struct Cell {
    pub temp: Temp,
    pub ty: Type,
    pub block: BlockId,
}

/// A temporary that holds the same reference as another.
pub struct Alias {
    pub dst: Temp,
    pub src: Temp,
}

/// What is known about the function under construction apart from its blocks and
/// temporaries.
pub struct Env {
    pub id: FuncId,
    pub name: Option<Text>,
    pub params: List<IrParam>,
    pub is_closure: bool,
    pub ret_ty: Type,
    pub current_block: BlockId,
    pub current_span: Option<Span>,
    /// The temporaries that hold the variables.
    pub slots: List<Entry<Temp>>,
    /// The variables that name operations of the run-time system.
    pub intrinsic_slots: List<Entry<String>>,
    /// The open scopes, innermost first.
    pub scopes: List<Scope>,
    pub diverged_blocks: List<BlockId>,
    /// The variables that live in heap cells, with the types of the cells.
    pub cell_slots: List<Entry<Type>>,
    /// The heap cells made so far, last first.
    pub created_cells: List<Cell>,
    pub escaping_cells: List<Temp>,
    pub escape_alias: List<Alias>,
    /// Counters of ranges that start at a constant that is not negative.
    pub nonneg_range_ivs: List<Temp>,
    /// Integer constants that are not negative.
    pub nonneg_consts: List<Temp>,
    /// The function literals that variables are bound to.
    pub local_fn_exprs: List<Entry<Rc<TypedExpr>>>,
    /// A block or a temporary was asked for when no number was left for it.
    pub exhausted: bool,
}

/// A function under construction, as a mathematical value.
pub struct FState {
    pub blocks: Seq<BasicBlock>,
    pub temp_types: Seq<Type>,
    /// The variables that have to live in heap cells, as far as bodies have been scanned.
    pub cell_vars: Set<usize>,
    pub env: Env,
}

/// A function under construction.
pub struct FuncBuilder {
    pub blocks: Vec<BasicBlock>,
    pub temp_types: Vec<Type>,
    /// The variables that have to live in heap cells, as far as bodies have been scanned.
    pub cell_vars: HashSet<usize>,
    pub env: Env,
}

/// From `a` to `b` no definition of a temporary of `a` has been added or has gone, those in
/// `but` apart. Nothing is said where the temporaries have run out.
pub open spec fn steady_but(a: FState, b: FState, but: Set<Temp>) -> bool {
    b.temp_types.len() < u32::MAX ==> forall|t: Temp|
        t.0 < a.temp_types.len() && !but.contains(t) ==> #[trigger] b.defs(t) == a.defs(t)
}

/// From `a` to `b` no definition of a temporary of `a` has been added or has gone.
pub open spec fn steady(a: FState, b: FState) -> bool {
    b.temp_types.len() < u32::MAX ==> forall|t: Temp|
        t.0 < a.temp_types.len() ==> #[trigger] b.defs(t) == a.defs(t)
}

/// The temporary was made between `a` and `b`, where the temporaries have not run out.
pub open spec fn newer(a: FState, b: FState, t: Temp) -> bool {
    b.temp_types.len() < u32::MAX ==> a.temp_types.len() <= t.0
}

/// No code defines the temporary, where the temporaries have not run out.
pub open spec fn undefined(b: FState, t: Temp) -> bool {
    b.temp_types.len() < u32::MAX ==> b.defs(t) == 0
}

/// What the instruction defines is not defined yet.
pub open spec fn may_define(b: FState, i: &Instruction) -> bool {
    match def_of(i) {
        Some(t) => undefined(b, t),
        None => true,
    }
}

/// What the instruction defines.
pub open spec fn defined_by(i: &Instruction) -> Set<Temp> {
    match def_of(i) {
        Some(t) => set![t],
        None => Set::empty(),
    }
}

/// From `a` to `b` the function has grown, and no definition of what was there has been added.
pub open spec fn grown(a: FState, b: FState, n: int) -> bool {
    grew(a, b, n) && steady(a, b)
}

/// From `a` to `b` the function has grown: no block and no temporary has gone, and `b` has
/// `n` more open scopes.
pub open spec fn grew(a: FState, b: FState, n: int) -> bool {
    &&& a.temp_types.len() <= b.temp_types.len()
    &&& a.blocks.len() <= b.blocks.len()
    &&& a.env.scopes.len() + n == b.env.scopes.len()
    &&& a.env.id == b.env.id
    &&& a.env.is_closure == b.env.is_closure
    &&& a.env.current_span == b.env.current_span
    &&& a.env.intrinsic_slots == b.env.intrinsic_slots
    &&& a.env.exhausted ==> b.env.exhausted
}

/// The function has grown, and what is mentioned still exists where it did.
pub open spec fn kept_in(a: FState, b: FState, n: int) -> bool {
    grown(a, b, n) && (a.wf() ==> b.wf())
}

/// The function has grown, the same scopes are open, and what is mentioned still exists where
/// it did.
pub open spec fn kept(a: FState, b: FState) -> bool {
    kept_in(a, b, 0)
}

/// Every jump of a finished function goes to one of its own blocks, every phi names its own
/// blocks, every temporary that its code mentions is one of its own, and none is defined
/// twice, where they have not run out.
pub open spec fn function_ok(f: Function) -> bool {
    &&& forall|i: int|
        0 <= i < f.blocks.view().len() ==> {
            let block = #[trigger] f.blocks.view()[i];
            &&& term_ok(block.term, f.blocks.view().len())
            &&& phis_ok(&block.code, f.blocks.view().len())
            &&& code_ok(&block.code, f.temp_types.view().len())
            &&& term_temps_ok(&block.term, f.temp_types.view().len())
        }
    &&& f.temp_types.view().len() < u32::MAX ==> forall|t: Temp| #[trigger]
        defs_all(f.blocks.view(), t) <= 1
}

/// The blocks that a terminator jumps to are among the first `n`.
pub open spec fn term_ok(term: Terminator, n: nat) -> bool {
    match term {
        Terminator::Jump(block) => block.0 < n,
        Terminator::CondJump { then_block, else_block, .. } => then_block.0 < n && else_block.0 < n,
        _ => true,
    }
}

impl FState {
    /// The current block exists, every block that a jump goes to or that a phi names exists,
    /// and so does every temporary that is mentioned anywhere; none is defined twice.
    pub open spec fn wf(self) -> bool {
        &&& self.env.current_block.0 < self.blocks.len()
        &&& self.jumps_ok()
        &&& self.phis_valid()
        &&& self.temps_valid()
        &&& self.single()
    }

    /// How often the code defines the temporary.
    #[verifier::opaque]
    pub open spec fn defs(self, t: Temp) -> nat {
        defs_all(self.blocks, t)
    }

    /// No temporary is defined more than once, where the temporaries have not run out.
    #[verifier::opaque]
    pub open spec fn single(self) -> bool {
        self.temp_types.len() < u32::MAX ==> forall|t: Temp| #[trigger]
            defs_all(self.blocks, t) <= 1
    }

    /// Every temporary that the code mentions, that holds a variable or a cell, or that a
    /// scope has to give back, exists.
    pub open spec fn temps_valid(self) -> bool {
        let n = self.temp_types.len();
        &&& slots_ok(&self.env.slots, n)
        &&& scopes_ok(&self.env.scopes, n)
        &&& cells_ok(&self.env.created_cells, n)
        &&& self.code_valid()
    }

    /// Every temporary that the code mentions exists.
    #[verifier::opaque]
    pub open spec fn code_valid(self) -> bool {
        forall|i: int|
            0 <= i < self.blocks.len() ==> code_ok(
                &(#[trigger] self.blocks[i]).code,
                self.temp_types.len(),
            ) && term_temps_ok(&self.blocks[i].term, self.temp_types.len())
    }

    /// Every block that a phi names exists.
    #[verifier::opaque]
    pub open spec fn phis_valid(self) -> bool {
        forall|i: int|
            0 <= i < self.blocks.len() ==> phis_ok(
                &(#[trigger] self.blocks[i]).code,
                self.blocks.len(),
            )
    }

    /// Every block that a jump goes to exists.
    #[verifier::opaque]
    pub open spec fn jumps_ok(self) -> bool {
        forall|i: int|
            0 <= i < self.blocks.len()
                ==> term_ok((#[trigger] self.blocks[i]).term, self.blocks.len())
    }

    /// The recorded type of a temporary.
    pub open spec fn temp_ty(self, t: Temp) -> Option<Type> {
        if t.0 < self.temp_types.len() {
            Some(self.temp_types[t.0 as int])
        } else {
            None
        }
    }

    /// The recorded type of a temporary, or `other`.
    pub open spec fn temp_ty_or(self, t: Temp, other: Type) -> Type {
        match self.temp_ty(t) {
            Some(ty) => ty,
            None => other,
        }
    }

    /// The temporary that holds the variable.
    pub open spec fn slot(self, slot: usize) -> Option<Temp> {
        find_spec(&self.env.slots, slot)
    }

    /// A new temporary.
    #[verifier::opaque]
    pub open spec fn alloc_temp(self, ty: Type) -> (FState, Temp) {
        if self.temp_types.len() < u32::MAX {
            (
                FState { temp_types: self.temp_types.push(ty), ..self },
                Temp(self.temp_types.len() as u32),
            )
        } else {
            (FState { env: Env { exhausted: true, ..self.env }, ..self }, Temp(0))
        }
    }

    /// Another type for an existing temporary.
    #[verifier::opaque]
    pub open spec fn retype(self, t: Temp, ty: Type) -> FState {
        if t.0 < self.temp_types.len() {
            FState { temp_types: self.temp_types.update(t.0 as int, ty), ..self }
        } else {
            self
        }
    }

    /// One more instruction at the end of the current block.
    #[verifier::opaque]
    pub open spec fn emit(self, instr: Instruction) -> FState {
        let k = self.env.current_block.0 as int;
        if k < self.blocks.len() {
            let old = self.blocks[k];
            let new = BasicBlock {
                code: cons(Rc::new(Spanned { instr, span: self.env.current_span }), old.code),
                ..old
            };
            FState { blocks: self.blocks.update(k, new), ..self }
        } else {
            self
        }
    }

    /// A new, empty block.
    #[verifier::opaque]
    pub open spec fn alloc_block(self, label: &'static str) -> (FState, BlockId) {
        if self.blocks.len() < u32::MAX {
            let block = BasicBlock {
                label,
                code: List::Nil,
                term: Terminator::Unreachable,
                span: self.env.current_span,
            };
            (FState { blocks: self.blocks.push(block), ..self }, BlockId(self.blocks.len() as u32))
        } else {
            (FState { env: Env { exhausted: true, ..self.env }, ..self }, BlockId(0))
        }
    }

    /// Code goes to the end of `block` from now on.
    #[verifier::opaque]
    pub open spec fn switch_to(self, block: BlockId) -> FState {
        FState { env: Env { current_block: block, ..self.env }, ..self }
    }

    /// The current block ends.
    #[verifier::opaque]
    pub open spec fn terminate(self, term: Terminator) -> FState {
        let k = self.env.current_block.0 as int;
        if k < self.blocks.len() {
            let new = BasicBlock { term, ..self.blocks[k] };
            FState { blocks: self.blocks.update(k, new), ..self }
        } else {
            self
        }
    }

    /// The current block has been ended.
    #[verifier::opaque]
    pub open spec fn is_terminated(self) -> bool {
        let k = self.env.current_block.0 as int;
        k < self.blocks.len() && !(self.blocks[k].term is Unreachable)
    }

    /// A new temporary that holds a constant.
    #[verifier::opaque]
    pub open spec fn const_temp(self, c: Const) -> (FState, Temp) {
        let (b, dst) = self.alloc_temp(const_type(&c));
        let b = b.emit(Instruction::Const { dst, value: c });
        let b = if c matches Const::Int(v, _) && v >= 0 {
            FState { env: Env { nonneg_consts: cons(dst, b.env.nonneg_consts), ..b.env }, ..b }
        } else {
            b
        };
        (b, dst)
    }

    /// A scope opens.
    #[verifier::opaque]
    pub open spec fn push_scope(self) -> FState {
        let scope = Scope { owned: List::Nil, shells: List::Nil };
        FState { env: Env { scopes: cons(scope, self.env.scopes), ..self.env }, ..self }
    }

    /// The innermost scope goes, with nothing given back.
    #[verifier::opaque]
    pub open spec fn discard_scope(self) -> FState {
        match self.env.scopes {
            List::Nil => self,
            List::Cons(n) => FState { env: Env { scopes: n.tail, ..self.env }, ..self },
        }
    }

    /// The innermost scope owns a reference, where the type has references.
    #[verifier::opaque]
    pub open spec fn register_owned(self, temp: Temp, ty: Type) -> FState {
        if needs_owning(&ty) {
            match self.env.scopes {
                List::Nil => self,
                List::Cons(n) => {
                    let scope = Scope {
                        owned: cons(Owned { temp, ty }, n.head.owned),
                        shells: n.head.shells,
                    };
                    FState { env: Env { scopes: cons(scope, n.tail), ..self.env }, ..self }
                },
            }
        } else {
            self
        }
    }

    /// The innermost scope owns the shell of a box.
    #[verifier::opaque]
    pub open spec fn register_box_shell(self, temp: Temp) -> FState {
        match self.env.scopes {
            List::Nil => self,
            List::Cons(n) => {
                let scope = Scope { owned: n.head.owned, shells: cons(temp, n.head.shells) };
                FState { env: Env { scopes: cons(scope, n.tail), ..self.env }, ..self }
            },
        }
    }

    /// One registration of the reference is taken back, from the innermost scope that has
    /// one.
    #[verifier::opaque]
    pub open spec fn unregister_owned(self, temp: Temp) -> FState {
        FState { env: Env { scopes: scopes_without(&self.env.scopes, temp), ..self.env }, ..self }
    }

    /// Some open scope owns the reference.
    #[verifier::opaque]
    pub open spec fn is_owned_in_scope(self, temp: Temp) -> bool {
        some_scope_owns(&self.env.scopes, temp)
    }

    /// The innermost scope owns the reference.
    #[verifier::opaque]
    pub open spec fn is_owned_in_current_scope(self, temp: Temp) -> bool {
        match self.env.scopes {
            List::Nil => false,
            List::Cons(n) => owns(&n.head.owned, temp),
        }
    }

    /// The innermost scope ends: what it owns and is not kept is given back.
    #[verifier::opaque]
    pub open spec fn pop_scope_releasing_keep(self, keep: &List<Temp>) -> FState {
        match self.env.scopes {
            List::Nil => self,
            List::Cons(n) => {
                let b = if self.is_terminated() {
                    self
                } else {
                    release_all(self, &n.head.owned, keep)
                };
                let b = if self.is_terminated() {
                    b
                } else {
                    free_shells(b, &n.head.shells, keep)
                };
                b.discard_scope()
            },
        }
    }

    /// As `pop_scope_releasing_keep`, and the enclosing scope takes over what is kept.
    #[verifier::opaque]
    pub open spec fn pop_scope_releasing_keep_transfer(self, keep: &List<Temp>) -> FState {
        match self.env.scopes {
            List::Nil => self,
            List::Cons(n) => take_over(self.pop_scope_releasing_keep(keep), &n.head.owned, keep),
        }
    }

    /// `dst` holds the reference of `src`.
    #[verifier::opaque]
    pub open spec fn record_escape_alias(self, dst: Temp, src: Temp) -> FState {
        FState {
            env: Env { escape_alias: cons(Alias { dst, src }, self.env.escape_alias), ..self.env },
            ..self
        }
    }

    /// The references that a tail call hands on: one for each argument that is not a parameter
    /// passed on unchanged, and one for each value that such an argument is an alias of.
    pub open spec fn handed_on(self, args: &List<Temp>) -> List<Temp> {
        with_alias_sources(
            &self.env.escape_alias,
            moving_args(args, &own_params(self.env.params, self.env.is_closure)),
        )
    }

    /// Before a tail call everything that the open scopes own is given back, apart from the
    /// references that the call hands on.
    #[verifier::opaque]
    pub open spec fn release_owned_for_tail_call(self, args: &List<Temp>) -> FState {
        release_scopes(self, &self.env.scopes, self.handed_on(args), args)
    }

    /// The reference goes into a container: a fresh one is handed over, another one is
    /// counted once more.
    #[verifier::opaque]
    pub open spec fn transfer_into_container(
        self,
        t: Temp,
        src: &TypedExpr,
        op_consumes_union: bool,
    ) -> FState {
        let ty = self.temp_ty_or(t, src.ty());
        if (is_union_ty(&ty) && op_consumes_union) || (!is_union_ty(&ty) && is_rc_type(&ty)) {
            if expr_is_fresh_alloc(src) && self.is_owned_in_scope(t) {
                self.unregister_owned(t)
            } else {
                self.emit(Instruction::Retain { val: t, ty })
            }
        } else {
            self
        }
    }

    /// In the phi that defines `phi`, what came from `old_pred` comes from `new_pred`.
    #[verifier::opaque]
    pub open spec fn patch_phi_incoming(
        self,
        header: BlockId,
        phi: Temp,
        old_pred: BlockId,
        new_pred: BlockId,
    ) -> FState {
        let k = header.0 as int;
        if k < self.blocks.len() {
            let old = self.blocks[k];
            let new = BasicBlock { code: repred(&old.code, phi, old_pred, new_pred), ..old };
            FState { blocks: self.blocks.update(k, new), ..self }
        } else {
            self
        }
    }

    /// In the phi that defines `phi`, `new_val` comes from `new_pred` in place of `old_val`.
    #[verifier::opaque]
    pub open spec fn patch_phi_incoming_value(
        self,
        header: BlockId,
        phi: Temp,
        old_val: Temp,
        new_val: Temp,
        new_pred: BlockId,
    ) -> FState {
        let k = header.0 as int;
        if k < self.blocks.len() {
            let old = self.blocks[k];
            let new = BasicBlock { code: reval(&old.code, phi, old_val, new_val, new_pred), ..old };
            FState { blocks: self.blocks.update(k, new), ..self }
        } else {
            self
        }
    }

    /// The variable is held by the temporary from now on.
    #[verifier::opaque]
    pub open spec fn set_slot(self, slot: usize, value: Temp) -> FState {
        FState {
            env: Env { slots: cons(Entry { slot, value }, self.env.slots), ..self.env },
            ..self
        }
    }

    /// A value in another representation.
    #[verifier::opaque]
    pub open spec fn coerce(self, src: Temp, from_ty: &Type, to_ty: &Type) -> (FState, Temp) {
        let (b, dst) = self.alloc_temp(*to_ty);
        (b.emit(Instruction::Coerce { dst, src, from_ty: *from_ty, to_ty: *to_ty }), dst)
    }

    /// The result of a call.
    #[verifier::opaque]
    pub open spec fn call(self, callee: CallTarget, args: List<Temp>, ret_ty: &Type) -> (
        FState,
        Temp,
    ) {
        let (b, dst) = self.alloc_temp(*ret_ty);
        (b.emit(Instruction::Call { dst, callee, args, ret_ty: *ret_ty }), dst)
    }

    /// The result of an operation of the run-time system.
    #[verifier::opaque]
    pub open spec fn call_intrinsic(
        self,
        intrinsic: Intrinsic,
        args: List<Temp>,
        ret_ty: &Type,
    ) -> (FState, Temp) {
        let (b, dst) = self.alloc_temp(*ret_ty);
        (b.emit(Instruction::CallIntrinsic { dst, intrinsic, args, ret_ty: *ret_ty }), dst)
    }

    /// The result of a binary operation.
    #[verifier::opaque]
    pub open spec fn binary(
        self,
        op: crate::ast::BinOp,
        lhs: Temp,
        rhs: Temp,
        operand_ty: &Type,
        ty: &Type,
    ) -> (FState, Temp) {
        let (b, dst) = self.alloc_temp(*ty);
        (b.emit(Instruction::Binary { dst, op, lhs, rhs, operand_ty: *operand_ty, ty: *ty }), dst)
    }

    /// A copy of a box.
    #[verifier::opaque]
    pub open spec fn clone_box(self, src: Temp, ty: &Type) -> (FState, Temp) {
        let (b, dst) = self.alloc_temp(*ty);
        (b.emit(Instruction::CloneBox { dst, src, ty: *ty }), dst)
    }

    /// An element of a container. `nonneg` tells that the key counts from a constant that is not
    /// negative.
    #[verifier::opaque]
    pub open spec fn index(
        self,
        object: Temp,
        key: Temp,
        obj_ty: &Type,
        key_ty: &Type,
        result_ty: &Type,
        nonneg: bool,
    ) -> (FState, Temp) {
        let (b, dst) = self.alloc_temp(*result_ty);
        (
            b.emit(
                Instruction::Index {
                    dst,
                    object,
                    key,
                    obj_ty: *obj_ty,
                    key_ty: *key_ty,
                    result_ty: *result_ty,
                    nonneg,
                },
            ),
            dst,
        )
    }

    /// The value of a heap cell.
    #[verifier::opaque]
    pub open spec fn cell_get(self, cell: Temp, ty: &Type) -> (FState, Temp) {
        let (b, dst) = self.alloc_temp(*ty);
        (b.emit(Instruction::CellGet { dst, cell, ty: *ty }), dst)
    }

    /// The logical negation.
    #[verifier::opaque]
    pub open spec fn not(self, operand: Temp) -> (FState, Temp) {
        let (b, dst) = self.alloc_temp(Type::Bool);
        (
            b.emit(
                Instruction::Unary { dst, op: crate::ir::IrUnaryOp::Not, operand, ty: Type::Bool },
            ),
            dst,
        )
    }

    /// The type of the heap cell that the variable lives in.
    pub open spec fn cell_slot(self, slot: usize) -> Option<Type> {
        find_spec(&self.env.cell_slots, slot)
    }

    /// The operation of the run-time system that the variable names.
    pub open spec fn intrinsic(self, slot: usize) -> Option<String> {
        find_spec(&self.env.intrinsic_slots, slot)
    }

    /// The function literal that the variable is bound to.
    pub open spec fn local_fn(self, slot: usize) -> Option<Rc<TypedExpr>> {
        find_spec(&self.env.local_fn_exprs, slot)
    }

    /// The temporary is an integer constant that is not negative.
    pub open spec fn temp_is_nonneg_int_const(self, t: Temp) -> bool {
        has_temp(&self.env.nonneg_consts, t)
    }

    /// The temporary is the counter of a loop over a range that starts at zero or above.
    pub open spec fn is_nonneg(self, t: Temp) -> bool {
        has_temp(&self.env.nonneg_range_ivs, t)
    }

    /// The current block made a heap cell.
    #[verifier::opaque]
    pub open spec fn add_cell(self, temp: Temp, ty: Type) -> FState {
        let cell = Cell { temp, ty, block: self.env.current_block };
        FState {
            env: Env { created_cells: cons(cell, self.env.created_cells), ..self.env },
            ..self
        }
    }

    /// The heap cell outlives the function.
    #[verifier::opaque]
    pub open spec fn mark_escaping(self, temp: Temp) -> FState {
        FState {
            env: Env { escaping_cells: cons(temp, self.env.escaping_cells), ..self.env },
            ..self
        }
    }

    /// The variable lives in a heap cell.
    #[verifier::opaque]
    pub open spec fn set_cell_slot(self, slot: usize, value: Type) -> FState {
        FState {
            env: Env { cell_slots: cons(Entry { slot, value }, self.env.cell_slots), ..self.env },
            ..self
        }
    }

    /// The loop counter starts at a constant that is not negative.
    #[verifier::opaque]
    pub open spec fn add_nonneg(self, temp: Temp) -> FState {
        FState {
            env: Env { nonneg_range_ivs: cons(temp, self.env.nonneg_range_ivs), ..self.env },
            ..self
        }
    }

    /// Nothing is known about the loop counter any more.
    #[verifier::opaque]
    pub open spec fn drop_nonneg(self, temp: Temp) -> FState {
        FState {
            env: Env {
                nonneg_range_ivs: without_temp_spec(&self.env.nonneg_range_ivs, temp),
                ..self.env
            },
            ..self
        }
    }

    /// The variable is bound to a function literal.
    #[verifier::opaque]
    pub open spec fn add_local_fn(self, slot: usize, value: Rc<TypedExpr>) -> FState {
        FState {
            env: Env {
                local_fn_exprs: cons(Entry { slot, value }, self.env.local_fn_exprs),
                ..self.env
            },
            ..self
        }
    }

    /// The variables have to live in heap cells that the body of a function assigns to inside a
    /// branch while they hold counted values, and those that a function inside it may assign to.
    #[verifier::opaque]
    pub open spec fn scan_body(self, body: &TypedExpr) -> FState {
        let start = BranchVars { owning: Set::empty(), found: self.cell_vars };
        FState {
            cell_vars: branch_vars(body, false, start).found.union(
                Set::new(|slot: usize| captured_mutably(body, slot)),
            ),
            ..self
        }
    }

    /// As for the body of a function, of statements in a row.
    #[verifier::opaque]
    pub open spec fn scan_stmts(self, stmts: &List<TypedStmt>) -> FState {
        let start = BranchVars { owning: Set::empty(), found: self.cell_vars };
        FState {
            cell_vars: branch_vars_stmts(stmts, false, start).found.union(
                Set::new(|slot: usize| captured_mutably_stmts(stmts, slot)),
            ),
            ..self
        }
    }

    /// The variable has to live in a heap cell.
    pub open spec fn is_cell_var(self, slot: usize) -> bool {
        self.cell_vars.contains(slot)
    }

    /// Control does not reach the block.
    #[verifier::opaque]
    pub open spec fn mark_diverged(self, block: BlockId) -> FState {
        FState {
            env: Env { diverged_blocks: cons(block, self.env.diverged_blocks), ..self.env },
            ..self
        }
    }

    /// The parameters of the function.
    #[verifier::opaque]
    pub open spec fn set_params(self, params: List<IrParam>) -> FState {
        FState { env: Env { params, ..self.env }, ..self }
    }

    /// A new function is begun; the one under construction waits.
    #[verifier::opaque]
    pub open spec fn enter_function(
        self,
        id: FuncId,
        name: Option<Text>,
        is_closure: bool,
        ret_ty: Type,
        span: Span,
    ) -> (FState, FState) {
        let new = FuncBuilder::new_spec(id, name, ret_ty, self.env.intrinsic_slots);
        let entry = BasicBlock { span: Some(span), ..new.blocks[0] };
        (
            FState {
                blocks: new.blocks.update(0, entry),
                env: Env { is_closure, ..new.env },
                ..new
            },
            self,
        )
    }

    /// The function is finished with a result type; the one that waited goes on.
    #[verifier::opaque]
    pub open spec fn leave_function(self, outer: FState, ret_ty: Type) -> (FState, Function) {
        let done = FState { env: Env { ret_ty, ..self.env }, ..self };
        (outer, FuncBuilder::finish_spec(done))
    }

    /// The variables are held as in `slots`.
    #[verifier::opaque]
    pub open spec fn set_slots(self, slots: List<Entry<Temp>>) -> FState {
        FState { env: Env { slots, ..self.env }, ..self }
    }
}

/// The list has a registration of the reference.
pub open spec fn owns(l: &List<Owned>, t: Temp) -> bool
    decreases l,
{
    match l {
        List::Nil => false,
        List::Cons(n) => n.head.temp == t || owns(&n.tail, t),
    }
}

/// Some scope has a registration of the reference.
pub open spec fn some_scope_owns(l: &List<Scope>, t: Temp) -> bool
    decreases l,
{
    match l {
        List::Nil => false,
        List::Cons(n) => owns(&n.head.owned, t) || some_scope_owns(&n.tail, t),
    }
}

/// The list without the last registration of the reference.
pub open spec fn owned_without(l: &List<Owned>, t: Temp) -> List<Owned>
    decreases l,
{
    match l {
        List::Nil => List::Nil,
        List::Cons(n) => if n.head.temp == t {
            n.tail
        } else {
            cons(n.head, owned_without(&n.tail, t))
        },
    }
}

/// The scopes without the last registration of the reference.
pub open spec fn scopes_without(l: &List<Scope>, t: Temp) -> List<Scope>
    decreases l,
{
    match l {
        List::Nil => List::Nil,
        List::Cons(n) => if owns(&n.head.owned, t) {
            cons(Scope { owned: owned_without(&n.head.owned, t), shells: n.head.shells }, n.tail)
        } else {
            cons(n.head, scopes_without(&n.tail, t))
        },
    }
}

/// Every reference in the list that is not kept is given back.
pub open spec fn release_all(b: FState, l: &List<Owned>, keep: &List<Temp>) -> FState
    decreases l,
{
    match l {
        List::Nil => b,
        List::Cons(n) => {
            let b = if has_temp(keep, n.head.temp) {
                b
            } else {
                b.emit(Instruction::Release { val: n.head.temp, ty: n.head.ty })
            };
            release_all(b, &n.tail, keep)
        },
    }
}

/// Every shell in the list that is not kept is freed.
pub open spec fn free_shells(b: FState, l: &List<Temp>, keep: &List<Temp>) -> FState
    decreases l,
{
    match l {
        List::Nil => b,
        List::Cons(n) => {
            let b = if has_temp(keep, n.head) {
                b
            } else {
                b.emit(Instruction::FreeBoxShell { val: n.head })
            };
            free_shells(b, &n.tail, keep)
        },
    }
}

/// The innermost scope registers every reference in the list that is kept.
pub open spec fn take_over(b: FState, l: &List<Owned>, keep: &List<Temp>) -> FState
    decreases l,
{
    match l {
        List::Nil => b,
        List::Cons(n) => {
            let b = take_over(b, &n.tail, keep);
            if has_temp(keep, n.head.temp) {
                b.register_owned(n.head.temp, n.head.ty)
            } else {
                b
            }
        },
    }
}

/// The parameters that a call of the function passes arguments for: the environment of a
/// closure is not one of them.
pub open spec fn own_params(params: List<IrParam>, is_closure: bool) -> List<IrParam> {
    match params {
        List::Nil => List::Nil,
        List::Cons(n) => if is_closure {
            n.tail
        } else {
            params
        },
    }
}

/// The arguments of a tail call that are not the parameter at their own place, passed on
/// unchanged.
pub open spec fn moving_args(args: &List<Temp>, params: &List<IrParam>) -> List<Temp>
    decreases args,
{
    match args {
        List::Nil => List::Nil,
        List::Cons(a) => match params {
            List::Nil => *args,
            List::Cons(p) => if a.head == p.head.temp {
                moving_args(&a.tail, &p.tail)
            } else {
                cons(a.head, moving_args(&a.tail, &p.tail))
            },
        },
    }
}

/// What one of `args` is an alias of, with `args` behind.
pub open spec fn with_alias_sources(l: &List<Alias>, args: List<Temp>) -> List<Temp>
    decreases l,
{
    match l {
        List::Nil => args,
        List::Cons(n) => if has_temp(&args, n.head.dst) {
            cons(n.head.src, with_alias_sources(&n.tail, args))
        } else {
            with_alias_sources(&n.tail, args)
        },
    }
}

/// The list without one occurrence of the temporary.
pub open spec fn without_one(l: &List<Temp>, t: Temp) -> List<Temp>
    decreases l,
{
    match l {
        List::Nil => List::Nil,
        List::Cons(n) => if n.head == t {
            n.tail
        } else {
            cons(n.head, without_one(&n.tail, t))
        },
    }
}

/// Every reference in the list is given back, apart from one for each temporary in `keep`.
/// What is left of `keep` is returned.
pub open spec fn release_unkept(b: FState, l: &List<Owned>, keep: List<Temp>) -> (
    FState,
    List<Temp>,
)
    decreases l,
{
    match l {
        List::Nil => (b, keep),
        List::Cons(n) => if has_temp(&keep, n.head.temp) {
            release_unkept(b, &n.tail, without_one(&keep, n.head.temp))
        } else {
            release_unkept(
                b.emit(Instruction::Release { val: n.head.temp, ty: n.head.ty }),
                &n.tail,
                keep,
            )
        },
    }
}

/// What the scopes own is given back, apart from one reference for each temporary in `keep`
/// and from the shells of the arguments.
pub open spec fn release_scopes(
    b: FState,
    l: &List<Scope>,
    keep: List<Temp>,
    args: &List<Temp>,
) -> FState
    decreases l,
{
    match l {
        List::Nil => b,
        List::Cons(n) => {
            let (b, keep) = release_unkept(b, &n.head.owned, keep);
            let b = free_shells(b, &n.head.shells, args);
            release_scopes(b, &n.tail, keep, args)
        },
    }
}

/// The incomings with `new_pred` in place of `old_pred`.
pub open spec fn repred_incomings(
    l: &List<Incoming>,
    old_pred: BlockId,
    new_pred: BlockId,
) -> List<Incoming>
    decreases l,
{
    match l {
        List::Nil => List::Nil,
        List::Cons(n) => cons(
            Incoming {
                val: n.head.val,
                pred: if n.head.pred == old_pred {
                    new_pred
                } else {
                    n.head.pred
                },
            },
            repred_incomings(&n.tail, old_pred, new_pred),
        ),
    }
}

/// The incomings with `new_val` from `new_pred` in place of `old_val`.
pub open spec fn reval_incomings(
    l: &List<Incoming>,
    old_val: Temp,
    new_val: Temp,
    new_pred: BlockId,
) -> List<Incoming>
    decreases l,
{
    match l {
        List::Nil => List::Nil,
        List::Cons(n) => cons(
            if n.head.val == old_val {
                Incoming { val: new_val, pred: new_pred }
            } else {
                n.head
            },
            reval_incomings(&n.tail, old_val, new_val, new_pred),
        ),
    }
}

/// The code with the predecessor of one phi changed.
pub open spec fn repred(
    code: &List<Rc<Spanned>>,
    phi: Temp,
    old_pred: BlockId,
    new_pred: BlockId,
) -> List<Rc<Spanned>>
    decreases code,
{
    match code {
        List::Nil => List::Nil,
        List::Cons(n) => match n.head.instr {
            Instruction::Phi { dst, ty, incomings } if dst == phi => cons(
                Rc::new(
                    Spanned {
                        instr: Instruction::Phi {
                            dst,
                            ty,
                            incomings: repred_incomings(&incomings, old_pred, new_pred),
                        },
                        span: n.head.span,
                    },
                ),
                n.tail,
            ),
            _ => cons(n.head, repred(&n.tail, phi, old_pred, new_pred)),
        },
    }
}

/// The code with one incoming of one phi changed.
pub open spec fn reval(
    code: &List<Rc<Spanned>>,
    phi: Temp,
    old_val: Temp,
    new_val: Temp,
    new_pred: BlockId,
) -> List<Rc<Spanned>>
    decreases code,
{
    match code {
        List::Nil => List::Nil,
        List::Cons(n) => match n.head.instr {
            Instruction::Phi { dst, ty, incomings } if dst == phi => cons(
                Rc::new(
                    Spanned {
                        instr: Instruction::Phi {
                            dst,
                            ty,
                            incomings: reval_incomings(&incomings, old_val, new_val, new_pred),
                        },
                        span: n.head.span,
                    },
                ),
                n.tail,
            ),
            _ => cons(n.head, reval(&n.tail, phi, old_val, new_val, new_pred)),
        },
    }
}


impl FuncBuilder {
    /// The function under construction as a mathematical value.
    pub open spec fn view(&self) -> FState {
        FState {
            blocks: self.blocks@,
            temp_types: self.temp_types@,
            cell_vars: self.cell_vars@,
            env: self.env,
        }
    }

    /// A function with one empty block and nothing in it.
    pub open spec fn new_spec(
        id: FuncId,
        name: Option<Text>,
        ret_ty: Type,
        intrinsic_slots: List<Entry<String>>,
    ) -> FState {
        FState {
            blocks: seq![
                BasicBlock {
                    label: "entry",
                    code: List::Nil,
                    term: Terminator::Unreachable,
                    span: None,
                },
            ],
            temp_types: Seq::empty(),
            cell_vars: Set::empty(),
            env: Env {
                id,
                name,
                params: List::Nil,
                is_closure: false,
                ret_ty,
                current_block: BlockId(0),
                current_span: None,
                slots: List::Nil,
                intrinsic_slots,
                scopes: List::Nil,
                diverged_blocks: List::Nil,
                cell_slots: List::Nil,
                created_cells: List::Nil,
                escaping_cells: List::Nil,
                escape_alias: List::Nil,
                nonneg_range_ivs: List::Nil,
                nonneg_consts: List::Nil,
                local_fn_exprs: List::Nil,
                exhausted: false,
            },
        }
    }

    /// Starts a function without parameters.
    pub fn new(
        id: FuncId,
        name: Option<Text>,
        ret_ty: Type,
        intrinsic_slots: List<Entry<String>>,
    ) -> (r: FuncBuilder)
        ensures
            r@ == FuncBuilder::new_spec(id, name, ret_ty, intrinsic_slots),
            r@.wf(),
    {
        let mut blocks: Vec<BasicBlock> = Vec::new();
        blocks.push(
            BasicBlock {
                label: "entry",
                code: List::Nil,
                term: Terminator::Unreachable,
                span: None,
            },
        );
        let r = FuncBuilder {
            blocks,
            temp_types: Vec::new(),
            cell_vars: HashSet::new(),
            env: Env {
                id,
                name,
                params: List::Nil,
                is_closure: false,
                ret_ty,
                current_block: BlockId(0),
                current_span: None,
                slots: List::Nil,
                intrinsic_slots,
                scopes: List::Nil,
                diverged_blocks: List::Nil,
                cell_slots: List::Nil,
                created_cells: List::Nil,
                escaping_cells: List::Nil,
                escape_alias: List::Nil,
                nonneg_range_ivs: List::Nil,
                nonneg_consts: List::Nil,
                local_fn_exprs: List::Nil,
                exhausted: false,
            },
        };
        assert(r@.blocks =~= FuncBuilder::new_spec(id, name, ret_ty, intrinsic_slots).blocks);
        assert(r@.temp_types =~= Seq::empty());
        assert(r@.jumps_ok() && r@.code_valid() && r@.phis_valid() && r@.single()) by {
            reveal(FState::jumps_ok);
            reveal(FState::code_valid);
            reveal(FState::phis_valid);
            reveal(FState::single);
            reveal_with_fuel(defs_all, 2);
        }
        r
    }

    /// The recorded type of a temporary.
    pub fn temp_ty(&self, t: Temp) -> (r: Option<Type>)
        ensures
            r == self@.temp_ty(t),
    {
        let k: usize = t.0 as usize;
        if k < self.temp_types.len() {
            Some(self.temp_types[k].dup())
        } else {
            None
        }
    }

    /// The recorded type of a temporary, or `other`.
    pub fn temp_ty_or(&self, t: Temp, other: Type) -> (r: Type)
        ensures
            r == self@.temp_ty_or(t, other),
    {
        match self.temp_ty(t) {
            Some(ty) => ty,
            None => other,
        }
    }

    /// The temporary that holds the variable.
    pub fn slot(&self, slot: usize) -> (r: Option<Temp>)
        ensures
            r == self@.slot(slot),
            self@.wf() && r is Some ==> temp_ok(r->0, self@.temp_types.len()),
    {
        proof {
            if self@.wf() {
                found_slot_ok(&self.env.slots, slot, self@.temp_types.len());
            }
        }
        match find(&self.env.slots, slot) {
            Some(t) => Some(*t),
            None => None,
        }
    }

    /// Makes a new temporary.
    pub fn alloc_temp(&mut self, ty: Type) -> (r: Temp)
        ensures
            (final(self)@, r) == old(self)@.alloc_temp(ty),
            kept(old(self)@, final(self)@),
            temp_ok(r, final(self)@.temp_types.len()),
            final(self)@.temp_types.len() < u32::MAX ==> r.0 == old(self)@.temp_types.len()
                && final(self)@.temp_types.len() == old(self)@.temp_types.len() + 1,
            old(self)@.wf() ==> undefined(final(self)@, r),
    {
        reveal(FState::alloc_temp);
        reveal(FState::jumps_ok);
        reveal(FState::code_valid);
        reveal(FState::phis_valid);
        reveal(FState::defs);
        reveal(FState::single);
        proof {
            if self@.wf() && self@.temp_types.len() < u32::MAX {
                no_later_defs(
                    self@.blocks,
                    self@.temp_types.len(),
                    Temp(self@.temp_types.len() as u32),
                );
            }
        }
        let n: usize = self.temp_types.len();
        if n < u32::MAX as usize {
            self.temp_types.push(ty);
            Temp(n as u32)
        } else {
            self.env.exhausted = true;
            Temp(0)
        }
    }

    /// Records another type for an existing temporary.
    pub fn retype(&mut self, t: Temp, ty: Type)
        ensures
            final(self)@ == old(self)@.retype(t, ty),
            kept(old(self)@, final(self)@),
    {
        reveal(FState::retype);
        reveal(FState::jumps_ok);
        reveal(FState::code_valid);
        reveal(FState::phis_valid);
        reveal(FState::defs);
        reveal(FState::single);
        let k: usize = t.0 as usize;
        if k < self.temp_types.len() {
            self.temp_types.set(k, ty);
        }
    }

    /// Puts an instruction at the end of the current block.
    pub fn emit(&mut self, instr: Instruction)
        ensures
            final(self)@ == old(self)@.emit(instr),
            grew(old(self)@, final(self)@, 0),
            steady_but(old(self)@, final(self)@, defined_by(&instr)),
            final(self)@.temp_types == old(self)@.temp_types,
            old(self)@.wf() && instr_ok(&instr, old(self)@.temp_types.len()) && phi_ok(
                &instr,
                old(self)@.blocks.len(),
            ) && may_define(old(self)@, &instr) ==> final(self)@.wf(),
    {
        reveal(FState::emit);
        reveal(FState::jumps_ok);
        reveal(FState::code_valid);
        reveal(FState::phis_valid);
        reveal(FState::defs);
        reveal(FState::single);
        proof {
            emit_defs(self@, instr);
        }
        let k: usize = self.env.current_block.0 as usize;
        if k < self.blocks.len() {
            let code = prepend(
                Rc::new(Spanned { instr, span: self.env.current_span }),
                self.blocks[k].code.dup(),
            );
            self.blocks[k].code = code;
            assert(self@.blocks =~= old(self)@.emit(instr).blocks);
        }
    }

    /// Makes a new, empty block.
    pub fn alloc_block(&mut self, label: &'static str) -> (r: BlockId)
        ensures
            (final(self)@, r) == old(self)@.alloc_block(label),
            kept(old(self)@, final(self)@),
            old(self)@.blocks.len() > 0 ==> r.0 < final(self)@.blocks.len(),
    {
        reveal(FState::alloc_block);
        reveal(FState::jumps_ok);
        reveal(FState::code_valid);
        reveal(FState::phis_valid);
        reveal(FState::defs);
        reveal(FState::single);
        proof {
            assert forall|t: Temp| #[trigger]
                defs_all(self@.alloc_block(label).0.blocks, t) == defs_all(self@.blocks, t) by {
                let block = BasicBlock {
                    label,
                    code: List::Nil,
                    term: Terminator::Unreachable,
                    span: self@.env.current_span,
                };
                defs_push(self@.blocks, block, t);
            }
        }
        let n: usize = self.blocks.len();
        if n < u32::MAX as usize {
            self.blocks.push(
                BasicBlock {
                    label,
                    code: List::Nil,
                    term: Terminator::Unreachable,
                    span: self.env.current_span,
                },
            );
            BlockId(n as u32)
        } else {
            self.env.exhausted = true;
            BlockId(0)
        }
    }

    /// Lets code go to the end of `block` from now on.
    pub fn switch_to(&mut self, block: BlockId)
        ensures
            final(self)@ == old(self)@.switch_to(block),
            grown(old(self)@, final(self)@, 0),
            block.0 < old(self)@.blocks.len() && old(self)@.wf() ==> final(self)@.wf(),
    {
        reveal(FState::switch_to);
        reveal(FState::jumps_ok);
        reveal(FState::code_valid);
        reveal(FState::phis_valid);
        reveal(FState::defs);
        reveal(FState::single);
        self.env.current_block = block;
    }

    /// Ends the current block.
    pub fn terminate(&mut self, term: Terminator)
        ensures
            final(self)@ == old(self)@.terminate(term),
            grown(old(self)@, final(self)@, 0),
            old(self)@.wf() && term_ok(term, old(self)@.blocks.len()) && term_temps_ok(
                &term,
                old(self)@.temp_types.len(),
            ) ==> final(self)@.wf(),
    {
        reveal(FState::terminate);
        reveal(FState::jumps_ok);
        reveal(FState::code_valid);
        reveal(FState::phis_valid);
        reveal(FState::defs);
        reveal(FState::single);
        let k: usize = self.env.current_block.0 as usize;
        if k < self.blocks.len() {
            proof {
                let new = BasicBlock { term, ..self@.blocks[k as int] };
                same_defs(self@.blocks, k as int, new);
            }
            self.blocks[k].term = term;
            assert(self@.blocks =~= old(self)@.terminate(term).blocks);
        }
    }

    /// Whether the current block has been ended.
    pub fn is_current_block_terminated(&self) -> (r: bool)
        ensures
            r == self@.is_terminated(),
    {
        reveal(FState::is_terminated);
        let k: usize = self.env.current_block.0 as usize;
        k < self.blocks.len() && !matches!(self.blocks[k].term, Terminator::Unreachable)
    }

    /// Makes a temporary that holds a constant.
    pub fn const_temp(&mut self, c: Const) -> (r: Temp)
        ensures
            (final(self)@, r) == old(self)@.const_temp(c),
            kept(old(self)@, final(self)@),
            temp_ok(r, final(self)@.temp_types.len()),
    {
        reveal(FState::const_temp);
        reveal(FState::jumps_ok);
        reveal(FState::code_valid);
        reveal(FState::phis_valid);
        reveal(FState::defs);
        reveal(FState::single);
        let nonneg = match &c {
            Const::Int(v, _) => *v >= 0,
            _ => false,
        };
        let dst = self.alloc_temp(const_type(&c));
        self.emit(Instruction::Const { dst, value: c });
        let ghost emitted = self@;
        if nonneg {
            self.env.nonneg_consts = prepend(dst, self.env.nonneg_consts.dup());
        }
        assert forall|t: Temp| #[trigger] self@.defs(t) == emitted.defs(t) by {}
        dst
    }

    /// Opens a scope.
    pub fn push_scope(&mut self)
        ensures
            final(self)@ == old(self)@.push_scope(),
            kept_in(old(self)@, final(self)@, 1),
    {
        reveal(FState::push_scope);
        reveal(FState::jumps_ok);
        reveal(FState::code_valid);
        reveal(FState::phis_valid);
        reveal(FState::defs);
        reveal(FState::single);
        let scope = Scope { owned: List::Nil, shells: List::Nil };
        self.env.scopes = prepend(scope, self.env.scopes.dup());
    }

    /// Drops the innermost scope and gives nothing back.
    pub fn discard_scope(&mut self)
        ensures
            final(self)@ == old(self)@.discard_scope(),
            old(self)@.env.scopes.len() > 0 ==> kept_in(old(self)@, final(self)@, -1),
            grown(
                old(self)@,
                final(self)@,
                final(self)@.env.scopes.len() - old(self)@.env.scopes.len(),
            ),
            final(self)@.env.current_block == old(self)@.env.current_block,
    {
        reveal(FState::discard_scope);
        reveal(FState::jumps_ok);
        reveal(FState::code_valid);
        reveal(FState::phis_valid);
        reveal(FState::defs);
        reveal(FState::single);
        let rest = match &self.env.scopes {
            List::Nil => List::Nil,
            List::Cons(n) => n.tail.dup(),
        };
        self.env.scopes = rest;
    }

    /// Registers a reference with the innermost scope, where the type has references.
    pub fn register_owned(&mut self, temp: Temp, ty: Type)
        ensures
            final(self)@ == old(self)@.register_owned(temp, ty),
            grown(old(self)@, final(self)@, 0),
            old(self)@.wf() && temp_ok(temp, old(self)@.temp_types.len()) ==> final(self)@.wf(),
    {
        reveal(FState::register_owned);
        reveal(FState::jumps_ok);
        reveal(FState::code_valid);
        reveal(FState::phis_valid);
        reveal(FState::defs);
        reveal(FState::single);
        if needs_owning(&ty) {
            let scopes = match &self.env.scopes {
                List::Nil => List::Nil,
                List::Cons(n) => prepend(
                    Scope {
                        owned: prepend(Owned { temp, ty }, n.head.owned.dup()),
                        shells: n.head.shells.dup(),
                    },
                    n.tail.dup(),
                ),
            };
            self.env.scopes = scopes;
        }
    }

    /// Registers the shell of a box with the innermost scope.
    pub fn register_box_shell(&mut self, temp: Temp)
        ensures
            final(self)@ == old(self)@.register_box_shell(temp),
            grown(old(self)@, final(self)@, 0),
            old(self)@.wf() && temp_ok(temp, old(self)@.temp_types.len()) ==> final(self)@.wf(),
    {
        reveal(FState::register_box_shell);
        reveal(FState::jumps_ok);
        reveal(FState::code_valid);
        reveal(FState::phis_valid);
        reveal(FState::defs);
        reveal(FState::single);
        let scopes = match &self.env.scopes {
            List::Nil => List::Nil,
            List::Cons(n) => prepend(
                Scope { owned: n.head.owned.dup(), shells: prepend(temp, n.head.shells.dup()) },
                n.tail.dup(),
            ),
        };
        self.env.scopes = scopes;
    }

    /// Takes back one registration of a reference, from the innermost scope that has one.
    pub fn unregister_owned(&mut self, temp: Temp)
        ensures
            final(self)@ == old(self)@.unregister_owned(temp),
            kept(old(self)@, final(self)@),
    {
        reveal(FState::unregister_owned);
        reveal(FState::jumps_ok);
        reveal(FState::code_valid);
        reveal(FState::phis_valid);
        reveal(FState::defs);
        reveal(FState::single);
        let scopes = drop_registration(&self.env.scopes, temp);
        self.env.scopes = scopes;
    }

    /// Whether some open scope owns the reference.
    pub fn is_owned_in_scope(&self, temp: Temp) -> (r: bool)
        ensures
            r == self@.is_owned_in_scope(temp),
    {
        reveal(FState::is_owned_in_scope);
        scope_list_owns(&self.env.scopes, temp)
    }

    /// Whether the innermost scope owns the reference.
    pub fn is_owned_in_current_scope(&self, temp: Temp) -> (r: bool)
        ensures
            r == self@.is_owned_in_current_scope(temp),
    {
        reveal(FState::is_owned_in_current_scope);
        match &self.env.scopes {
            List::Nil => false,
            List::Cons(n) => owned_list_has(&n.head.owned, temp),
        }
    }

    /// Ends the innermost scope: gives back what it owns, apart from what is kept. Nothing
    /// is emitted where the current block has been ended.
    pub fn pop_scope_releasing_keep(&mut self, keep: &List<Temp>)
        ensures
            final(self)@ == old(self)@.pop_scope_releasing_keep(keep),
            old(self)@.env.scopes.len() > 0 ==> kept_in(old(self)@, final(self)@, -1),
            old(self)@.env.scopes.len() == 0 ==> kept(old(self)@, final(self)@),
    {
        reveal(FState::pop_scope_releasing_keep);
        let scopes = self.env.scopes.dup();
        match &scopes {
            List::Nil => {},
            List::Cons(n) => {
                let ended = self.is_current_block_terminated();
                if !ended {
                    emit_releases(self, &n.head.owned, keep);
                    emit_shell_frees(self, &n.head.shells, keep);
                }
                self.discard_scope();
            },
        }
    }

    /// As `pop_scope_releasing_keep`, and registers what is kept with the enclosing scope.
    pub fn pop_scope_releasing_keep_transfer(&mut self, keep: &List<Temp>)
        ensures
            final(self)@ == old(self)@.pop_scope_releasing_keep_transfer(keep),
            old(self)@.env.scopes.len() > 0 ==> kept_in(old(self)@, final(self)@, -1),
            old(self)@.env.scopes.len() == 0 ==> kept(old(self)@, final(self)@),
    {
        reveal(FState::pop_scope_releasing_keep_transfer);
        let scopes = self.env.scopes.dup();
        match &scopes {
            List::Nil => {},
            List::Cons(n) => {
                self.pop_scope_releasing_keep(keep);
                register_kept(self, &n.head.owned, keep);
            },
        }
    }

    /// Records that `dst` holds the reference of `src`.
    pub fn record_escape_alias(&mut self, dst: Temp, src: Temp)
        ensures
            final(self)@ == old(self)@.record_escape_alias(dst, src),
            kept(old(self)@, final(self)@),
    {
        reveal(FState::record_escape_alias);
        reveal(FState::jumps_ok);
        reveal(FState::code_valid);
        reveal(FState::phis_valid);
        reveal(FState::defs);
        reveal(FState::single);
        self.env.escape_alias = prepend(Alias { dst, src }, self.env.escape_alias.dup());
    }

    /// Gives back what the open scopes own before a tail call, apart from the references that
    /// the call hands on. A parameter that is passed on unchanged is given back: it is borrowed
    /// by the next round as it is by this one.
    pub fn release_owned_for_tail_call(&mut self, args: &List<Temp>)
        ensures
            final(self)@ == old(self)@.release_owned_for_tail_call(args),
            kept(old(self)@, final(self)@),
    {
        reveal(FState::release_owned_for_tail_call);
        let scopes = self.env.scopes.dup();
        let params = params_of_calls(&self.env.params, self.env.is_closure);
        let moving = args_that_move(args, &params);
        let keep = add_alias_sources(&self.env.escape_alias, &moving);
        emit_scope_releases(self, &scopes, keep, args);
    }

    /// Lets a reference go into a container: hands over a fresh one, counts another one once
    /// more.
    pub fn transfer_into_container(&mut self, t: Temp, src: &TypedExpr, op_consumes_union: bool)
        ensures
            final(self)@ == old(self)@.transfer_into_container(t, src, op_consumes_union),
            grown(old(self)@, final(self)@, 0),
            old(self)@.wf() && temp_ok(t, old(self)@.temp_types.len()) ==> final(self)@.wf(),
    {
        reveal(FState::transfer_into_container);
        let ty = self.temp_ty_or(t, src.ty());
        if (is_union_ty(&ty) && op_consumes_union) || (!is_union_ty(&ty) && is_rc_type(&ty)) {
            if expr_is_fresh_alloc(src) && self.is_owned_in_scope(t) {
                self.unregister_owned(t);
            } else {
                self.emit(Instruction::Retain { val: t, ty });
            }
        }
    }

    /// Changes the predecessor of an incoming of a phi.
    pub fn patch_phi_incoming(
        &mut self,
        header: BlockId,
        phi: Temp,
        old_pred: BlockId,
        new_pred: BlockId,
    )
        ensures
            final(self)@ == old(self)@.patch_phi_incoming(header, phi, old_pred, new_pred),
            grown(old(self)@, final(self)@, 0),
            old(self)@.wf() && new_pred.0 < old(self)@.blocks.len() ==> final(self)@.wf(),
    {
        reveal(FState::patch_phi_incoming);
        reveal(FState::jumps_ok);
        reveal(FState::code_valid);
        reveal(FState::phis_valid);
        reveal(FState::defs);
        reveal(FState::single);
        let k: usize = header.0 as usize;
        if k < self.blocks.len() {
            let code = code_repred(&self.blocks[k].code, phi, old_pred, new_pred);
            proof {
                let new = BasicBlock { code, ..self@.blocks[k as int] };
                assert forall|t: Temp| #[trigger]
                    defs_in(&new.code, t) == defs_in(&self@.blocks[k as int].code, t) by {
                    repred_defs(&self@.blocks[k as int].code, phi, old_pred, new_pred, t);
                }
                same_defs(self@.blocks, k as int, new);
            }
            self.blocks[k].code = code;
            assert(self@.blocks =~= old(self)@.patch_phi_incoming(
                header,
                phi,
                old_pred,
                new_pred,
            ).blocks);
        }
    }

    /// Changes an incoming of a phi, value and predecessor.
    pub fn patch_phi_incoming_value(
        &mut self,
        header: BlockId,
        phi: Temp,
        old_val: Temp,
        new_val: Temp,
        new_pred: BlockId,
    )
        ensures
            final(self)@ == old(self)@.patch_phi_incoming_value(
                header,
                phi,
                old_val,
                new_val,
                new_pred,
            ),
            grown(old(self)@, final(self)@, 0),
            old(self)@.wf() && temp_ok(new_val, old(self)@.temp_types.len()) && new_pred.0
                < old(self)@.blocks.len() ==> final(self)@.wf(),
    {
        reveal(FState::patch_phi_incoming_value);
        reveal(FState::jumps_ok);
        reveal(FState::code_valid);
        reveal(FState::phis_valid);
        reveal(FState::defs);
        reveal(FState::single);
        let k: usize = header.0 as usize;
        if k < self.blocks.len() {
            let code = code_reval(&self.blocks[k].code, phi, old_val, new_val, new_pred);
            proof {
                let new = BasicBlock { code, ..self@.blocks[k as int] };
                assert forall|t: Temp| #[trigger]
                    defs_in(&new.code, t) == defs_in(&self@.blocks[k as int].code, t) by {
                    reval_defs(&self@.blocks[k as int].code, phi, old_val, new_val, new_pred, t);
                }
                same_defs(self@.blocks, k as int, new);
            }
            self.blocks[k].code = code;
            assert(self@.blocks =~= old(self)@.patch_phi_incoming_value(
                header,
                phi,
                old_val,
                new_val,
                new_pred,
            ).blocks);
        }
    }

    /// Lets a temporary hold a variable from now on.
    pub fn set_slot(&mut self, slot: usize, value: Temp)
        ensures
            final(self)@ == old(self)@.set_slot(slot, value),
            grown(old(self)@, final(self)@, 0),
            old(self)@.wf() && temp_ok(value, old(self)@.temp_types.len()) ==> final(self)@.wf(),
    {
        reveal(FState::set_slot);
        reveal(FState::jumps_ok);
        reveal(FState::code_valid);
        reveal(FState::phis_valid);
        reveal(FState::defs);
        reveal(FState::single);
        self.env.slots = prepend(Entry { slot, value }, self.env.slots.dup());
    }

    /// Changes the representation of a value.
    pub fn coerce(&mut self, src: Temp, from_ty: &Type, to_ty: &Type) -> (r: Temp)
        ensures
            (final(self)@, r) == old(self)@.coerce(src, from_ty, to_ty),
            grown(old(self)@, final(self)@, 0),
            old(self)@.wf() && temp_ok(src, old(self)@.temp_types.len()) ==> final(self)@.wf(),
            temp_ok(r, final(self)@.temp_types.len()),
    {
        reveal(FState::coerce);
        let dst = self.alloc_temp(to_ty.dup());
        self.emit(Instruction::Coerce { dst, src, from_ty: from_ty.dup(), to_ty: to_ty.dup() });
        dst
    }

    /// Emits a call.
    pub fn call(&mut self, callee: CallTarget, args: List<Temp>, ret_ty: &Type) -> (r: Temp)
        ensures
            (final(self)@, r) == old(self)@.call(callee, args, ret_ty),
            grown(old(self)@, final(self)@, 0),
            old(self)@.wf()
                && callee_ok(&callee, old(self)@.temp_types.len())
                && temps_ok(&args, old(self)@.temp_types.len())
                ==> final(self)@.wf(),
            temp_ok(r, final(self)@.temp_types.len()),
    {
        reveal(FState::call);
        let dst = self.alloc_temp(ret_ty.dup());
        self.emit(Instruction::Call { dst, callee, args, ret_ty: ret_ty.dup() });
        dst
    }

    /// Emits an operation of the run-time system.
    pub fn call_intrinsic(
        &mut self,
        intrinsic: Intrinsic,
        args: List<Temp>,
        ret_ty: &Type,
    ) -> (r: Temp)
        ensures
            (final(self)@, r) == old(self)@.call_intrinsic(intrinsic, args, ret_ty),
            grown(old(self)@, final(self)@, 0),
            old(self)@.wf() && temps_ok(&args, old(self)@.temp_types.len()) ==> final(self)@.wf(),
            temp_ok(r, final(self)@.temp_types.len()),
    {
        reveal(FState::call_intrinsic);
        let dst = self.alloc_temp(ret_ty.dup());
        self.emit(Instruction::CallIntrinsic { dst, intrinsic, args, ret_ty: ret_ty.dup() });
        dst
    }

    /// Emits a binary operation.
    pub fn binary(
        &mut self,
        op: crate::ast::BinOp,
        lhs: Temp,
        rhs: Temp,
        operand_ty: &Type,
        ty: &Type,
    ) -> (r: Temp)
        ensures
            (final(self)@, r) == old(self)@.binary(op, lhs, rhs, operand_ty, ty),
            grown(old(self)@, final(self)@, 0),
            old(self)@.wf()
                && temp_ok(lhs, old(self)@.temp_types.len())
                && temp_ok(rhs, old(self)@.temp_types.len())
                ==> final(self)@.wf(),
            temp_ok(r, final(self)@.temp_types.len()),
    {
        reveal(FState::binary);
        let dst = self.alloc_temp(ty.dup());
        self.emit(
            Instruction::Binary { dst, op, lhs, rhs, operand_ty: operand_ty.dup(), ty: ty.dup() },
        );
        dst
    }

    /// Copies a box.
    pub fn clone_box(&mut self, src: Temp, ty: &Type) -> (r: Temp)
        ensures
            (final(self)@, r) == old(self)@.clone_box(src, ty),
            grown(old(self)@, final(self)@, 0),
            old(self)@.wf() && temp_ok(src, old(self)@.temp_types.len()) ==> final(self)@.wf(),
            temp_ok(r, final(self)@.temp_types.len()),
    {
        reveal(FState::clone_box);
        let dst = self.alloc_temp(ty.dup());
        self.emit(Instruction::CloneBox { dst, src, ty: ty.dup() });
        dst
    }

    /// Reads an element of a container. `nonneg` tells that the key counts from a constant that is
    /// not negative.
    pub fn index(
        &mut self,
        object: Temp,
        key: Temp,
        obj_ty: &Type,
        key_ty: &Type,
        result_ty: &Type,
        nonneg: bool,
    ) -> (r: Temp)
        ensures
            (final(self)@, r) == old(self)@.index(object, key, obj_ty, key_ty, result_ty, nonneg),
            grown(old(self)@, final(self)@, 0),
            old(self)@.wf()
                && temp_ok(object, old(self)@.temp_types.len())
                && temp_ok(key, old(self)@.temp_types.len())
                ==> final(self)@.wf(),
            temp_ok(r, final(self)@.temp_types.len()),
    {
        reveal(FState::index);
        let dst = self.alloc_temp(result_ty.dup());
        self.emit(
            Instruction::Index {
                dst,
                object,
                key,
                obj_ty: obj_ty.dup(),
                key_ty: key_ty.dup(),
                result_ty: result_ty.dup(),
                nonneg,
            },
        );
        dst
    }

    /// Reads a heap cell.
    pub fn cell_get(&mut self, cell: Temp, ty: &Type) -> (r: Temp)
        ensures
            (final(self)@, r) == old(self)@.cell_get(cell, ty),
            grown(old(self)@, final(self)@, 0),
            old(self)@.wf() && temp_ok(cell, old(self)@.temp_types.len()) ==> final(self)@.wf(),
            temp_ok(r, final(self)@.temp_types.len()),
    {
        reveal(FState::cell_get);
        let dst = self.alloc_temp(ty.dup());
        self.emit(Instruction::CellGet { dst, cell, ty: ty.dup() });
        dst
    }

    /// Negates a truth value.
    pub fn not(&mut self, operand: Temp) -> (r: Temp)
        ensures
            (final(self)@, r) == old(self)@.not(operand),
            grown(old(self)@, final(self)@, 0),
            old(self)@.wf() && temp_ok(operand, old(self)@.temp_types.len()) ==> final(self)@.wf(),
            temp_ok(r, final(self)@.temp_types.len()),
    {
        reveal(FState::not);
        let dst = self.alloc_temp(Type::Bool);
        self.emit(
            Instruction::Unary { dst, op: crate::ir::IrUnaryOp::Not, operand, ty: Type::Bool },
        );
        dst
    }

    /// The type of the heap cell that the variable lives in.
    pub fn cell_slot(&self, slot: usize) -> (r: Option<Type>)
        ensures
            r == self@.cell_slot(slot),
    {
        match find(&self.env.cell_slots, slot) {
            Some(t) => Some(t.dup()),
            None => None,
        }
    }

    /// The operation of the run-time system that the variable names.
    pub fn intrinsic(&self, slot: usize) -> (r: Option<String>)
        ensures
            r == self@.intrinsic(slot),
    {
        match find(&self.env.intrinsic_slots, slot) {
            Some(t) => Some(t.clone()),
            None => None,
        }
    }

    /// The function literal that the variable is bound to.
    pub fn local_fn(&self, slot: usize) -> (r: Option<Rc<TypedExpr>>)
        ensures
            r == self@.local_fn(slot),
    {
        match find(&self.env.local_fn_exprs, slot) {
            Some(t) => Some(share(t)),
            None => None,
        }
    }

    /// Whether the temporary is an integer constant that is not negative.
    pub fn temp_is_nonneg_int_const(&self, t: Temp) -> (r: bool)
        ensures
            r == self@.temp_is_nonneg_int_const(t),
    {
        has_temp(&self.env.nonneg_consts, t)
    }

    /// Whether the temporary is the counter of a loop over a range that starts at zero or
    /// above.
    pub fn is_nonneg(&self, t: Temp) -> (r: bool)
        ensures
            r == self@.is_nonneg(t),
    {
        has_temp(&self.env.nonneg_range_ivs, t)
    }

    /// Records a heap cell that the current block makes.
    pub fn add_cell(&mut self, temp: Temp, ty: Type)
        ensures
            final(self)@ == old(self)@.add_cell(temp, ty),
            grown(old(self)@, final(self)@, 0),
            old(self)@.wf() && temp_ok(temp, old(self)@.temp_types.len()) ==> final(self)@.wf(),
    {
        reveal(FState::add_cell);
        reveal(FState::jumps_ok);
        reveal(FState::code_valid);
        reveal(FState::phis_valid);
        reveal(FState::defs);
        reveal(FState::single);
        let cell = Cell { temp, ty, block: self.env.current_block };
        self.env.created_cells = prepend(cell, self.env.created_cells.dup());
    }

    /// Records that a heap cell outlives the function.
    pub fn mark_escaping(&mut self, temp: Temp)
        ensures
            final(self)@ == old(self)@.mark_escaping(temp),
            kept(old(self)@, final(self)@),
    {
        reveal(FState::mark_escaping);
        reveal(FState::jumps_ok);
        reveal(FState::code_valid);
        reveal(FState::phis_valid);
        reveal(FState::defs);
        reveal(FState::single);
        self.env.escaping_cells = prepend(temp, self.env.escaping_cells.dup());
    }

    /// Records that a variable lives in a heap cell.
    pub fn set_cell_slot(&mut self, slot: usize, value: Type)
        ensures
            final(self)@ == old(self)@.set_cell_slot(slot, value),
            kept(old(self)@, final(self)@),
    {
        reveal(FState::set_cell_slot);
        reveal(FState::jumps_ok);
        reveal(FState::code_valid);
        reveal(FState::phis_valid);
        reveal(FState::defs);
        reveal(FState::single);
        self.env.cell_slots = prepend(Entry { slot, value }, self.env.cell_slots.dup());
    }

    /// Records that a loop counter starts at a constant that is not negative.
    pub fn add_nonneg(&mut self, temp: Temp)
        ensures
            final(self)@ == old(self)@.add_nonneg(temp),
            kept(old(self)@, final(self)@),
    {
        reveal(FState::add_nonneg);
        reveal(FState::jumps_ok);
        reveal(FState::code_valid);
        reveal(FState::phis_valid);
        reveal(FState::defs);
        reveal(FState::single);
        self.env.nonneg_range_ivs = prepend(temp, self.env.nonneg_range_ivs.dup());
    }

    /// Forgets what was recorded about a loop counter.
    pub fn drop_nonneg(&mut self, temp: Temp)
        ensures
            final(self)@ == old(self)@.drop_nonneg(temp),
            kept(old(self)@, final(self)@),
    {
        reveal(FState::drop_nonneg);
        reveal(FState::jumps_ok);
        reveal(FState::code_valid);
        reveal(FState::phis_valid);
        reveal(FState::defs);
        reveal(FState::single);
        let l = without_temp(&self.env.nonneg_range_ivs, temp);
        self.env.nonneg_range_ivs = l;
    }

    /// Records the function literal that a variable is bound to.
    pub fn add_local_fn(&mut self, slot: usize, value: Rc<TypedExpr>)
        ensures
            final(self)@ == old(self)@.add_local_fn(slot, value),
            kept(old(self)@, final(self)@),
    {
        reveal(FState::add_local_fn);
        reveal(FState::jumps_ok);
        reveal(FState::code_valid);
        reveal(FState::phis_valid);
        reveal(FState::defs);
        reveal(FState::single);
        self.env.local_fn_exprs =
        prepend(Entry { slot, value }, self.env.local_fn_exprs.dup());
    }

    /// Records the variables of the body of a function that have to live in heap cells. Functions
    /// inside it are scanned where their own bodies are lowered.
    pub fn scan_body(&mut self, body: &TypedExpr)
        ensures
            final(self)@ == old(self)@.scan_body(body),
            kept(old(self)@, final(self)@),
    {
        reveal(FState::scan_body);
        reveal(FState::jumps_ok);
        reveal(FState::code_valid);
        reveal(FState::phis_valid);
        reveal(FState::defs);
        reveal(FState::single);
        let mut owning: HashSet<usize> = HashSet::new();
        collect_branch_reassigned_var_slots_expr(body, false, &mut owning, &mut self.cell_vars);
        collect_mutable_capture_slots_expr(body, &mut self.cell_vars);
        assert(self@.cell_vars =~= old(self)@.scan_body(body).cell_vars);
    }

    /// Records the variables of statements in a row that have to live in heap cells.
    pub fn scan_stmts(&mut self, stmts: &List<TypedStmt>)
        ensures
            final(self)@ == old(self)@.scan_stmts(stmts),
            kept(old(self)@, final(self)@),
    {
        reveal(FState::scan_stmts);
        reveal(FState::jumps_ok);
        reveal(FState::code_valid);
        reveal(FState::phis_valid);
        reveal(FState::defs);
        reveal(FState::single);
        let mut owning: HashSet<usize> = HashSet::new();
        collect_branch_reassigned_var_slots_stmts(stmts, false, &mut owning, &mut self.cell_vars);
        collect_mutable_capture_slots_stmts(stmts, &mut self.cell_vars);
        assert(self@.cell_vars =~= old(self)@.scan_stmts(stmts).cell_vars);
    }

    /// Whether the variable has to live in a heap cell.
    pub fn is_cell_var(&self, slot: usize) -> (r: bool)
        ensures
            r == self@.is_cell_var(slot),
    {
        self.cell_vars.contains(&slot)
    }

    /// Records that control does not reach a block.
    pub fn mark_diverged(&mut self, block: BlockId)
        ensures
            final(self)@ == old(self)@.mark_diverged(block),
            kept(old(self)@, final(self)@),
    {
        reveal(FState::mark_diverged);
        reveal(FState::jumps_ok);
        reveal(FState::code_valid);
        reveal(FState::phis_valid);
        reveal(FState::defs);
        reveal(FState::single);
        self.env.diverged_blocks = prepend(block, self.env.diverged_blocks.dup());
    }

    /// Replaces the record of what holds the variables.
    pub fn set_slots(&mut self, slots: List<Entry<Temp>>)
        ensures
            final(self)@ == old(self)@.set_slots(slots),
            grown(old(self)@, final(self)@, 0),
            old(self)@.wf() && slots_ok(&slots, old(self)@.temp_types.len()) ==> final(self)@.wf(),
    {
        reveal(FState::set_slots);
        reveal(FState::jumps_ok);
        reveal(FState::code_valid);
        reveal(FState::phis_valid);
        reveal(FState::defs);
        reveal(FState::single);
        self.env.slots = slots;
    }

    /// Records the parameters of the function.
    pub fn set_params(&mut self, params: List<IrParam>)
        ensures
            final(self)@ == old(self)@.set_params(params),
            kept(old(self)@, final(self)@),
    {
        reveal(FState::set_params);
        reveal(FState::jumps_ok);
        reveal(FState::code_valid);
        reveal(FState::phis_valid);
        reveal(FState::defs);
        reveal(FState::single);
        self.env.params = params;
    }

    /// Begins a new function and returns the one that was under construction.
    pub fn enter_function(
        &mut self,
        id: FuncId,
        name: Option<Text>,
        is_closure: bool,
        ret_ty: Type,
        span: Span,
    ) -> (r: FuncBuilder)
        ensures
            (final(self)@, r@) == old(self)@.enter_function(id, name, is_closure, ret_ty, span),
            r@ == old(self)@,
            final(self)@.wf(),
            final(self)@.env.scopes.len() == 0,
    {
        reveal(FState::enter_function);
        reveal(FState::jumps_ok);
        reveal(FState::code_valid);
        reveal(FState::phis_valid);
        reveal(FState::defs);
        reveal(FState::single);
        let mut inner = FuncBuilder::new(id, name, ret_ty, self.env.intrinsic_slots.dup());
        proof {
            let entry = BasicBlock { span: Some(span), ..inner@.blocks[0] };
            same_defs(inner@.blocks, 0, entry);
        }
        inner.blocks[0].span = Some(span);
        inner.env.is_closure = is_closure;
        std::mem::swap(self, &mut inner);
        assert(self@.blocks =~= old(self)@.enter_function(
            id,
            name,
            is_closure,
            ret_ty,
            span,
        ).0.blocks);
        inner
    }

    /// Finishes the function with a result type and goes on with the one that waited.
    pub fn leave_function(&mut self, outer: FuncBuilder, ret_ty: Type) -> (r: Function)
        ensures
            (final(self)@, r) == old(self)@.leave_function(outer@, ret_ty),
            final(self)@ == outer@,
            old(self)@.wf() ==> function_ok(r),
    {
        reveal(FState::leave_function);
        reveal(FState::jumps_ok);
        reveal(FState::code_valid);
        reveal(FState::phis_valid);
        reveal(FState::defs);
        reveal(FState::single);
        let mut inner = outer;
        std::mem::swap(self, &mut inner);
        inner.env.ret_ty = ret_ty;
        inner.finish()
    }

    /// The finished function.
    pub open spec fn finish_spec(b: FState) -> Function {
        Function {
            id: b.env.id,
            name: b.env.name,
            params: b.env.params,
            is_closure: b.env.is_closure,
            ret_ty: b.env.ret_ty,
            blocks: from_seq(b.blocks),
            temp_types: from_seq(b.temp_types),
        }
    }

    /// Finishes the function.
    pub fn finish(self) -> (r: Function)
        ensures
            r == FuncBuilder::finish_spec(self@),
            self@.wf() ==> function_ok(r),
    {
        proof {
            reveal(FState::jumps_ok);
        reveal(FState::code_valid);
        reveal(FState::phis_valid);
        reveal(FState::defs);
        reveal(FState::single);
            from_seq_view(self@.blocks);
            from_seq_view(self@.temp_types);
        }
        Function {
            id: self.env.id,
            name: self.env.name,
            params: self.env.params,
            is_closure: self.env.is_closure,
            ret_ty: self.env.ret_ty,
            blocks: list_of(self.blocks),
            temp_types: list_of(self.temp_types),
        }
    }
}

/// An instruction that is emitted adds its definition, and no other one.
proof fn emit_defs(b: FState, instr: Instruction)
    ensures
        b.env.current_block.0 < b.blocks.len() ==> forall|t: Temp| #[trigger]
            defs_all(b.emit(instr).blocks, t) == defs_all(b.blocks, t) + defines(&instr, t),
        b.env.current_block.0 >= b.blocks.len() ==> b.emit(instr) == b,
{
    reveal(FState::emit);
    let k = b.env.current_block.0 as int;
    if k < b.blocks.len() {
        assert forall|t: Temp| #[trigger]
            defs_all(b.emit(instr).blocks, t) == defs_all(b.blocks, t) + defines(&instr, t) by {
            defs_update(b.blocks, k, b.emit(instr).blocks[k], t);
        }
    }
}

/// A block that is replaced by one with the same definitions changes no count.
proof fn same_defs(blocks: Seq<BasicBlock>, k: int, new: BasicBlock)
    requires
        0 <= k < blocks.len(),
        forall|t: Temp| #[trigger] defs_in(&new.code, t) == defs_in(&blocks[k].code, t),
    ensures
        forall|t: Temp| #[trigger] defs_all(blocks.update(k, new), t) == defs_all(blocks, t),
{
    assert forall|t: Temp| #[trigger] defs_all(blocks.update(k, new), t) == defs_all(blocks, t) by {
        defs_update(blocks, k, new, t);
        assert(defs_in(&new.code, t) == defs_in(&blocks[k].code, t));
    }
}

/// Another predecessor in a phi changes no definition.
proof fn repred_defs(
    code: &List<Rc<Spanned>>,
    phi: Temp,
    old_pred: BlockId,
    new_pred: BlockId,
    t: Temp,
)
    ensures
        defs_in(&repred(code, phi, old_pred, new_pred), t) == defs_in(code, t),
    decreases code,
{
    match code {
        List::Nil => {},
        List::Cons(n) => repred_defs(&n.tail, phi, old_pred, new_pred, t),
    }
}

/// Another incoming of a phi changes no definition.
proof fn reval_defs(
    code: &List<Rc<Spanned>>,
    phi: Temp,
    old_val: Temp,
    new_val: Temp,
    new_pred: BlockId,
    t: Temp,
)
    ensures
        defs_in(&reval(code, phi, old_val, new_val, new_pred), t) == defs_in(code, t),
    decreases code,
{
    match code {
        List::Nil => {},
        List::Cons(n) => reval_defs(&n.tail, phi, old_val, new_val, new_pred, t),
    }
}

/// What holds a variable is among the temporaries of the list.
proof fn found_slot_ok(l: &List<Entry<Temp>>, slot: usize, n: nat)
    requires
        slots_ok(l, n),
    ensures
        find_spec(l, slot) matches Some(t) ==> temp_ok(t, n),
    decreases l,
{
    match l {
        List::Nil => {},
        List::Cons(k) => found_slot_ok(&k.tail, slot, n),
    }
}

/// Whether the list has a registration of the reference.
fn owned_list_has(l: &List<Owned>, t: Temp) -> (r: bool)
    ensures
        r == owns(l, t),
    decreases l,
{
    match l {
        List::Nil => false,
        List::Cons(n) => n.head.temp == t || owned_list_has(&n.tail, t),
    }
}

/// Whether some scope has a registration of the reference.
fn scope_list_owns(l: &List<Scope>, t: Temp) -> (r: bool)
    ensures
        r == some_scope_owns(l, t),
    decreases l,
{
    match l {
        List::Nil => false,
        List::Cons(n) => owned_list_has(&n.head.owned, t) || scope_list_owns(&n.tail, t),
    }
}

/// The list without the last registration of the reference.
fn drop_owned(l: &List<Owned>, t: Temp) -> (r: List<Owned>)
    ensures
        r == owned_without(l, t),
        forall|n: nat| owned_ok(l, n) ==> #[trigger] owned_ok(&r, n),
    decreases l,
{
    match l {
        List::Nil => List::Nil,
        List::Cons(n) => if n.head.temp == t {
            n.tail.dup()
        } else {
            prepend(Owned { temp: n.head.temp, ty: n.head.ty.dup() }, drop_owned(&n.tail, t))
        },
    }
}

/// The scopes without the last registration of the reference.
fn drop_registration(l: &List<Scope>, t: Temp) -> (r: List<Scope>)
    ensures
        r == scopes_without(l, t),
        r.len() == l.len(),
        forall|n: nat| scopes_ok(l, n) ==> #[trigger] scopes_ok(&r, n),
    decreases l,
{
    match l {
        List::Nil => List::Nil,
        List::Cons(n) => if owned_list_has(&n.head.owned, t) {
            prepend(
                Scope { owned: drop_owned(&n.head.owned, t), shells: n.head.shells.dup() },
                n.tail.dup(),
            )
        } else {
            prepend(
                Scope { owned: n.head.owned.dup(), shells: n.head.shells.dup() },
                drop_registration(&n.tail, t),
            )
        },
    }
}

/// Emits the release of every reference in the list that is not kept.
fn emit_releases(b: &mut FuncBuilder, l: &List<Owned>, keep: &List<Temp>)
    ensures
        final(b)@ == release_all(old(b)@, l, keep),
        grown(old(b)@, final(b)@, 0),
        old(b)@.wf() && owned_ok(l, old(b)@.temp_types.len()) ==> final(b)@.wf(),
        final(b)@.temp_types.len() == old(b)@.temp_types.len(),
        final(b)@.env.scopes == old(b)@.env.scopes,
    decreases l,
{
    proof {
        owned_tail(l, old(b)@.temp_types.len());
    }
    match l {
        List::Nil => {},
        List::Cons(n) => {
            if !has_temp(keep, n.head.temp) {
                b.emit(Instruction::Release { val: n.head.temp, ty: n.head.ty.dup() });
                assert(b@.env.scopes == old(b)@.env.scopes && b@.temp_types == old(
                    b,
                )@.temp_types) by {
                    reveal(FState::emit);
                }
            }
            emit_releases(b, &n.tail, keep);
        },
    }
}

/// Emits the freeing of every shell in the list that is not kept.
fn emit_shell_frees(b: &mut FuncBuilder, l: &List<Temp>, keep: &List<Temp>)
    ensures
        final(b)@ == free_shells(old(b)@, l, keep),
        grown(old(b)@, final(b)@, 0),
        old(b)@.wf() && temps_ok(l, old(b)@.temp_types.len()) ==> final(b)@.wf(),
        final(b)@.temp_types.len() == old(b)@.temp_types.len(),
        final(b)@.env.scopes == old(b)@.env.scopes,
    decreases l,
{
    proof {
        temps_tail(l, old(b)@.temp_types.len());
    }
    match l {
        List::Nil => {},
        List::Cons(n) => {
            if !has_temp(keep, n.head) {
                b.emit(Instruction::FreeBoxShell { val: n.head });
                assert(b@.env.scopes == old(b)@.env.scopes && b@.temp_types == old(
                    b,
                )@.temp_types) by {
                    reveal(FState::emit);
                }
            }
            emit_shell_frees(b, &n.tail, keep);
        },
    }
}

/// Registers with the innermost scope every reference in the list that is kept.
fn register_kept(b: &mut FuncBuilder, l: &List<Owned>, keep: &List<Temp>)
    ensures
        final(b)@ == take_over(old(b)@, l, keep),
        grown(old(b)@, final(b)@, 0),
        old(b)@.wf() && owned_ok(l, old(b)@.temp_types.len()) ==> final(b)@.wf(),
    decreases l,
{
    proof {
        owned_tail(l, old(b)@.temp_types.len());
    }
    match l {
        List::Nil => {},
        List::Cons(n) => {
            register_kept(b, &n.tail, keep);
            if has_temp(keep, n.head.temp) {
                b.register_owned(n.head.temp, n.head.ty.dup());
            }
        },
    }
}

/// The parameters that a call of the function passes arguments for.
fn params_of_calls(params: &List<IrParam>, is_closure: bool) -> (r: List<IrParam>)
    ensures
        r == own_params(*params, is_closure),
{
    match params {
        List::Nil => List::Nil,
        List::Cons(n) => if is_closure {
            n.tail.dup()
        } else {
            params.dup()
        },
    }
}

/// The arguments of a tail call that are not the parameter at their own place, passed on
/// unchanged.
fn args_that_move(args: &List<Temp>, params: &List<IrParam>) -> (r: List<Temp>)
    ensures
        r == moving_args(args, params),
    decreases args,
{
    match args {
        List::Nil => List::Nil,
        List::Cons(a) => match params {
            List::Nil => args.dup(),
            List::Cons(p) => if a.head == p.head.temp {
                args_that_move(&a.tail, &p.tail)
            } else {
                prepend(a.head, args_that_move(&a.tail, &p.tail))
            },
        },
    }
}

/// What one of `args` is an alias of, with `args` behind.
fn add_alias_sources(l: &List<Alias>, args: &List<Temp>) -> (r: List<Temp>)
    ensures
        r == with_alias_sources(l, *args),
    decreases l,
{
    match l {
        List::Nil => args.dup(),
        List::Cons(n) => if has_temp(args, n.head.dst) {
            prepend(n.head.src, add_alias_sources(&n.tail, args))
        } else {
            add_alias_sources(&n.tail, args)
        },
    }
}

/// The list without one occurrence of the temporary.
fn drop_one(l: &List<Temp>, t: Temp) -> (r: List<Temp>)
    ensures
        r == without_one(l, t),
    decreases l,
{
    match l {
        List::Nil => List::Nil,
        List::Cons(n) => if n.head == t {
            n.tail.dup()
        } else {
            prepend(n.head, drop_one(&n.tail, t))
        },
    }
}

/// Emits the release of every reference in the list, apart from one for each temporary in
/// `keep`. Returns what is left of `keep`.
fn emit_unkept_releases(b: &mut FuncBuilder, l: &List<Owned>, keep: List<Temp>) -> (r: List<Temp>)
    ensures
        (final(b)@, r) == release_unkept(old(b)@, l, keep),
        grown(old(b)@, final(b)@, 0),
        old(b)@.wf() && owned_ok(l, old(b)@.temp_types.len()) ==> final(b)@.wf(),
    decreases l,
{
    proof {
        owned_tail(l, old(b)@.temp_types.len());
    }
    match l {
        List::Nil => keep,
        List::Cons(n) => if has_temp(&keep, n.head.temp) {
            let left = drop_one(&keep, n.head.temp);
            emit_unkept_releases(b, &n.tail, left)
        } else {
            b.emit(Instruction::Release { val: n.head.temp, ty: n.head.ty.dup() });
            emit_unkept_releases(b, &n.tail, keep)
        },
    }
}

/// Emits the release of what the scopes own, apart from one reference for each temporary in
/// `keep` and from the shells of the arguments.
fn emit_scope_releases(b: &mut FuncBuilder, l: &List<Scope>, keep: List<Temp>, args: &List<Temp>)
    ensures
        final(b)@ == release_scopes(old(b)@, l, keep, args),
        grown(old(b)@, final(b)@, 0),
        old(b)@.wf() && scopes_ok(l, old(b)@.temp_types.len()) ==> final(b)@.wf(),
    decreases l,
{
    proof {
        scopes_tail(l, old(b)@.temp_types.len());
    }
    match l {
        List::Nil => {},
        List::Cons(n) => {
            let left = emit_unkept_releases(b, &n.head.owned, keep);
            emit_shell_frees(b, &n.head.shells, args);
            emit_scope_releases(b, &n.tail, left, args);
        },
    }
}

/// The incomings with `new_pred` in place of `old_pred`.
fn incomings_repred(l: &List<Incoming>, old_pred: BlockId, new_pred: BlockId) -> (r: List<
    Incoming,
>)
    ensures
        r == repred_incomings(l, old_pred, new_pred),
        forall|n: nat| incomings_ok(l, n) ==> #[trigger] incomings_ok(&r, n),
        forall|m: nat| preds_ok(l, m) && new_pred.0 < m ==> #[trigger] preds_ok(&r, m),
    decreases l,
{
    match l {
        List::Nil => List::Nil,
        List::Cons(n) => {
            let pred = if n.head.pred == old_pred {
                new_pred
            } else {
                n.head.pred
            };
            prepend(
                Incoming { val: n.head.val, pred },
                incomings_repred(&n.tail, old_pred, new_pred),
            )
        },
    }
}

/// The incomings with `new_val` from `new_pred` in place of `old_val`.
fn incomings_reval(
    l: &List<Incoming>,
    old_val: Temp,
    new_val: Temp,
    new_pred: BlockId,
) -> (r: List<Incoming>)
    ensures
        r == reval_incomings(l, old_val, new_val, new_pred),
        forall|n: nat|
            incomings_ok(l, n) && temp_ok(new_val, n) ==> #[trigger] incomings_ok(&r, n),
        forall|m: nat| preds_ok(l, m) && new_pred.0 < m ==> #[trigger] preds_ok(&r, m),
    decreases l,
{
    match l {
        List::Nil => List::Nil,
        List::Cons(n) => {
            let head = if n.head.val == old_val {
                Incoming { val: new_val, pred: new_pred }
            } else {
                Incoming { val: n.head.val, pred: n.head.pred }
            };
            prepend(head, incomings_reval(&n.tail, old_val, new_val, new_pred))
        },
    }
}

/// The code with the predecessor of one phi changed.
fn code_repred(
    code: &List<Rc<Spanned>>,
    phi: Temp,
    old_pred: BlockId,
    new_pred: BlockId,
) -> (r: List<Rc<Spanned>>)
    ensures
        r == repred(code, phi, old_pred, new_pred),
        forall|n: nat| code_ok(code, n) ==> #[trigger] code_ok(&r, n),
        forall|m: nat| phis_ok(code, m) && new_pred.0 < m ==> #[trigger] phis_ok(&r, m),
    decreases code,
{
    match code {
        List::Nil => List::Nil,
        List::Cons(n) => {
            if let Instruction::Phi { dst, ty, incomings } = &n.head.instr {
                if *dst == phi {
                    return prepend(
                        Rc::new(
                            Spanned {
                                instr: Instruction::Phi {
                                    dst: *dst,
                                    ty: ty.dup(),
                                    incomings: incomings_repred(incomings, old_pred, new_pred),
                                },
                                span: n.head.span,
                            },
                        ),
                        n.tail.dup(),
                    );
                }
            }
            prepend(share(&n.head), code_repred(&n.tail, phi, old_pred, new_pred))
        },
    }
}

/// The code with one incoming of one phi changed.
fn code_reval(
    code: &List<Rc<Spanned>>,
    phi: Temp,
    old_val: Temp,
    new_val: Temp,
    new_pred: BlockId,
) -> (r: List<Rc<Spanned>>)
    ensures
        r == reval(code, phi, old_val, new_val, new_pred),
        forall|n: nat| code_ok(code, n) && temp_ok(new_val, n) ==> #[trigger] code_ok(&r, n),
        forall|m: nat| phis_ok(code, m) && new_pred.0 < m ==> #[trigger] phis_ok(&r, m),
    decreases code,
{
    match code {
        List::Nil => List::Nil,
        List::Cons(n) => {
            if let Instruction::Phi { dst, ty, incomings } = &n.head.instr {
                if *dst == phi {
                    return prepend(
                        Rc::new(
                            Spanned {
                                instr: Instruction::Phi {
                                    dst: *dst,
                                    ty: ty.dup(),
                                    incomings: incomings_reval(
                                        incomings,
                                        old_val,
                                        new_val,
                                        new_pred,
                                    ),
                                },
                                span: n.head.span,
                            },
                        ),
                        n.tail.dup(),
                    );
                }
            }
            prepend(share(&n.head), code_reval(&n.tail, phi, old_val, new_val, new_pred))
        },
    }
}

} // verus!
