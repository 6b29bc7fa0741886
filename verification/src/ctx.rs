//! What lowering knows about the whole program, and the state that it threads through.

use crate::ast::{Span, TypedExpr, TypedParam};
use crate::builder::{Entry, FState, FuncBuilder, find, find_spec, function_ok, grown};
use crate::ir::{FuncId, Function, Temp};
use crate::list::{List, cons, prepend};
use crate::names::Combinator;
use crate::text::Text;
use crate::types::Type;
use crate::valid::{group_valid, packed_elem_ok, packed_ok};
use std::collections::HashMap;
use vstd::prelude::*;

verus! {

broadcast use {vstd::std_specs::hash::group_hash_axioms, group_valid};

/// A table of values by slot.
pub struct SlotTable<V> {
    pub map: HashMap<usize, V>,
}

impl<V> SlotTable<V> {
    /// The values by slot.
    pub open spec fn view(&self) -> Map<usize, V> {
        self.map@
    }

    /// Makes an empty table.
    pub fn new() -> (r: SlotTable<V>)
        ensures
            r@ == Map::<usize, V>::empty(),
    {
        SlotTable { map: HashMap::new() }
    }

    /// Looks a slot up.
    pub fn get(&self, slot: usize) -> (r: Option<&V>)
        ensures
            match r {
                Some(v) => table_at(self@, slot) == Some(*v),
                None => table_at(self@, slot) is None,
            },
    {
        self.map.get(&slot)
    }

    /// Whether the table holds a value for the slot.
    pub fn has(&self, slot: usize) -> (r: bool)
        ensures
            r == (table_at(self@, slot) is Some),
    {
        self.map.contains_key(&slot)
    }

    /// Files a value under a slot.
    pub fn insert(&mut self, slot: usize, value: V)
        ensures
            final(self)@ == old(self)@.insert(slot, value),
    {
        self.map.insert(slot, value);
    }
}

/// The value that a map holds for the slot.
pub open spec fn table_at<V>(m: Map<usize, V>, slot: usize) -> Option<V> {
    if m.contains_key(slot) {
        Some(m[slot])
    } else {
        None
    }
}

/// A function that another module exports.
pub struct ImportFn {
    pub sym: String,
    pub params: List<Type>,
}

/// A value that another module exports, behind a function that returns it.
pub struct ImportVal {
    pub wrapper: String,
    pub ty: Type,
}

/// An element of an array of packed records that is read in place.
pub struct PackedElem {
    pub array: Temp,
    pub index: Temp,
    pub elem_ty: Type,
}

impl PackedElem {
    /// A copy.
    pub fn dup(&self) -> (r: PackedElem)
        ensures
            r == *self,
    {
        PackedElem { array: self.array, index: self.index, elem_ty: self.elem_ty.dup() }
    }
}

/// A function that fills in default arguments and calls the real one.
pub struct AdapterSpec {
    pub adapter_fid: FuncId,
    pub symbol: Text,
    pub real_slot: usize,
    pub real_fn_ty: Type,
    pub params: List<TypedParam>,
    pub arity: usize,
    pub ret_type: Type,
    pub span: Span,
}

/// The adapter of a function for calls with `arity` arguments.
pub struct DefaultAdapter {
    pub target: FuncId,
    pub arity: usize,
    pub adapter: FuncId,
}

/// The functions to call for each number of arguments from `required` to `total`, the real
/// function last.
pub struct DefaultDescriptor {
    pub required: usize,
    pub total: usize,
    pub entries: List<FuncId>,
}

/// What is known about the variables of the program.
pub struct Tables {
    pub import_fn_slots: SlotTable<ImportFn>,
    pub import_val_slots: SlotTable<ImportVal>,
    pub global_fn_slots: SlotTable<FuncId>,
    pub global_val_slots: SlotTable<Type>,
    pub global_var_slots: SlotTable<()>,
    /// The combinators that do not let their callback escape, with its position.
    pub safe_combinator_slots: SlotTable<usize>,
    /// The specialised combinators.
    pub combinator_spec_slots: SlotTable<Combinator>,
    pub flat_producer_spec_slots: SlotTable<()>,
    pub range2_spec_slots: SlotTable<()>,
    pub range3_spec_slots: SlotTable<()>,
    pub spec_origin_slots: SlotTable<()>,
}

/// The tables as mathematical maps.
pub struct TableMaps {
    pub import_fn_slots: Map<usize, ImportFn>,
    pub import_val_slots: Map<usize, ImportVal>,
    pub global_fn_slots: Map<usize, FuncId>,
    pub global_val_slots: Map<usize, Type>,
    pub global_var_slots: Map<usize, ()>,
    pub safe_combinator_slots: Map<usize, usize>,
    pub combinator_spec_slots: Map<usize, Combinator>,
    pub flat_producer_spec_slots: Map<usize, ()>,
    pub range2_spec_slots: Map<usize, ()>,
    pub range3_spec_slots: Map<usize, ()>,
    pub spec_origin_slots: Map<usize, ()>,
}

impl Tables {
    /// The tables as mathematical maps.
    pub open spec fn view(&self) -> TableMaps {
        TableMaps {
            import_fn_slots: self.import_fn_slots@,
            import_val_slots: self.import_val_slots@,
            global_fn_slots: self.global_fn_slots@,
            global_val_slots: self.global_val_slots@,
            global_var_slots: self.global_var_slots@,
            safe_combinator_slots: self.safe_combinator_slots@,
            combinator_spec_slots: self.combinator_spec_slots@,
            flat_producer_spec_slots: self.flat_producer_spec_slots@,
            range2_spec_slots: self.range2_spec_slots@,
            range3_spec_slots: self.range3_spec_slots@,
            spec_origin_slots: self.spec_origin_slots@,
        }
    }

    /// Makes empty tables.
    pub fn new() -> (r: Tables)
        ensures
            r@.import_fn_slots == Map::<usize, ImportFn>::empty(),
            r@.import_val_slots == Map::<usize, ImportVal>::empty(),
            r@.global_fn_slots == Map::<usize, FuncId>::empty(),
            r@.global_val_slots == Map::<usize, Type>::empty(),
            r@.global_var_slots == Map::<usize, ()>::empty(),
            r@.safe_combinator_slots == Map::<usize, usize>::empty(),
            r@.combinator_spec_slots == Map::<usize, Combinator>::empty(),
            r@.flat_producer_spec_slots == Map::<usize, ()>::empty(),
            r@.range2_spec_slots == Map::<usize, ()>::empty(),
            r@.range3_spec_slots == Map::<usize, ()>::empty(),
            r@.spec_origin_slots == Map::<usize, ()>::empty(),
    {
        Tables {
            import_fn_slots: SlotTable::new(),
            import_val_slots: SlotTable::new(),
            global_fn_slots: SlotTable::new(),
            global_val_slots: SlotTable::new(),
            global_var_slots: SlotTable::new(),
            safe_combinator_slots: SlotTable::new(),
            combinator_spec_slots: SlotTable::new(),
            flat_producer_spec_slots: SlotTable::new(),
            range2_spec_slots: SlotTable::new(),
            range3_spec_slots: SlotTable::new(),
            spec_origin_slots: SlotTable::new(),
        }
    }
}

/// The part of the context that is a plain value.
pub struct CtxEnv {
    /// The variables that name operations of the run-time system.
    pub intrinsics: List<Entry<String>>,
    /// The type of errors.
    pub error_ty: Type,
    /// The variables that stand for elements of packed arrays.
    pub packed_elem_slots: List<Entry<PackedElem>>,
    /// A callback is being lowered that does not escape its combinator.
    pub in_safe_callback: bool,
    /// The function to call first in the next function that is lowered.
    pub import_var_init_prologue: Option<Text>,
    pub default_adapters: List<DefaultAdapter>,
    /// The number of the next function.
    pub next_func: u32,
    /// A number was asked for when none was left, for a function or in a finished function.
    pub exhausted: bool,
    /// An expression was nested more deeply than a machine word counts.
    pub too_deep: bool,
}

/// The levels of nesting that are left: as many as a machine word counts, less those that are
/// open. A function that a variable is bound to is lowered again in each place where it is
/// inlined, so the levels are not bounded by those of the text.
pub struct Room {
    levels: usize,
}

impl Room {
    /// The number of levels.
    pub closed spec fn left(&self) -> nat {
        self.levels as nat
    }

    /// All the levels that a machine word counts.
    pub fn new() -> (r: Room)
        ensures
            r.left() == usize::MAX,
    {
        Room { levels: usize::MAX }
    }

    /// Opens a level, where one is left.
    pub(crate) fn descend(&mut self) -> (r: bool)
        ensures
            r == (old(self).left() > 0),
            final(self).left() == if r {
                (old(self).left() - 1) as nat
            } else {
                0
            },
            final(self).left() < usize::MAX,
    {
        if self.levels == 0 {
            return false;
        }
        self.levels = self.levels - 1;
        true
    }

    /// Closes the level that was opened last.
    pub(crate) fn ascend(&mut self)
        requires
            old(self).left() < usize::MAX,
        ensures
            final(self).left() == old(self).left() + 1,
    {
        self.levels = self.levels + 1;
    }
}

/// The context of lowering.
pub struct LowerCtx {
    pub tables: Tables,
    pub functions: Vec<Function>,
    pub pending_functions: Vec<Function>,
    pub pending_adapters: Vec<AdapterSpec>,
    pub default_descriptors: SlotTable<DefaultDescriptor>,
    pub env: CtxEnv,
    /// The levels of nesting that are left.
    pub room: Room,
}

/// The context as a mathematical value.
pub struct CState {
    pub tables: TableMaps,
    pub functions: Seq<Function>,
    pub pending_functions: Seq<Function>,
    pub pending_adapters: Seq<AdapterSpec>,
    pub default_descriptors: Map<usize, DefaultDescriptor>,
    pub env: CtxEnv,
}

/// The state of lowering: the function under construction and the context.
pub struct St {
    pub b: FState,
    pub c: CState,
}

/// How an expression is lowered: the state before it to the state after it, with the
/// temporary that holds its value.
pub type Lower = spec_fn(TypedExpr, St) -> (St, Temp);

/// The state of two mutable parts.
pub open spec fn st(b: &FuncBuilder, c: &LowerCtx) -> St {
    St { b: b@, c: c@ }
}

/// A step of the function under construction leaves the context alone.
pub open spec fn on<T>(s: St, r: (FState, T)) -> (St, T) {
    (St { b: r.0, c: s.c }, r.1)
}

/// `l` applied to an expression.
pub open spec fn low(l: Lower, e: &TypedExpr, s: St) -> (St, Temp) {
    l(*e, s)
}

/// A step of the context leaves the function under construction alone.
pub open spec fn on_ctx<T>(s: St, r: (CState, T)) -> (St, T) {
    (St { b: s.b, c: r.0 }, r.1)
}

/// A step of the context leaves the function under construction alone.
pub open spec fn on_c(s: St, c: CState) -> St {
    St { b: s.b, c }
}

/// A step of the function under construction leaves the context alone.
pub open spec fn on_b(s: St, b: FState) -> St {
    St { b, c: s.c }
}

impl LowerCtx {
    /// The context as a mathematical value.
    pub open spec fn view(&self) -> CState {
        CState {
            tables: self.tables@,
            functions: self.functions@,
            pending_functions: self.pending_functions@,
            pending_adapters: self.pending_adapters@,
            default_descriptors: self.default_descriptors@,
            env: self.env,
        }
    }

    /// Makes a context in which nothing has been lowered yet.
    pub fn new(
        tables: Tables,
        intrinsics: List<Entry<String>>,
        error_ty: Type,
        next_func: u32,
    ) -> (r: LowerCtx)
        ensures
            r@.tables == tables@,
            r@.functions == Seq::<Function>::empty(),
            r@.pending_functions == Seq::<Function>::empty(),
            r@.pending_adapters == Seq::<AdapterSpec>::empty(),
            r@.default_descriptors == Map::<usize, DefaultDescriptor>::empty(),
            r@.env == (CtxEnv {
                intrinsics,
                error_ty,
                packed_elem_slots: List::Nil,
                in_safe_callback: false,
                import_var_init_prologue: None,
                default_adapters: List::Nil,
                next_func,
                exhausted: false,
                too_deep: false,
            }),
            r.room.left() == usize::MAX,
    {
        LowerCtx {
            tables,
            functions: Vec::new(),
            pending_functions: Vec::new(),
            pending_adapters: Vec::new(),
            default_descriptors: SlotTable::new(),
            env: CtxEnv {
                intrinsics,
                error_ty,
                packed_elem_slots: List::Nil,
                in_safe_callback: false,
                import_var_init_prologue: None,
                default_adapters: List::Nil,
                next_func,
                exhausted: false,
                too_deep: false,
            },
            room: Room::new(),
        }
    }
}

/// Every jump of each of the functions goes to one of its own blocks.
#[verifier::opaque]
pub open spec fn all_functions_ok(fs: Seq<Function>) -> bool {
    forall|i: int| 0 <= i < fs.len() ==> function_ok(#[trigger] fs[i])
}

impl CState {
    /// Every jump of the functions that were made goes to a block of the same function.
    pub open spec fn functions_ok(self) -> bool {
        all_functions_ok(self.functions) && all_functions_ok(self.pending_functions)
    }

    /// A number for a new function.
    pub open spec fn alloc_func_id(self) -> (CState, FuncId) {
        if self.env.next_func < u32::MAX {
            (
                CState {
                    env: CtxEnv { next_func: (self.env.next_func + 1) as u32, ..self.env },
                    ..self
                },
                FuncId(self.env.next_func),
            )
        } else {
            (CState { env: CtxEnv { exhausted: true, ..self.env }, ..self }, FuncId(u32::MAX))
        }
    }

    /// The slot stands for an element of a packed array.
    pub open spec fn add_packed(self, slot: usize, value: PackedElem) -> CState {
        CState {
            env: CtxEnv {
                packed_elem_slots: cons(Entry { slot, value }, self.env.packed_elem_slots),
                ..self.env
            },
            ..self
        }
    }

    /// The slot no longer stands for an element of a packed array.
    pub open spec fn drop_packed(self, slot: usize) -> CState {
        CState {
            env: CtxEnv {
                packed_elem_slots: packed_without(&self.env.packed_elem_slots, slot),
                ..self.env
            },
            ..self
        }
    }

    /// Whether a callback that does not escape is being lowered.
    pub open spec fn set_safe(self, on: bool) -> CState {
        CState { env: CtxEnv { in_safe_callback: on, ..self.env }, ..self }
    }
}

/// The entries without those of the slot.
pub open spec fn packed_without(l: &List<Entry<PackedElem>>, slot: usize) -> List<
    Entry<PackedElem>,
>
    decreases l,
{
    match l {
        List::Nil => List::Nil,
        List::Cons(n) => if n.head.slot == slot {
            packed_without(&n.tail, slot)
        } else {
            cons(n.head, packed_without(&n.tail, slot))
        },
    }
}

/// Without the entries of a slot nothing is found under it, and what is found under another
/// one is the same.
proof fn found_without(l: &List<Entry<PackedElem>>, slot: usize, other: usize)
    ensures
        find_spec(&packed_without(l, slot), other) == (if other == slot {
            None
        } else {
            find_spec(l, other)
        }),
    decreases l,
{
    match l {
        List::Nil => {},
        List::Cons(k) => found_without(&k.tail, slot, other),
    }
}

/// What stands for an element is among the temporaries of the list.
proof fn found_packed_ok(l: &List<Entry<PackedElem>>, slot: usize, n: nat)
    requires
        packed_ok(l, n),
    ensures
        find_spec(l, slot) matches Some(p) ==> packed_elem_ok(&p, n),
    decreases l,
{
    match l {
        List::Nil => {},
        List::Cons(k) => found_packed_ok(&k.tail, slot, n),
    }
}

/// The entries without those of the slot.
fn without_packed(l: &List<Entry<PackedElem>>, slot: usize) -> (r: List<Entry<PackedElem>>)
    ensures
        r == packed_without(l, slot),
        forall|n: nat| packed_ok(l, n) ==> #[trigger] packed_ok(&r, n),
        forall|other: usize|
            #[trigger] find_spec(&r, other) == (if other == slot {
                None
            } else {
                find_spec(l, other)
            }),
    decreases l,
{
    proof {
        assert forall|other: usize| #[trigger] find_spec(&packed_without(l, slot), other) == (
        if other == slot {
            None
        } else {
            find_spec(l, other)
        }) by {
            found_without(l, slot, other);
        }
    }
    match l {
        List::Nil => List::Nil,
        List::Cons(n) => if n.head.slot == slot {
            without_packed(&n.tail, slot)
        } else {
            prepend(
                Entry { slot: n.head.slot, value: n.head.value.dup() },
                without_packed(&n.tail, slot),
            )
        },
    }
}

/// Lowering has left alone what it only reads: the tables, the operations of the run-time
/// system and the type of errors. No function has gone.
pub open spec fn state_kept(a: CState, b: CState) -> bool {
    &&& a.tables == b.tables
    &&& a.env.intrinsics == b.env.intrinsics
    &&& a.env.error_ty == b.env.error_ty
    &&& a.env.default_adapters == b.env.default_adapters
    &&& a.default_descriptors == b.default_descriptors
    &&& a.pending_adapters == b.pending_adapters
    &&& a.functions.len() <= b.functions.len()
    &&& a.pending_functions.len() <= b.pending_functions.len()
    &&& a.env.next_func <= b.env.next_func
    &&& a.env.exhausted ==> b.env.exhausted
    &&& a.env.too_deep ==> b.env.too_deep
}

/// Every variable that stands for an element of a packed array in `after` did so in `before`,
/// for the same element.
pub open spec fn packed_le(
    after: &List<Entry<PackedElem>>,
    before: &List<Entry<PackedElem>>,
) -> bool {
    forall|slot: usize|
        (#[trigger] find_spec(after, slot)) is Some ==> find_spec(before, slot) == find_spec(
            after,
            slot,
        )
}

/// Where no variable stood for an element of a packed array, none does.
pub proof fn below_nil_is_nil(after: &List<Entry<PackedElem>>)
    requires
        packed_le(after, &List::Nil),
    ensures
        *after is Nil,
{
    match after {
        List::Nil => {},
        List::Cons(k) => {
            assert(find_spec(after, k.head.slot) is Some);
        },
    }
}

/// Lowering has left alone what it only reads, and it has put back the nesting, whether a
/// callback is being lowered that does not escape, and the variables that stand for elements
/// of packed arrays.
pub open spec fn ctx_kept(a: LowerCtx, b: LowerCtx) -> bool {
    &&& a.room.left() == b.room.left()
    &&& a.env.in_safe_callback == b.env.in_safe_callback
    &&& state_kept(a@, b@)
    &&& packed_le(&b.env.packed_elem_slots, &a.env.packed_elem_slots)
}

/// As `ctx_kept`, whatever variables stand for elements of packed arrays.
pub open spec fn ctx_kept_but_packed(a: LowerCtx, b: LowerCtx) -> bool {
    &&& a.room.left() == b.room.left()
    &&& a.env.in_safe_callback == b.env.in_safe_callback
    &&& state_kept(a@, b@)
}

/// What holds from before a lowering to after it, whatever is lowered: the function has
/// grown, no temporary that was there is defined, the same scopes are open, and the context is
/// kept.
pub open spec fn ran(b0: FuncBuilder, c0: LowerCtx, b1: FuncBuilder, c1: LowerCtx) -> bool {
    grown(b0@, b1@, 0) && ctx_kept(c0, c1)
}

/// Everything that the state mentions exists: blocks and temporaries of the function under
/// construction, and those of the functions that are finished. No temporary is defined twice.
pub open spec fn valid(s: St) -> bool {
    &&& s.b.wf()
    &&& packed_ok(&s.c.env.packed_elem_slots, s.b.temp_types.len())
    &&& s.c.functions_ok()
}

impl CState {
    /// The function of another module that the variable names.
    pub open spec fn import_fn(self, slot: usize) -> Option<ImportFn> {
        table_at(self.tables.import_fn_slots, slot)
    }

    /// The value of another module that the variable names.
    pub open spec fn import_val(self, slot: usize) -> Option<ImportVal> {
        table_at(self.tables.import_val_slots, slot)
    }

    /// The function of this module that the variable names.
    pub open spec fn global_fn(self, slot: usize) -> Option<FuncId> {
        table_at(self.tables.global_fn_slots, slot)
    }

    /// The type of the global variable.
    pub open spec fn global_val(self, slot: usize) -> Option<Type> {
        table_at(self.tables.global_val_slots, slot)
    }

    /// The position of the callback that the named combinator does not let escape.
    pub open spec fn safe_combinator(self, slot: usize) -> Option<usize> {
        table_at(self.tables.safe_combinator_slots, slot)
    }

    /// The combinator that the variable names, specialised.
    pub open spec fn combinator_spec(self, slot: usize) -> Option<Combinator> {
        table_at(self.tables.combinator_spec_slots, slot)
    }

    /// The variable is a global that is assigned to.
    pub open spec fn is_global_var(self, slot: usize) -> bool {
        table_at(self.tables.global_var_slots, slot) is Some
    }

    /// The variable names a specialised function that makes a flat array.
    pub open spec fn is_flat_producer_slot(self, slot: usize) -> bool {
        table_at(self.tables.flat_producer_spec_slots, slot) is Some
    }

    /// The variable names a specialised range of two bounds.
    pub open spec fn is_range2_slot(self, slot: usize) -> bool {
        table_at(self.tables.range2_spec_slots, slot) is Some
    }

    /// The variable names a specialised range with a step.
    pub open spec fn is_range3_slot(self, slot: usize) -> bool {
        table_at(self.tables.range3_spec_slots, slot) is Some
    }

    /// The variable names a specialised function.
    pub open spec fn is_spec_origin_slot(self, slot: usize) -> bool {
        table_at(self.tables.spec_origin_slots, slot) is Some
    }

    /// The element of a packed array that the variable stands for.
    pub open spec fn packed(self, slot: usize) -> Option<PackedElem> {
        find_spec(&self.env.packed_elem_slots, slot)
    }

    /// The adapter of a function for a number of arguments.
    pub open spec fn default_adapter(self, target: FuncId, arity: usize) -> Option<FuncId> {
        adapter_for(&self.env.default_adapters, target, arity)
    }

    /// From here on a callback is lowered that does not escape; what held before.
    pub open spec fn enter_safe(self) -> (CState, bool) {
        (self.set_safe(true), self.env.in_safe_callback)
    }

    /// What held before a callback was lowered holds again.
    pub open spec fn leave_safe(self, before: bool) -> CState {
        self.set_safe(before)
    }

    /// The function to call first is taken.
    pub open spec fn take_prologue(self) -> (CState, Option<Text>) {
        (
            CState { env: CtxEnv { import_var_init_prologue: None, ..self.env }, ..self },
            self.env.import_var_init_prologue,
        )
    }

    /// No variable stands for an element of a packed array; those that did.
    pub open spec fn take_packed(self) -> (CState, List<Entry<PackedElem>>) {
        (
            CState { env: CtxEnv { packed_elem_slots: List::Nil, ..self.env }, ..self },
            self.env.packed_elem_slots,
        )
    }

    /// The variables in the list stand for elements of packed arrays.
    pub open spec fn restore_packed(self, packed_elem_slots: List<Entry<PackedElem>>) -> CState {
        CState { env: CtxEnv { packed_elem_slots, ..self.env }, ..self }
    }

    /// One more function.
    pub open spec fn push_function(self, f: Function) -> CState {
        CState { functions: self.functions.push(f), ..self }
    }

    /// One more function that another one contains.
    pub open spec fn push_pending(self, f: Function) -> CState {
        CState { pending_functions: self.pending_functions.push(f), ..self }
    }

    /// It is recorded that numbers have run out, where they have.
    pub open spec fn note_exhausted(self, exhausted: bool) -> CState {
        CState { env: CtxEnv { exhausted: self.env.exhausted || exhausted, ..self.env }, ..self }
    }
}

/// The adapter of a function for a number of arguments.
pub open spec fn adapter_for(l: &List<DefaultAdapter>, target: FuncId, arity: usize) -> Option<
    FuncId,
>
    decreases l,
{
    match l {
        List::Nil => None,
        List::Cons(n) => if n.head.target == target && n.head.arity == arity {
            Some(n.head.adapter)
        } else {
            adapter_for(&n.tail, target, arity)
        },
    }
}

/// Looks up the adapter of a function for a number of arguments.
fn find_adapter(l: &List<DefaultAdapter>, target: FuncId, arity: usize) -> (r: Option<FuncId>)
    ensures
        r == adapter_for(l, target, arity),
    decreases l,
{
    match l {
        List::Nil => None,
        List::Cons(n) => if n.head.target == target && n.head.arity == arity {
            Some(n.head.adapter)
        } else {
            find_adapter(&n.tail, target, arity)
        },
    }
}

impl ImportFn {
    /// A copy.
    pub fn dup(&self) -> (r: ImportFn)
        ensures
            r == *self,
    {
        ImportFn { sym: self.sym.clone(), params: self.params.dup() }
    }
}

impl ImportVal {
    /// A copy.
    pub fn dup(&self) -> (r: ImportVal)
        ensures
            r == *self,
    {
        ImportVal { wrapper: self.wrapper.clone(), ty: self.ty.dup() }
    }
}

impl LowerCtx {
    /// The function of another module that the variable names.
    pub fn import_fn(&self, slot: usize) -> (r: Option<ImportFn>)
        ensures
            r == self@.import_fn(slot),
    {
        match self.tables.import_fn_slots.get(slot) {
            Some(v) => Some(v.dup()),
            None => None,
        }
    }

    /// The value of another module that the variable names.
    pub fn import_val(&self, slot: usize) -> (r: Option<ImportVal>)
        ensures
            r == self@.import_val(slot),
    {
        match self.tables.import_val_slots.get(slot) {
            Some(v) => Some(v.dup()),
            None => None,
        }
    }

    /// The function of this module that the variable names.
    pub fn global_fn(&self, slot: usize) -> (r: Option<FuncId>)
        ensures
            r == self@.global_fn(slot),
    {
        match self.tables.global_fn_slots.get(slot) {
            Some(v) => Some(*v),
            None => None,
        }
    }

    /// The type of the global variable.
    pub fn global_val(&self, slot: usize) -> (r: Option<Type>)
        ensures
            r == self@.global_val(slot),
    {
        match self.tables.global_val_slots.get(slot) {
            Some(v) => Some(v.dup()),
            None => None,
        }
    }

    /// The position of the callback that the named combinator does not let escape.
    pub fn safe_combinator(&self, slot: usize) -> (r: Option<usize>)
        ensures
            r == self@.safe_combinator(slot),
    {
        match self.tables.safe_combinator_slots.get(slot) {
            Some(v) => Some(*v),
            None => None,
        }
    }

    /// The combinator that the variable names, specialised.
    pub fn combinator_spec(&self, slot: usize) -> (r: Option<Combinator>)
        ensures
            r == self@.combinator_spec(slot),
    {
        match self.tables.combinator_spec_slots.get(slot) {
            Some(v) => Some(*v),
            None => None,
        }
    }

    /// Whether the variable is a global that is assigned to.
    pub fn is_global_var(&self, slot: usize) -> (r: bool)
        ensures
            r == self@.is_global_var(slot),
    {
        self.tables.global_var_slots.has(slot)
    }

    /// Whether the variable names a specialised function that makes a flat array.
    pub fn is_flat_producer_slot(&self, slot: usize) -> (r: bool)
        ensures
            r == self@.is_flat_producer_slot(slot),
    {
        self.tables.flat_producer_spec_slots.has(slot)
    }

    /// Whether the variable names a specialised range of two bounds.
    pub fn is_range2_slot(&self, slot: usize) -> (r: bool)
        ensures
            r == self@.is_range2_slot(slot),
    {
        self.tables.range2_spec_slots.has(slot)
    }

    /// Whether the variable names a specialised range with a step.
    pub fn is_range3_slot(&self, slot: usize) -> (r: bool)
        ensures
            r == self@.is_range3_slot(slot),
    {
        self.tables.range3_spec_slots.has(slot)
    }

    /// Whether the variable names a specialised function.
    pub fn is_spec_origin_slot(&self, slot: usize) -> (r: bool)
        ensures
            r == self@.is_spec_origin_slot(slot),
    {
        self.tables.spec_origin_slots.has(slot)
    }

    /// The element of a packed array that the variable stands for.
    pub fn packed(&self, slot: usize) -> (r: Option<PackedElem>)
        ensures
            r == self@.packed(slot),
            forall|n: nat|
                r is Some && #[trigger] packed_ok(&self.env.packed_elem_slots, n)
                    ==> packed_elem_ok(&r->0, n),
    {
        proof {
            assert forall|n: nat| #[trigger] packed_ok(&self.env.packed_elem_slots, n) implies (
            self@.packed(slot) matches Some(p) ==> packed_elem_ok(&p, n)) by {
                found_packed_ok(&self.env.packed_elem_slots, slot, n);
            }
        }
        match find(&self.env.packed_elem_slots, slot) {
            Some(v) => Some(v.dup()),
            None => None,
        }
    }

    /// The adapter of a function for a number of arguments.
    pub fn default_adapter(&self, target: FuncId, arity: usize) -> (r: Option<FuncId>)
        ensures
            r == self@.default_adapter(target, arity),
    {
        find_adapter(&self.env.default_adapters, target, arity)
    }

    /// Starts to lower a callback that does not escape; returns what held before.
    pub fn enter_safe(&mut self) -> (r: bool)
        ensures
            (final(self)@, r) == old(self)@.enter_safe(),
            final(self).room.left() == old(self).room.left(),
    {
        let before = self.env.in_safe_callback;
        self.env.in_safe_callback = true;
        before
    }

    /// Puts back what held before a callback was lowered.
    pub fn leave_safe(&mut self, before: bool)
        ensures
            final(self)@ == old(self)@.leave_safe(before),
            final(self).room.left() == old(self).room.left(),
    {
        self.env.in_safe_callback = before;
    }

    /// Takes the function to call first.
    pub fn take_prologue(&mut self) -> (r: Option<Text>)
        ensures
            (final(self)@, r) == old(self)@.take_prologue(),
            ctx_kept(*old(self), *final(self)),
    {
        let r = match &self.env.import_var_init_prologue {
            Some(t) => Some(t.dup()),
            None => None,
        };
        self.env.import_var_init_prologue = None;
        r
    }

    /// Takes the record of the variables that stand for elements of packed arrays.
    pub fn take_packed(&mut self) -> (r: List<Entry<PackedElem>>)
        ensures
            (final(self)@, r) == old(self)@.take_packed(),
            ctx_kept(*old(self), *final(self)),
    {
        let r = self.env.packed_elem_slots.dup();
        self.env.packed_elem_slots = List::Nil;
        r
    }

    /// Puts back the record of the variables that stand for elements of packed arrays.
    pub fn restore_packed(&mut self, packed_elem_slots: List<Entry<PackedElem>>)
        ensures
            final(self)@ == old(self)@.restore_packed(packed_elem_slots),
            ctx_kept_but_packed(*old(self), *final(self)),
    {
        self.env.packed_elem_slots = packed_elem_slots;
    }

    /// Adds a function.
    pub fn push_function(&mut self, f: Function)
        ensures
            final(self)@ == old(self)@.push_function(f),
            ctx_kept(*old(self), *final(self)),
            old(self)@.functions_ok() && function_ok(f) ==> final(self)@.functions_ok(),
    {
        reveal(all_functions_ok);
        self.functions.push(f);
    }

    /// Adds a function that another one contains.
    pub fn push_pending(&mut self, f: Function)
        ensures
            final(self)@ == old(self)@.push_pending(f),
            ctx_kept(*old(self), *final(self)),
            old(self)@.functions_ok() && function_ok(f) ==> final(self)@.functions_ok(),
    {
        reveal(all_functions_ok);
        self.pending_functions.push(f);
    }

    /// Records that the numbers of a function that is finished have run out, where they have.
    pub fn note_exhausted(&mut self, exhausted: bool)
        ensures
            final(self)@ == old(self)@.note_exhausted(exhausted),
            ctx_kept(*old(self), *final(self)),
            old(self)@.functions_ok() ==> final(self)@.functions_ok(),
            final(self).env.packed_elem_slots == old(self).env.packed_elem_slots,
    {
        self.env.exhausted = self.env.exhausted || exhausted;
    }

    /// Takes a number for a new function.
    pub fn alloc_func_id(&mut self) -> (r: FuncId)
        ensures
            (final(self)@, r) == old(self)@.alloc_func_id(),
            ctx_kept(*old(self), *final(self)),
    {
        let n: u32 = self.env.next_func;
        if n < u32::MAX {
            self.env.next_func = n + 1;
            FuncId(n)
        } else {
            self.env.exhausted = true;
            FuncId(u32::MAX)
        }
    }

    /// Lets a slot stand for an element of a packed array.
    pub fn add_packed(&mut self, slot: usize, value: PackedElem)
        ensures
            final(self)@ == old(self)@.add_packed(slot, value),
            ctx_kept_but_packed(*old(self), *final(self)),
    {
        self.env.packed_elem_slots =
        prepend(Entry { slot, value }, self.env.packed_elem_slots.dup());
    }

    /// Lets a slot no longer stand for an element of a packed array.
    pub fn drop_packed(&mut self, slot: usize)
        ensures
            final(self)@ == old(self)@.drop_packed(slot),
            ctx_kept(*old(self), *final(self)),
            forall|n: nat|
                packed_ok(&old(self).env.packed_elem_slots, n) ==> #[trigger] packed_ok(
                    &final(self).env.packed_elem_slots,
                    n,
                ),
            forall|other: usize|
                #[trigger] find_spec(&final(self).env.packed_elem_slots, other) == (if other
                    == slot {
                    None
                } else {
                    find_spec(&old(self).env.packed_elem_slots, other)
                }),
    {
        let l = without_packed(&self.env.packed_elem_slots, slot);
        self.env.packed_elem_slots = l;
    }
}

} // verus!
