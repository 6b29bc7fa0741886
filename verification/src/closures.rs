//! Closures, as they run: what they capture, and what their bodies find.

use crate::ast::{Capture, Span, TypedExpr, TypedParam, function_type};
use crate::builder::{FState, find_spec};
use crate::control::cell_type;
use crate::ctx::{Lower, St, on, on_ctx};
use crate::direct::alike;
use crate::func::{
    alloc_params_spec, begin_params_spec, capture_base_spec, declare_params_spec, effective_return,
    finish_body_spec, lower_body_value_spec, lower_capture_spec, lower_captures_spec,
    lower_function_body_spec, lower_function_expr_with_id_spec, mark_captured_cells_spec,
    next_number, own_function_params_spec, read_captures_spec, returns_nothing,
};
use crate::fusion::emit_local;
use crate::ir::{BasicBlock, CallTarget, FuncId, Instruction, Temp};
use crate::list::List;
use crate::looping::{halves_stand, part_stands};
use crate::run::{
    Oracle, Run, Value, after_instr, comes_further, comes_to, comes_to_itself, emitted_runs, instrs,
    is_at, is_open, local_adds_up, made_runs, same_below, stays_local, values_of,
};
use crate::text::Text;
use crate::types::{Type, json};
use vstd::prelude::*;

verus! {

/// The slots of the captured variables, in order.
pub open spec fn captured_slots(captures: &List<Capture>) -> Seq<usize> {
    captures@.map_values(|c: Capture| c.outer_slot)
}

// In the body.

/// The type under which a captured variable is read.
pub open spec fn read_type(cap: &Capture) -> Type {
    if cap.is_mutable {
        json()
    } else {
        cap.ty
    }
}

/// The state after one captured variable has been read, and what it is read to.
pub open spec fn one_read(cap: &Capture, env: Temp, index: u32, b: FState) -> (FState, Temp) {
    let (b1, t) = b.alloc_temp(read_type(cap));
    let b2 = b1.emit(Instruction::EnvCapture { dst: t, env, index, ty: read_type(cap) });
    let b3 = b2.set_slot(cap.outer_slot, t);
    (
        if cap.is_mutable {
            b3.set_cell_slot(cap.outer_slot, cell_type(&cap.ty))
        } else {
            b3
        },
        t,
    )
}

/// Reading one captured variable stays local and binds it, and no other variable.
proof fn one_read_local(cap: &Capture, env: Temp, index: u32, b: FState)
    ensures
        ({
            let (b2, t) = one_read(cap, env, index, b);
            &&& stays_local(b, b2)
            &&& b2.temp_types.len() < u32::MAX ==> t.0 == b.temp_types.len() && b2.temp_types.len()
                == b.temp_types.len() + 1
            &&& b2.slot(cap.outer_slot) == Some(t)
            &&& forall|slot: usize|
                slot != cap.outer_slot ==> #[trigger] b2.slot(slot) == b.slot(slot)
        }),
{
    reveal(FState::alloc_temp);
    reveal(FState::emit);
    reveal(FState::set_slot);
    reveal(FState::set_cell_slot);
    reveal_with_fuel(instrs, 2);
    let (b2, t) = one_read(cap, env, index, b);
    assert forall|slot: usize| slot != cap.outer_slot implies #[trigger] b2.slot(slot) == b.slot(
        slot,
    ) by {
        reveal_with_fuel(find_spec, 2);
    }
}

/// Reading captured variables: first the first one, then the others.
proof fn reads_unfold(captures: &List<Capture>, env: Temp, index: u32, b: FState)
    ensures
        match captures {
            List::Nil => read_captures_spec(captures, env, index, b) == b,
            List::Cons(n) => read_captures_spec(captures, env, index, b) == read_captures_spec(
                &n.tail,
                env,
                next_number(index),
                one_read(&n.head, env, index, b).0,
            ),
        },
{
    reveal(read_captures_spec);
}

/// Reading captured variables stays local and leaves the bindings of other variables alone.
proof fn reads_local(captures: &List<Capture>, env: Temp, index: u32, b: FState)
    ensures
        stays_local(b, read_captures_spec(captures, env, index, b)),
        forall|slot: usize|
            !captured_slots(captures).contains(slot) ==> #[trigger] read_captures_spec(
                captures,
                env,
                index,
                b,
            ).slot(slot) == b.slot(slot),
    decreases captures,
{
    reads_unfold(captures, env, index, b);
    let b2 = read_captures_spec(captures, env, index, b);
    match captures {
        List::Nil => {},
        List::Cons(n) => {
            let b1 = one_read(&n.head, env, index, b).0;
            one_read_local(&n.head, env, index, b);
            reads_local(&n.tail, env, next_number(index), b1);
            local_adds_up(b, b1, b2);
            assert forall|slot: usize| !captured_slots(captures).contains(slot) implies #[trigger]
                b2.slot(slot) == b.slot(slot) by {
                slots_of_tail(captures);
                assert(b1.slot(slot) == b.slot(slot));
            }
        },
    }
}

/// The slots of the first and of the other captured variables.
proof fn slots_of_tail(captures: &List<Capture>)
    ensures
        captures matches List::Cons(n) ==> captured_slots(captures) == seq![n.head.outer_slot]
            + captured_slots(&n.tail),
        captures matches List::Cons(n) ==> forall|slot: usize|
            #[trigger] captured_slots(captures).contains(slot) <==> slot == n.head.outer_slot
                || captured_slots(&n.tail).contains(slot),
{
    match captures {
        List::Nil => {},
        List::Cons(n) => {
            let all = captured_slots(captures);
            let rest = captured_slots(&n.tail);
            assert(all =~= seq![n.head.outer_slot] + rest);
            assert(all[0] == n.head.outer_slot);
            assert forall|slot: usize| rest.contains(slot) implies all.contains(slot) by {
                let i = choose|i: int| 0 <= i < rest.len() && rest[i] == slot;
                assert(all[i + 1] == slot);
            }
            assert forall|slot: usize| #[trigger]
                all.contains(slot) && slot != n.head.outer_slot implies rest.contains(slot) by {
                let i = choose|i: int| 0 <= i < all.len() && all[i] == slot;
                assert(rest[i - 1] == slot);
            }
        },
    }
}

/// Each captured variable is bound to a temporary that holds what the environment holds for it:
/// the first variable the entry `from`, the next one the next entry, and so on.
pub open spec fn finds(
    captures: &List<Capture>,
    from: int,
    vs: Seq<Value>,
    b: FState,
    r: Run,
) -> bool {
    forall|k: int|
        0 <= k < captures@.len() ==> {
            let slot = (#[trigger] captures@[k]).outer_slot;
            &&& b.slot(slot) is Some
            &&& b.slot(slot)->Some_0.0 < b.temp_types.len()
            &&& r.vals[b.slot(slot)->Some_0] == vs[from + k]
        }
}

/// Reading captured variables runs.
proof fn reads_run(
    captures: &List<Capture>,
    env: Temp,
    index: u32,
    b: FState,
    code: Seq<BasicBlock>,
    sem: Oracle,
    vs: Seq<Value>,
    r: Run,
) -> (r2: Run)
    requires
        is_open(b),
        read_captures_spec(captures, env, index, b).blocks.len() < u32::MAX,
        read_captures_spec(captures, env, index, b).temp_types.len() < u32::MAX,
        part_stands(b, read_captures_spec(captures, env, index, b), code),
        is_at(b, r),
        env.0 < b.temp_types.len(),
        r.vals[env] == Value::Items(vs),
        index + captures@.len() <= u32::MAX,
        captured_slots(captures).no_duplicates(),
    ensures
        ({
            let b2 = read_captures_spec(captures, env, index, b);
            &&& comes_to(code, sem, r, r2)
            &&& is_open(b2)
            &&& is_at(b2, r2)
            &&& same_below(b, r, r2)
            &&& r2.mem == r.mem
            &&& finds(captures, index as int, vs, b2, r2)
        }),
    decreases captures,
{
    reads_unfold(captures, env, index, b);
    let b2 = read_captures_spec(captures, env, index, b);
    match captures {
        List::Nil => {
            comes_to_itself(code, sem, r);
            r
        },
        List::Cons(n) => {
            let (b1, t) = one_read(&n.head, env, index, b);
            let next = next_number(index);
            one_read_local(&n.head, env, index, b);
            reads_local(&n.tail, env, next, b1);
            halves_stand(b, b1, b2, code);
            slots_of_tail(captures);
            let rest = captured_slots(&n.tail);
            assert forall|i: int, j: int|
                0 <= i < rest.len() && 0 <= j < rest.len() && i != j implies rest[i] != rest[j] by {
                assert(captured_slots(captures)[i + 1] != captured_slots(captures)[j + 1]);
            }
            let i = Instruction::EnvCapture { dst: t, env, index, ty: read_type(&n.head) };
            let e = b.alloc_temp(read_type(&n.head)).0.emit(i);
            assert(alike(b1, e) && b.temp_types.len() < u32::MAX) by {
                reveal(FState::set_slot);
                reveal(FState::set_cell_slot);
                reveal(FState::alloc_temp);
                reveal(FState::emit);
            }
            made_runs(b, read_type(&n.head), i, code, sem, r);
            let r1 = after_instr(sem, i, r);
            assert(r1.vals[t] == vs[index as int]);
            let r2 = reads_run(&n.tail, env, next, b1, code, sem, vs, r1);
            comes_further(code, sem, r, r1, r2);
            assert(!rest.contains(n.head.outer_slot)) by {
                if rest.contains(n.head.outer_slot) {
                    let j = choose|j: int| 0 <= j < rest.len() && rest[j] == n.head.outer_slot;
                    assert(captured_slots(captures)[0] != captured_slots(captures)[j + 1]);
                }
            }
            assert(b2.slot(n.head.outer_slot) == b1.slot(n.head.outer_slot));
            assert forall|k: int| 0 <= k < captures@.len() implies ({
                let slot = (#[trigger] captures@[k]).outer_slot;
                &&& b2.slot(slot) is Some
                &&& b2.slot(slot)->Some_0.0 < b2.temp_types.len()
                &&& r2.vals[b2.slot(slot)->Some_0] == vs[index + k]
            }) by {
                if k == 0 {
                    assert(captures@[0] == n.head);
                } else {
                    assert(captures@[k] == n.tail@[k - 1]);
                }
            }
            r2
        },
    }
}

/// The parameters that are functions are registered; no code is emitted.
proof fn owning_is_alike(params: &List<TypedParam>, b: FState)
    ensures
        alike(own_function_params_spec(params, b), b),
        own_function_params_spec(params, b).env.slots == b.env.slots,
    decreases params,
{
    reveal(own_function_params_spec);
    reveal(FState::register_owned);
    match params {
        List::Nil => {},
        List::Cons(n) => {
            let b1 = match (n.head.ty.is_function(), b.slot(n.head.slot)) {
                (true, Some(t)) => b.register_owned(t, n.head.ty.dup()),
                _ => b,
            };
            owning_is_alike(&n.tail, b1);
        },
    }
}

/// The name of a parameter for a debugger.
pub open spec fn declaration(p: &TypedParam, temp: Temp, no: u32, span: Span) -> Instruction {
    Instruction::DebugDeclare { temp, name: p.name, ty: p.ty, param_no: Some(no), span }
}

/// Naming the parameters stays local and binds nothing.
proof fn declaring_local(params: &List<TypedParam>, no: u32, span: Span, b: FState)
    ensures
        stays_local(b, declare_params_spec(params, no, span, b)),
        declare_params_spec(params, no, span, b).env.slots == b.env.slots,
        declare_params_spec(params, no, span, b).temp_types == b.temp_types,
    decreases params,
{
    reveal(declare_params_spec);
    match params {
        List::Nil => {},
        List::Cons(n) => match b.slot(n.head.slot) {
            Some(temp) => {
                let i = declaration(&n.head, temp, no, span);
                emit_local(b, i);
                declaring_local(&n.tail, next_number(no), span, b.emit(i));
                local_adds_up(b, b.emit(i), declare_params_spec(params, no, span, b));
                reveal(FState::emit);
            },
            None => declaring_local(&n.tail, next_number(no), span, b),
        },
    }
}

/// Naming the parameters changes nothing that counts here.
proof fn declaring_runs(
    params: &List<TypedParam>,
    no: u32,
    span: Span,
    b: FState,
    code: Seq<BasicBlock>,
    sem: Oracle,
    r: Run,
) -> (r2: Run)
    requires
        is_open(b),
        declare_params_spec(params, no, span, b).blocks.len() < u32::MAX,
        declare_params_spec(params, no, span, b).temp_types.len() < u32::MAX,
        part_stands(b, declare_params_spec(params, no, span, b), code),
        is_at(b, r),
    ensures
        comes_to(code, sem, r, r2),
        is_at(declare_params_spec(params, no, span, b), r2),
        r2.vals == r.vals,
        r2.mem == r.mem,
    decreases params,
{
    reveal(declare_params_spec);
    match params {
        List::Nil => {
            comes_to_itself(code, sem, r);
            r
        },
        List::Cons(n) => match b.slot(n.head.slot) {
            Some(temp) => {
                let i = declaration(&n.head, temp, no, span);
                let b1 = b.emit(i);
                emit_local(b, i);
                declaring_local(&n.tail, next_number(no), span, b1);
                halves_stand(b, b1, declare_params_spec(params, no, span, b), code);
                emitted_runs(b, i, code, sem, r);
                let r1 = after_instr(sem, i, r);
                let r2 = declaring_runs(&n.tail, next_number(no), span, b1, code, sem, r1);
                comes_further(code, sem, r, r1, r2);
                r2
            },
            None => declaring_runs(&n.tail, next_number(no), span, b, code, sem, r),
        },
    }
}

/// Making the parameters emits no code.
proof fn params_local(params: &List<TypedParam>, b: FState)
    ensures
        ({
            let b2 = alloc_params_spec(params, b).0;
            &&& b2.blocks == b.blocks
            &&& b2.env.current_block == b.env.current_block
            &&& b.temp_types.len() <= b2.temp_types.len()
        }),
    decreases params,
{
    reveal(alloc_params_spec);
    reveal(FState::alloc_temp);
    reveal(FState::set_slot);
    match params {
        List::Nil => {},
        List::Cons(n) => {
            let (b1, t) = b.alloc_temp(n.head.ty.dup());
            params_local(&n.tail, b1.set_slot(n.head.slot, t));
        },
    }
}

/// The states of a function body: with its parameters, with its captured variables, and where the
/// expression itself is lowered.
pub struct BodyStates {
    pub begun: FState,
    pub env: Temp,
    pub read: FState,
    pub named: FState,
    pub start: St,
}

/// The states of a function body that has an environment.
pub open spec fn body_states(
    params: &List<TypedParam>,
    body: &TypedExpr,
    captures: &List<Capture>,
    s: St,
) -> BodyStates {
    let (begun, env) = begin_params_spec(params, true, s.b);
    let read = read_captures_spec(captures, env->Some_0, 0, begun);
    let owned = own_function_params_spec(params, read.push_scope()).push_scope();
    let named = declare_params_spec(params, 1, body.span(), owned);
    let (c1, prologue) = s.c.take_prologue();
    let b = match prologue {
        Some(sym) => named.call(CallTarget::Named(sym), List::Nil, &Type::Null).0,
        None => named,
    };
    let c2 = c1.take_packed().0;
    BodyStates { begun, env: env->Some_0, read, named, start: St { b: b.scan_body(body), c: c2 } }
}

/// In the body of a closure each captured variable has the value that the environment holds for
/// it: the variable of the first capture has the value of the first entry, and so on. From the
/// start of the function a run comes to where the expression of the body is lowered, in a state
/// in which each captured variable is bound to a temporary with that value.
pub proof fn body_finds_what_was_captured(
    l: Lower,
    params: &List<TypedParam>,
    body: &TypedExpr,
    effective_ret: &Type,
    void_ret: bool,
    captures: &List<Capture>,
    s: St,
    code: Seq<BasicBlock>,
    sem: Oracle,
    vs: Seq<Value>,
    r: Run,
) -> (r2: Run)
    requires
        !(captures is Nil),
        captures@.len() <= u32::MAX,
        captured_slots(captures).no_duplicates(),
        is_open(s.b),
        ({
            let p = body_states(params, body, captures, s);
            &&& p.start.b.blocks.len() < u32::MAX
            &&& p.start.b.temp_types.len() < u32::MAX
            &&& part_stands(s.b, p.start.b, code)
            &&& r.vals[p.env] == Value::Items(vs)
        }),
        is_at(s.b, r),
    ensures
        ({
            let p = body_states(params, body, captures, s);
            let (s2, raw) = lower_body_value_spec(l, body, effective_ret, p.start);
            let ty = s2.b.temp_ty_or(raw, body.ty());
            &&& lower_function_body_spec(
                l,
                params,
                body,
                effective_ret,
                void_ret,
                captures,
                s,
            ).0.b == finish_body_spec(raw, &ty, effective_ret, void_ret, s2.b)
            &&& begin_params_spec(params, true, s.b).1 == Some(p.env)
            &&& comes_to(code, sem, r, r2)
            &&& is_at(p.start.b, r2)
            &&& finds(captures, 0, vs, p.start.b, r2)
        }),
{
    let p = body_states(params, body, captures, s);
    reveal(lower_function_body_spec);
    assert(begin_params_spec(params, true, s.b).1 == Some(p.env) && p.begun.blocks == s.b.blocks
        && p.begun.env.current_block == s.b.env.current_block && s.b.temp_types.len()
        <= p.begun.temp_types.len() && (p.begun.temp_types.len() < u32::MAX ==> p.env.0
        < p.begun.temp_types.len())) by {
        reveal(begin_params_spec);
        reveal(FState::alloc_temp);
        reveal(FState::set_params);
        params_local(params, s.b.alloc_temp(Type::Null).0);
    }
    reads_local(captures, p.env, 0, p.begun);
    let owned = own_function_params_spec(params, p.read.push_scope()).push_scope();
    owning_is_alike(params, p.read.push_scope());
    assert(alike(owned, p.read) && owned.env.slots == p.read.env.slots) by {
        reveal(FState::push_scope);
    }
    declaring_local(params, 1, body.span(), owned);
    let prologue = s.c.take_prologue().1;
    let b4 = match prologue {
        Some(sym) => p.named.call(CallTarget::Named(sym), List::Nil, &Type::Null).0,
        None => p.named,
    };
    assert(alike(p.start.b, b4) && p.start.b.env.slots == b4.env.slots) by {
        reveal(FState::scan_body);
    }
    assert(stays_local(p.named, b4) && b4.env.slots == p.named.env.slots && (prologue is Some
        && b4.temp_types.len() < u32::MAX ==> p.named.temp_types.len() < u32::MAX)) by {
        reveal(FState::call);
        reveal(FState::alloc_temp);
        reveal(FState::emit);
        reveal_with_fuel(instrs, 2);
    }
    assert(is_open(p.begun) && is_at(p.begun, r) && part_stands(p.begun, b4, code));
    assert(stays_local(p.read, p.named));
    local_adds_up(p.read, p.named, b4);
    halves_stand(p.begun, p.read, b4, code);
    assert(part_stands(owned, b4, code) && is_open(owned) && stays_local(owned, b4));
    halves_stand(owned, p.named, b4, code);
    let r1 = reads_run(captures, p.env, 0, p.begun, code, sem, vs, r);
    let r2 = declaring_runs(params, 1, body.span(), owned, code, sem, r1);
    comes_further(code, sem, r, r1, r2);
    let r3 = match prologue {
        Some(sym) => {
            let callee = CallTarget::Named(sym);
            let dst = p.named.call(callee, List::Nil, &Type::Null).1;
            let i = Instruction::Call { dst, callee, args: List::Nil, ret_ty: Type::Null };
            reveal(FState::call);
            made_runs(p.named, Type::Null, i, code, sem, r2);
            let r3 = after_instr(sem, i, r2);
            comes_further(code, sem, r, r2, r3);
            r3
        },
        None => r2,
    };
    assert(same_below(p.read, r1, r3));
    assert forall|k: int| 0 <= k < captures@.len() implies ({
        let slot = (#[trigger] captures@[k]).outer_slot;
        &&& p.start.b.slot(slot) is Some
        &&& p.start.b.slot(slot)->Some_0.0 < p.start.b.temp_types.len()
        &&& r3.vals[p.start.b.slot(slot)->Some_0] == vs[k]
    }) by {
        let slot = captures@[k].outer_slot;
        assert(p.start.b.slot(slot) == p.read.slot(slot));
    }
    r3
}

// Where the closure is made.

/// The captured variables are held by temporaries.
pub open spec fn held(captures: &List<Capture>, b: FState) -> bool {
    forall|k: int|
        0 <= k < captures@.len() ==> b.slot((#[trigger] captures@[k]).outer_slot) is Some
            && b.slot(captures@[k].outer_slot)->Some_0.0 < b.temp_types.len()
}

/// The values of the captured variables, in order.
pub open spec fn captured_values(captures: &List<Capture>, b: FState, r: Run) -> Seq<Value> {
    captures@.map_values(|c: Capture| r.vals[b.slot(c.outer_slot)->Some_0])
}

/// Capturing a variable stays local and leaves all bindings alone.
proof fn capture_local(l: Lower, cap: &Capture, s: St)
    requires
        s.b.slot(cap.outer_slot) is Some,
    ensures
        ({
            let (s2, c) = lower_capture_spec(l, cap, s);
            &&& stays_local(s.b, s2.b)
            &&& s2.b.env.slots == s.b.env.slots
        }),
{
    reveal(lower_capture_spec);
    reveal(capture_base_spec);
    reveal(FState::unregister_owned);
    reveal(FState::clone_box);
    reveal(FState::alloc_temp);
    reveal(FState::emit);
    reveal_with_fuel(instrs, 2);
}

/// A captured variable has its value.
proof fn capture_runs(
    l: Lower,
    cap: &Capture,
    s: St,
    code: Seq<BasicBlock>,
    sem: Oracle,
    r: Run,
) -> (r2: Run)
    requires
        s.b.slot(cap.outer_slot) is Some,
        s.b.slot(cap.outer_slot)->Some_0.0 < s.b.temp_types.len(),
        is_open(s.b),
        lower_capture_spec(l, cap, s).0.b.blocks.len() < u32::MAX,
        lower_capture_spec(l, cap, s).0.b.temp_types.len() < u32::MAX,
        part_stands(s.b, lower_capture_spec(l, cap, s).0.b, code),
        is_at(s.b, r),
    ensures
        ({
            let (s2, c) = lower_capture_spec(l, cap, s);
            &&& comes_to(code, sem, r, r2)
            &&& is_at(s2.b, r2)
            &&& same_below(s.b, r, r2)
            &&& c.temp.0 < s2.b.temp_types.len()
            &&& r2.vals[c.temp] == r.vals[s.b.slot(cap.outer_slot)->Some_0]
            &&& r2.mem == r.mem
        }),
{
    reveal(lower_capture_spec);
    reveal(capture_base_spec);
    let (s2, c) = lower_capture_spec(l, cap, s);
    let base = s.b.slot(cap.outer_slot)->Some_0;
    let retain = Instruction::Retain { val: base, ty: cap.ty };
    let (bc, owned) = s.b.clone_box(base, &cap.ty);
    if s2.b == s.b.emit(retain) && c.temp == base {
        emitted_runs(s.b, retain, code, sem, r);
        after_instr(sem, retain, r)
    } else if s2.b == bc && c.temp == owned {
        reveal(FState::clone_box);
        assert(s.b.temp_types.len() < u32::MAX && owned.0 == s.b.temp_types.len()) by {
            reveal(FState::alloc_temp);
            reveal(FState::emit);
        }
        let i = Instruction::CloneBox { dst: owned, src: base, ty: cap.ty };
        made_runs(s.b, cap.ty, i, code, sem, r);
        after_instr(sem, i, r)
    } else {
        assert(alike(s2.b, s.b) && c.temp == base) by {
            reveal(FState::unregister_owned);
        }
        comes_to_itself(code, sem, r);
        r
    }
}

/// Capturing variables stays local and leaves all bindings alone.
proof fn captures_local(l: Lower, captures: &List<Capture>, s: St)
    requires
        held(captures, s.b),
    ensures
        stays_local(s.b, lower_captures_spec(l, captures, s).0.b),
    decreases captures,
{
    reveal(lower_captures_spec);
    match captures {
        List::Nil => {},
        List::Cons(n) => {
            assert(captures@[0] == n.head);
            let s1 = lower_capture_spec(l, &n.head, s).0;
            capture_local(l, &n.head, s);
            held_by_tail(captures, s.b, s1.b);
            captures_local(l, &n.tail, s1);
            local_adds_up(s.b, s1.b, lower_captures_spec(l, captures, s).0.b);
        },
    }
}

/// What holds of the captured variables holds of those behind the first one.
proof fn held_by_tail(captures: &List<Capture>, b: FState, b1: FState)
    requires
        held(captures, b),
        b1.env.slots == b.env.slots,
        b.temp_types.len() <= b1.temp_types.len(),
    ensures
        captures matches List::Cons(n) ==> held(&n.tail, b1),
{
    match captures {
        List::Nil => {},
        List::Cons(n) => {
            assert forall|k: int| 0 <= k < n.tail@.len() implies b1.slot(
                (#[trigger] n.tail@[k]).outer_slot,
            ) is Some && b1.slot(n.tail@[k].outer_slot)->Some_0.0 < b1.temp_types.len() by {
                assert(captures@[k + 1] == n.tail@[k]);
            }
        },
    }
}

/// The captured variables have their values, in order.
proof fn captures_run(
    l: Lower,
    captures: &List<Capture>,
    s: St,
    code: Seq<BasicBlock>,
    sem: Oracle,
    r: Run,
) -> (r2: Run)
    requires
        held(captures, s.b),
        is_open(s.b),
        lower_captures_spec(l, captures, s).0.b.blocks.len() < u32::MAX,
        lower_captures_spec(l, captures, s).0.b.temp_types.len() < u32::MAX,
        part_stands(s.b, lower_captures_spec(l, captures, s).0.b, code),
        is_at(s.b, r),
    ensures
        ({
            let (s2, caps) = lower_captures_spec(l, captures, s);
            &&& comes_to(code, sem, r, r2)
            &&& is_open(s2.b)
            &&& is_at(s2.b, r2)
            &&& same_below(s.b, r, r2)
            &&& values_of(&caps.temps, r2.vals) == captured_values(captures, s.b, r)
            &&& r2.mem == r.mem
        }),
    decreases captures,
{
    reveal(lower_captures_spec);
    let (s2, caps) = lower_captures_spec(l, captures, s);
    match captures {
        List::Nil => {
            comes_to_itself(code, sem, r);
            assert(values_of(&caps.temps, r.vals) =~= captured_values(captures, s.b, r));
            r
        },
        List::Cons(n) => {
            assert(captures@[0] == n.head);
            let (s1, c) = lower_capture_spec(l, &n.head, s);
            capture_local(l, &n.head, s);
            held_by_tail(captures, s.b, s1.b);
            captures_local(l, &n.tail, s1);
            halves_stand(s.b, s1.b, s2.b, code);
            let r1 = capture_runs(l, &n.head, s, code, sem, r);
            let r2 = captures_run(l, &n.tail, s1, code, sem, r1);
            comes_further(code, sem, r, r1, r2);
            let vs = captured_values(captures, s.b, r);
            let rest = captured_values(&n.tail, s1.b, r1);
            assert forall|k: int|
                0 <= k < n.tail@.len() implies vs[k + 1] == #[trigger] rest[k] by {
                assert(captures@[k + 1] == n.tail@[k]);
                assert(s1.b.slot(n.tail@[k].outer_slot) == s.b.slot(n.tail@[k].outer_slot));
            }
            assert(vs =~= seq![r2.vals[c.temp]] + rest);
            r2
        },
    }
}

/// Recording that cells escape emits no code.
proof fn marking_is_alike(temps: &List<Temp>, b: FState)
    ensures
        alike(mark_captured_cells_spec(temps, b), b),
    decreases temps,
{
    reveal(mark_captured_cells_spec);
    reveal(FState::mark_escaping);
    match temps {
        List::Nil => {},
        List::Cons(n) => {
            marking_is_alike(&n.tail, b);
            marking_is_alike(&n.tail, b.mark_escaping(n.head));
        },
    }
}

/// A run of what a function literal is lowered to gives a function whose environment holds the
/// values that the captured variables have where it is made: the first entry that of the first
/// capture, and so on.
pub proof fn closure_holds_what_it_captures(
    l: Lower,
    forced_fid: Option<FuncId>,
    forced_ret: Option<&Type>,
    name: Option<Text>,
    params: &List<TypedParam>,
    body: &TypedExpr,
    ret_type: &Type,
    captures: &List<Capture>,
    s: St,
    code: Seq<BasicBlock>,
    sem: Oracle,
    r: Run,
) -> (r2: Run)
    requires
        held(captures, s.b),
        is_open(s.b),
        ({
            let s2 = lower_function_expr_with_id_spec(
                l,
                forced_fid,
                forced_ret,
                name,
                params,
                body,
                ret_type,
                captures,
                s,
            ).0;
            &&& s2.b.blocks.len() < u32::MAX
            &&& s2.b.temp_types.len() < u32::MAX
            &&& part_stands(s.b, s2.b, code)
        }),
        is_at(s.b, r),
    ensures
        ({
            let (s2, t) = lower_function_expr_with_id_spec(
                l,
                forced_fid,
                forced_ret,
                name,
                params,
                body,
                ret_type,
                captures,
                s,
            );
            let vs = captured_values(captures, s.b, r);
            &&& comes_to(code, sem, r, r2)
            &&& is_at(s2.b, r2)
            &&& same_below(s.b, r, r2)
            &&& r2.vals[t] matches Value::Function(_, held) && held == vs
            &&& forced_fid matches Some(f) ==> r2.vals[t] == Value::Function(f, vs)
            &&& r2.mem == r.mem
        }),
{
    reveal(lower_function_expr_with_id_spec);
    reveal(FState::enter_function);
    reveal(FState::leave_function);
    let (s2, t) = lower_function_expr_with_id_spec(
        l,
        forced_fid,
        forced_ret,
        name,
        params,
        body,
        ret_type,
        captures,
        s,
    );
    let (sc, fid, made) = closure_point(
        l,
        forced_fid,
        forced_ret,
        name,
        params,
        body,
        ret_type,
        captures,
        s,
    );
    let (s1, caps) = lower_captures_spec(l, captures, sc);
    let ty = function_type(params, ret_type);
    let b2 = if !s1.c.env.in_safe_callback {
        mark_captured_cells_spec(&caps.temps, s1.b)
    } else {
        s1.b
    };
    marking_is_alike(&caps.temps, s1.b);
    let b3 = b2.alloc_temp(ty).0.emit(made);
    assert(alike(s2.b, b3)) by {
        reveal(FState::register_owned);
    }
    captures_local(l, captures, sc);
    assert(stays_local(b2, b3) && b2.temp_types.len() < u32::MAX && t.0 == b2.temp_types.len())
        by {
        reveal(FState::alloc_temp);
        reveal(FState::emit);
        reveal_with_fuel(instrs, 2);
    }
    assert(stays_local(s1.b, b3));
    assert(part_stands(s.b, b3, code));
    halves_stand(s.b, s1.b, b3, code);
    let r1 = captures_run(l, captures, sc, code, sem, r);
    made_runs(b2, ty, made, code, sem, r1);
    let r2 = after_instr(sem, made, r1);
    comes_further(code, sem, r, r1, r2);
    r2
}

/// Where the function literal captures its variables: the state, the number of the function, and
/// what makes the closure.
proof fn closure_point(
    l: Lower,
    forced_fid: Option<FuncId>,
    forced_ret: Option<&Type>,
    name: Option<Text>,
    params: &List<TypedParam>,
    body: &TypedExpr,
    ret_type: &Type,
    captures: &List<Capture>,
    s: St,
) -> (p: (St, FuncId, Instruction))
    ensures
        p.0.b == s.b,
        forced_fid matches Some(f) ==> p.1 == f,
        ({
            let (s1, caps) = lower_captures_spec(l, captures, p.0);
            let (s2, t) = lower_function_expr_with_id_spec(
                l,
                forced_fid,
                forced_ret,
                name,
                params,
                body,
                ret_type,
                captures,
                s,
            );
            let ty = function_type(params, ret_type);
            let b2 = if !s1.c.env.in_safe_callback {
                mark_captured_cells_spec(&caps.temps, s1.b)
            } else {
                s1.b
            };
            &&& p.2 == (Instruction::MakeClosure {
                dst: t,
                func: p.1,
                captures: caps.temps,
                capture_kinds: caps.kinds,
                ret_ty: ty,
            })
            &&& t == b2.alloc_temp(ty).1
            &&& s2.b == b2.alloc_temp(ty).0.emit(p.2).register_owned(t, ty)
        }),
{
    reveal(lower_function_expr_with_id_spec);
    reveal(FState::enter_function);
    reveal(FState::leave_function);
    let (s0, fid) = match forced_fid {
        Some(f) => (s, f),
        None => on_ctx(s, s.c.alloc_func_id()),
    };
    let (sin, outer) = on(
        s0,
        s0.b.enter_function(fid, name, !captures.is_empty(), *ret_type, body.span()),
    );
    let ret = effective_return(forced_ret, forced_fid.is_none(), ret_type);
    let (sb, packed) = lower_function_body_spec(
        l,
        params,
        body,
        &ret,
        returns_nothing(ret_type),
        captures,
        sin,
    );
    let (sl, inner) = on(sb, sb.b.leave_function(outer, ret));
    let c = sl.c.push_pending(inner).note_exhausted(sb.b.env.exhausted).restore_packed(packed);
    let sc = St { b: sl.b, c };
    let (s1, caps) = lower_captures_spec(l, captures, sc);
    let t = lower_function_expr_with_id_spec(
        l,
        forced_fid,
        forced_ret,
        name,
        params,
        body,
        ret_type,
        captures,
        s,
    ).1;
    let made = Instruction::MakeClosure {
        dst: t,
        func: fid,
        captures: caps.temps,
        capture_kinds: caps.kinds,
        ret_ty: function_type(params, ret_type),
    };
    (sc, fid, made)
}

/// A captured variable has in the body of the closure the value that it has where the closure is
/// made: what the environment of the closure holds is what the variables have there, and where the
/// body runs with that environment each of them is bound to a temporary with this value.
pub proof fn captured_variables_keep_their_values(
    l: Lower,
    forced_fid: Option<FuncId>,
    forced_ret: Option<&Type>,
    name: Option<Text>,
    params: &List<TypedParam>,
    body: &TypedExpr,
    ret_type: &Type,
    captures: &List<Capture>,
    s: St,
    code: Seq<BasicBlock>,
    sem: Oracle,
    r: Run,
    effective_ret: &Type,
    void_ret: bool,
    inner_s: St,
    inner_code: Seq<BasicBlock>,
    inner_r: Run,
) -> (rs: (Run, Run))
    requires
        held(captures, s.b),
        is_open(s.b),
        ({
            let s2 = lower_function_expr_with_id_spec(
                l,
                forced_fid,
                forced_ret,
                name,
                params,
                body,
                ret_type,
                captures,
                s,
            ).0;
            &&& s2.b.blocks.len() < u32::MAX
            &&& s2.b.temp_types.len() < u32::MAX
            &&& part_stands(s.b, s2.b, code)
        }),
        is_at(s.b, r),
        !(captures is Nil),
        captures@.len() <= u32::MAX,
        captured_slots(captures).no_duplicates(),
        is_open(inner_s.b),
        ({
            let p = body_states(params, body, captures, inner_s);
            &&& p.start.b.blocks.len() < u32::MAX
            &&& p.start.b.temp_types.len() < u32::MAX
            &&& part_stands(inner_s.b, p.start.b, inner_code)
            &&& inner_r.vals[p.env] == Value::Items(captured_values(captures, s.b, r))
        }),
        is_at(inner_s.b, inner_r),
    ensures
        ({
            let t = lower_function_expr_with_id_spec(
                l,
                forced_fid,
                forced_ret,
                name,
                params,
                body,
                ret_type,
                captures,
                s,
            ).1;
            let p = body_states(params, body, captures, inner_s);
            &&& comes_to(code, sem, r, rs.0)
            &&& rs.0.vals[t] is Function
            &&& Value::Items(rs.0.vals[t]->Function_1) == inner_r.vals[p.env]
            &&& comes_to(inner_code, sem, inner_r, rs.1)
            &&& is_at(p.start.b, rs.1)
            &&& forall|k: int|
                0 <= k < captures@.len() ==> {
                    let slot = (#[trigger] captures@[k]).outer_slot;
                    &&& p.start.b.slot(slot) is Some
                    &&& rs.1.vals[p.start.b.slot(slot)->Some_0] == r.vals[s.b.slot(slot)->Some_0]
                }
        }),
{
    let vs = captured_values(captures, s.b, r);
    let r1 = closure_holds_what_it_captures(
        l,
        forced_fid,
        forced_ret,
        name,
        params,
        body,
        ret_type,
        captures,
        s,
        code,
        sem,
        r,
    );
    let r2 = body_finds_what_was_captured(
        l,
        params,
        body,
        effective_ret,
        void_ret,
        captures,
        inner_s,
        inner_code,
        sem,
        vs,
        inner_r,
    );
    let p = body_states(params, body, captures, inner_s);
    assert forall|k: int| 0 <= k < captures@.len() implies ({
        let slot = (#[trigger] captures@[k]).outer_slot;
        &&& p.start.b.slot(slot) is Some
        &&& r2.vals[p.start.b.slot(slot)->Some_0] == r.vals[s.b.slot(slot)->Some_0]
    }) by {
        assert(vs[k] == r.vals[s.b.slot(captures@[k].outer_slot)->Some_0]);
    }
    (r1, r2)
}

// Parameters.

/// The slots of parameters, in order.
pub open spec fn param_slots(params: &List<TypedParam>) -> Seq<usize> {
    params@.map_values(|p: TypedParam| p.slot)
}

/// The slots of the first and of the other parameters.
proof fn param_slots_of_tail(params: &List<TypedParam>)
    ensures
        params matches List::Cons(n) ==> param_slots(params) == seq![n.head.slot] + param_slots(
            &n.tail,
        ),
{
    match params {
        List::Nil => {},
        List::Cons(n) => {
            assert(param_slots(params) =~= seq![n.head.slot] + param_slots(&n.tail));
        },
    }
}

/// Making parameters binds their variables and no others.
proof fn params_bind(params: &List<TypedParam>, b: FState)
    requires
        alloc_params_spec(params, b).0.temp_types.len() < u32::MAX,
        param_slots(params).no_duplicates(),
    ensures
        ({
            let (b2, ps) = alloc_params_spec(params, b);
            &&& ps@.len() == params@.len()
            &&& b2.temp_types.len() == b.temp_types.len() + params@.len()
            &&& forall|k: int|
                0 <= k < params@.len() ==> {
                    &&& b2.slot((#[trigger] params@[k]).slot) == Some(ps@[k].temp)
                    &&& ps@[k].temp.0 == b.temp_types.len() + k
                    &&& ps@[k].ty == params@[k].ty
                }
            &&& forall|slot: usize|
                !param_slots(params).contains(slot) ==> #[trigger] b2.slot(slot) == b.slot(slot)
        }),
    decreases params,
{
    reveal(alloc_params_spec);
    let (b2, ps) = alloc_params_spec(params, b);
    match params {
        List::Nil => {},
        List::Cons(n) => {
            let (b0, t) = b.alloc_temp(n.head.ty.dup());
            let b1 = b0.set_slot(n.head.slot, t);
            let rest = alloc_params_spec(&n.tail, b1).1;
            param_slots_of_tail(params);
            let all = param_slots(params);
            let slots = param_slots(&n.tail);
            assert forall|i: int, j: int|
                0 <= i < slots.len() && 0 <= j < slots.len() && i != j implies slots[i]
                != slots[j] by {
                assert(all[i + 1] != all[j + 1]);
            }
            params_local(&n.tail, b1);
            params_bind(&n.tail, b1);
            assert(t.0 == b.temp_types.len() && b1.temp_types.len() == b.temp_types.len() + 1
                && b1.slot(n.head.slot) == Some(t) && forall|slot: usize|
                slot != n.head.slot ==> #[trigger] b1.slot(slot) == b.slot(slot)) by {
                reveal(FState::alloc_temp);
                reveal(FState::set_slot);
                reveal_with_fuel(find_spec, 2);
            }
            assert(!slots.contains(n.head.slot)) by {
                if slots.contains(n.head.slot) {
                    let j = choose|j: int| 0 <= j < slots.len() && slots[j] == n.head.slot;
                    assert(all[0] != all[j + 1]);
                }
            }
            assert(b2.slot(n.head.slot) == b1.slot(n.head.slot));
            assert forall|k: int| 0 <= k < params@.len() implies ({
                &&& b2.slot((#[trigger] params@[k]).slot) == Some(ps@[k].temp)
                &&& ps@[k].temp.0 == b.temp_types.len() + k
                &&& ps@[k].ty == params@[k].ty
            }) by {
                if k == 0 {
                    assert(params@[0] == n.head);
                } else {
                    assert(params@[k] == n.tail@[k - 1]);
                    assert(ps@[k] == rest@[k - 1]);
                }
            }
            assert forall|slot: usize| !all.contains(slot) implies #[trigger] b2.slot(slot)
                == b.slot(slot) by {
                assert(all[0] == n.head.slot);
                if slots.contains(slot) {
                    let j = choose|j: int| 0 <= j < slots.len() && slots[j] == slot;
                    assert(all[j + 1] == slot);
                }
                assert(b1.slot(slot) == b.slot(slot));
            }
        },
    }
}

/// In the body of a function the variable of each parameter is bound to the parameter at the same
/// place in the list of those that the function takes; that of a closure takes its environment in
/// front of them. No two parameters are the same temporary.
pub proof fn parameters_are_bound_in_order(params: &List<TypedParam>, is_closure: bool, b: FState)
    requires
        begin_params_spec(params, is_closure, b).0.temp_types.len() < u32::MAX,
        param_slots(params).no_duplicates(),
    ensures
        ({
            let (b2, env) = begin_params_spec(params, is_closure, b);
            let ps = b2.env.params@;
            let d: int = if is_closure { 1 } else { 0 };
            &&& ps.len() == params@.len() + d
            &&& env is Some <==> is_closure
            &&& is_closure ==> env == Some(ps[0].temp)
            &&& forall|k: int|
                0 <= k < params@.len() ==> b2.slot((#[trigger] params@[k]).slot) == Some(
                    ps[k + d].temp,
                ) && ps[k + d].ty == params@[k].ty
            &&& forall|i: int, j: int| 0 <= i < j < ps.len() ==> ps[i].temp != ps[j].temp
        }),
{
    reveal(begin_params_spec);
    reveal(FState::set_params);
    let (b2, env) = begin_params_spec(params, is_closure, b);
    let ps = b2.env.params@;
    let d: int = if is_closure { 1 } else { 0 };
    let b0 = if is_closure {
        b.alloc_temp(Type::Null).0
    } else {
        b
    };
    params_local(params, b0);
    params_bind(params, b0);
    let rest = alloc_params_spec(params, b0).1;
    assert(is_closure ==> b.alloc_temp(Type::Null).1.0 + 1 == b0.temp_types.len()) by {
        reveal(FState::alloc_temp);
    }
    assert(is_closure ==> ps[0].temp == b.alloc_temp(Type::Null).1);
    assert(forall|k: int| 0 <= k < rest@.len() ==> ps[k + d] == #[trigger] rest@[k]);
    assert forall|i: int, j: int| 0 <= i < j < ps.len() implies ps[i].temp != ps[j].temp by {
        let last = params@[j - d];
        assert(ps[j - d + d] == rest@[j - d]);
        assert(ps[j].temp.0 == b0.temp_types.len() + j - d);
        if i >= d {
            let first = params@[i - d];
            assert(ps[i - d + d] == rest@[i - d]);
            assert(ps[i].temp.0 == b0.temp_types.len() + i - d);
        }
    }
    assert forall|k: int| 0 <= k < params@.len() implies b2.slot((#[trigger] params@[k]).slot)
        == Some(ps[k + d].temp) && ps[k + d].ty == params@[k].ty by {
        assert(ps[k + d] == rest@[k]);
    }
}

} // verus!
