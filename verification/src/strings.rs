//! Interpolated strings, as they run.

use crate::ast::TypedStringPart;
use crate::builder::FState;
use crate::ctx::{Lower, St, low};
use crate::func::{
    lower_string_interp_spec, lower_string_parts_spec, release_strings_spec, single_literal,
};
use crate::fusion::emit_local;
use crate::ir::{BasicBlock, Const, Instruction, Intrinsic, Temp};
use crate::list::{List, one};
use crate::looping::{halves_stand, part_stands};
use crate::run::{
    Mem, Oracle, Run, Value, after_instr, comes_further, comes_to, comes_to_itself, constant_runs,
    emitted_runs, first_temp, instrs, is_at, is_open, joined, local_adds_up, made_runs, same_below,
    stays_local, values_of,
};
use crate::sense::{Sense, expr_local, expr_runs, exprs_mean, suits};
use crate::text::Text;
use crate::types::{Type, dup_str};
use vstd::prelude::*;

verus! {

/// Values are turned to strings as `shows` says.
pub open spec fn shown(sem: Oracle, shows: spec_fn(Value) -> Seq<char>) -> bool {
    forall|dst: Temp, args: List<Temp>, ret_ty: Type, vals: Map<Temp, Value>, mem: Mem|
        #[trigger] sem(
            Instruction::CallIntrinsic { dst, intrinsic: Intrinsic::ToString, args, ret_ty },
            vals,
            mem,
        ) == Value::Text(shows(vals[first_temp(&args)]))
}

/// The text of a part: a literal is its text, the value of an expression is shown.
pub open spec fn part_text(
    part: &TypedStringPart,
    w: Sense,
    shows: spec_fn(Value) -> Seq<char>,
    mem: Mem,
) -> Seq<char> {
    match part {
        TypedStringPart::Literal(text) => text@,
        TypedStringPart::Expr(e) => shows((w.value)(*e, mem)),
    }
}

/// What a part changes.
pub open spec fn part_effect(part: &TypedStringPart, w: Sense, mem: Mem) -> Mem {
    match part {
        TypedStringPart::Literal(_) => mem,
        TypedStringPart::Expr(e) => (w.effect)(*e, mem),
    }
}

/// The texts of the parts, in order; what an expression changes the later ones find.
pub open spec fn part_texts(
    parts: &List<TypedStringPart>,
    w: Sense,
    shows: spec_fn(Value) -> Seq<char>,
    mem: Mem,
) -> Seq<Seq<char>>
    decreases parts,
{
    match parts {
        List::Nil => Seq::empty(),
        List::Cons(n) => seq![part_text(&n.head, w, shows, mem)] + part_texts(
            &n.tail,
            w,
            shows,
            part_effect(&n.head, w, mem),
        ),
    }
}

/// What the parts change, in order.
pub open spec fn parts_effect(parts: &List<TypedStringPart>, w: Sense, mem: Mem) -> Mem
    decreases parts,
{
    match parts {
        List::Nil => mem,
        List::Cons(n) => parts_effect(&n.tail, w, part_effect(&n.head, w, mem)),
    }
}

/// The expressions among the parts are known.
pub open spec fn parts_known(parts: &List<TypedStringPart>, w: Sense) -> bool
    decreases parts,
{
    match parts {
        List::Nil => true,
        List::Cons(n) => match &n.head {
            TypedStringPart::Literal(_) => parts_known(&n.tail, w),
            TypedStringPart::Expr(e) => (w.known)(*e) && parts_known(&n.tail, w),
        },
    }
}

/// Strings with these texts.
pub open spec fn as_strings(texts: Seq<Seq<char>>) -> Seq<Value> {
    texts.map_values(|t: Seq<char>| Value::Text(t))
}

/// Texts one behind the other.
pub open spec fn concatenated(texts: Seq<Seq<char>>) -> Seq<char>
    decreases texts.len(),
{
    if texts.len() == 0 {
        Seq::empty()
    } else {
        texts[0] + concatenated(texts.drop_first())
    }
}

/// Joining strings puts their texts one behind the other.
proof fn joined_is_concatenated(texts: Seq<Seq<char>>)
    ensures
        joined(as_strings(texts)) == concatenated(texts),
    decreases texts.len(),
{
    if texts.len() > 0 {
        assert(as_strings(texts).drop_first() =~= as_strings(texts.drop_first()));
        joined_is_concatenated(texts.drop_first());
    }
}

/// The code of one part.
pub open spec fn one_part(l: Lower, part: &TypedStringPart, s: St) -> (St, Temp) {
    match part {
        TypedStringPart::Literal(text) => {
            let (b, t) = s.b.const_temp(Const::Str(Text::Owned(dup_str(text))));
            (St { b, c: s.c }, t)
        },
        TypedStringPart::Expr(e) => {
            let (s1, val) = low(l, e, s);
            let (b, t) = s1.b.call_intrinsic(Intrinsic::ToString, one(val), &Type::Str);
            (St { b, c: s1.c }, t)
        },
    }
}

/// A part stays local.
proof fn one_part_local(
    l: Lower,
    part: &TypedStringPart,
    s: St,
    code: Seq<BasicBlock>,
    sem: Oracle,
    w: Sense,
)
    requires
        exprs_mean(l, code, sem, w),
        part matches TypedStringPart::Expr(e) ==> (w.known)(*e),
    ensures
        stays_local(s.b, one_part(l, part, s).0.b),
{
    match part {
        TypedStringPart::Literal(text) => {
            reveal(FState::const_temp);
            reveal(FState::alloc_temp);
            reveal(FState::emit);
            reveal_with_fuel(instrs, 2);
        },
        TypedStringPart::Expr(e) => {
            let (s1, val) = low(l, e, s);
            expr_local(l, e, s, code, sem, w);
            assert(stays_local(s1.b, one_part(l, part, s).0.b)) by {
                reveal(FState::call_intrinsic);
                reveal(FState::alloc_temp);
                reveal(FState::emit);
                reveal_with_fuel(instrs, 2);
            }
            local_adds_up(s.b, s1.b, one_part(l, part, s).0.b);
        },
    }
}

/// A part gives a string with its text.
proof fn one_part_runs(
    l: Lower,
    part: &TypedStringPart,
    s: St,
    code: Seq<BasicBlock>,
    sem: Oracle,
    w: Sense,
    shows: spec_fn(Value) -> Seq<char>,
    r: Run,
) -> (r2: Run)
    requires
        exprs_mean(l, code, sem, w),
        shown(sem, shows),
        part matches TypedStringPart::Expr(e) ==> (w.known)(*e),
        suits(w, s.b, r),
        is_open(s.b),
        one_part(l, part, s).0.b.blocks.len() < u32::MAX,
        one_part(l, part, s).0.b.temp_types.len() < u32::MAX,
        part_stands(s.b, one_part(l, part, s).0.b, code),
        is_at(s.b, r),
    ensures
        ({
            let (s2, t) = one_part(l, part, s);
            &&& comes_to(code, sem, r, r2)
            &&& is_at(s2.b, r2)
            &&& same_below(s.b, r, r2)
            &&& t.0 < s2.b.temp_types.len()
            &&& r2.vals[t] == Value::Text(part_text(part, w, shows, r.mem))
            &&& r2.mem == part_effect(part, w, r.mem)
        }),
{
    one_part_local(l, part, s, code, sem, w);
    let (s2, t) = one_part(l, part, s);
    match part {
        TypedStringPart::Literal(text) => {
            let c = Const::Str(Text::Owned(dup_str(text)));
            assert(s.b.temp_types.len() < u32::MAX) by {
                reveal(FState::const_temp);
                reveal(FState::alloc_temp);
                reveal(FState::emit);
            }
            constant_runs(s.b, c, code, sem, r);
            after_instr(sem, Instruction::Const { dst: t, value: c }, r)
        },
        TypedStringPart::Expr(e) => {
            let (s1, val) = low(l, e, s);
            expr_local(l, e, s, code, sem, w);
            assert(stays_local(s1.b, s2.b) && s1.b.temp_types.len() < u32::MAX && t.0
                == s1.b.temp_types.len()) by {
                reveal(FState::call_intrinsic);
                reveal(FState::alloc_temp);
                reveal(FState::emit);
                reveal_with_fuel(instrs, 2);
            }
            halves_stand(s.b, s1.b, s2.b, code);
            let r1 = expr_runs(l, e, s, code, sem, w, r);
            reveal(FState::call_intrinsic);
            let i = Instruction::CallIntrinsic {
                dst: t,
                intrinsic: Intrinsic::ToString,
                args: one(val),
                ret_ty: Type::Str,
            };
            made_runs(s1.b, Type::Str, i, code, sem, r1);
            let r2 = after_instr(sem, i, r1);
            comes_further(code, sem, r, r1, r2);
            r2
        },
    }
}

/// The pieces of a string: first the first part, then the others. There are as many pieces as
/// parts.
proof fn parts_unfold(l: Lower, parts: &List<TypedStringPart>, s: St)
    ensures
        lower_string_parts_spec(l, parts, s).1.temps.len() == parts.len(),
        ({
            let (s2, pieces) = lower_string_parts_spec(l, parts, s);
            match parts {
                List::Nil => s2 == s && pieces.temps is Nil,
                List::Cons(n) => {
                    let (s1, t) = one_part(l, &n.head, s);
                    let (s3, rest) = lower_string_parts_spec(l, &n.tail, s1);
                    &&& s2 == s3
                    &&& pieces.temps matches List::Cons(p) && p.head == t && p.tail == rest.temps
                },
            }
        }),
    decreases parts,
{
    reveal(lower_string_parts_spec);
    match parts {
        List::Nil => {},
        List::Cons(n) => parts_unfold(l, &n.tail, one_part(l, &n.head, s).0),
    }
}

/// The parts stay local.
proof fn parts_local(
    l: Lower,
    parts: &List<TypedStringPart>,
    s: St,
    code: Seq<BasicBlock>,
    sem: Oracle,
    w: Sense,
)
    requires
        exprs_mean(l, code, sem, w),
        parts_known(parts, w),
    ensures
        stays_local(s.b, lower_string_parts_spec(l, parts, s).0.b),
    decreases parts,
{
    parts_unfold(l, parts, s);
    match parts {
        List::Nil => {},
        List::Cons(n) => {
            let s1 = one_part(l, &n.head, s).0;
            one_part_local(l, &n.head, s, code, sem, w);
            parts_local(l, &n.tail, s1, code, sem, w);
            local_adds_up(s.b, s1.b, lower_string_parts_spec(l, parts, s).0.b);
        },
    }
}

/// A run of the code of the parts of a string: there are as many pieces as parts, and each piece
/// is a string with the text of its part, a literal itself or the value of an expression shown.
pub proof fn pieces_hold_their_parts(
    l: Lower,
    parts: &List<TypedStringPart>,
    s: St,
    code: Seq<BasicBlock>,
    sem: Oracle,
    w: Sense,
    shows: spec_fn(Value) -> Seq<char>,
    r: Run,
) -> (r2: Run)
    requires
        exprs_mean(l, code, sem, w),
        shown(sem, shows),
        parts_known(parts, w),
        suits(w, s.b, r),
        is_open(s.b),
        lower_string_parts_spec(l, parts, s).0.b.blocks.len() < u32::MAX,
        lower_string_parts_spec(l, parts, s).0.b.temp_types.len() < u32::MAX,
        part_stands(s.b, lower_string_parts_spec(l, parts, s).0.b, code),
        is_at(s.b, r),
    ensures
        ({
            let (s2, pieces) = lower_string_parts_spec(l, parts, s);
            &&& comes_to(code, sem, r, r2)
            &&& is_open(s2.b)
            &&& is_at(s2.b, r2)
            &&& same_below(s.b, r, r2)
            &&& pieces.temps.len() == parts.len()
            &&& values_of(&pieces.temps, r2.vals) == as_strings(part_texts(parts, w, shows, r.mem))
            &&& r2.mem == parts_effect(parts, w, r.mem)
        }),
    decreases parts,
{
    parts_unfold(l, parts, s);
    let (s2, pieces) = lower_string_parts_spec(l, parts, s);
    let texts = part_texts(parts, w, shows, r.mem);
    match parts {
        List::Nil => {
            comes_to_itself(code, sem, r);
            assert(values_of(&pieces.temps, r.vals) =~= as_strings(texts));
            r
        },
        List::Cons(n) => {
            let (s1, t) = one_part(l, &n.head, s);
            one_part_local(l, &n.head, s, code, sem, w);
            parts_local(l, &n.tail, s1, code, sem, w);
            halves_stand(s.b, s1.b, s2.b, code);
            let r1 = one_part_runs(l, &n.head, s, code, sem, w, shows, r);
            let r2 = pieces_hold_their_parts(l, &n.tail, s1, code, sem, w, shows, r1);
            comes_further(code, sem, r, r1, r2);
            let rest = part_texts(&n.tail, w, shows, r1.mem);
            assert(as_strings(texts) =~= seq![r2.vals[t]] + as_strings(rest));
            r2
        },
    }
}

/// Releasing strings stays local.
proof fn releases_local(temps: &List<Temp>, b: FState)
    ensures
        stays_local(b, release_strings_spec(temps, b)),
        release_strings_spec(temps, b).temp_types == b.temp_types,
        release_strings_spec(temps, b).blocks.len() == b.blocks.len(),
    decreases temps,
{
    reveal(release_strings_spec);
    match temps {
        List::Nil => {},
        List::Cons(n) => {
            let i = Instruction::Release { val: n.head, ty: Type::Str };
            emit_local(b, i);
            releases_local(&n.tail, b.emit(i));
            local_adds_up(b, b.emit(i), release_strings_spec(temps, b));
            reveal(FState::emit);
        },
    }
}

/// Releasing strings changes nothing that counts here.
proof fn releases_run(
    temps: &List<Temp>,
    b: FState,
    code: Seq<BasicBlock>,
    sem: Oracle,
    r: Run,
) -> (r2: Run)
    requires
        is_open(b),
        release_strings_spec(temps, b).blocks.len() < u32::MAX,
        release_strings_spec(temps, b).temp_types.len() < u32::MAX,
        part_stands(b, release_strings_spec(temps, b), code),
        is_at(b, r),
    ensures
        comes_to(code, sem, r, r2),
        is_at(release_strings_spec(temps, b), r2),
        r2.vals == r.vals,
        r2.mem == r.mem,
    decreases temps,
{
    reveal(release_strings_spec);
    match temps {
        List::Nil => {
            comes_to_itself(code, sem, r);
            r
        },
        List::Cons(n) => {
            let i = Instruction::Release { val: n.head, ty: Type::Str };
            let b1 = b.emit(i);
            emit_local(b, i);
            releases_local(&n.tail, b1);
            halves_stand(b, b1, release_strings_spec(temps, b), code);
            emitted_runs(b, i, code, sem, r);
            let r1 = after_instr(sem, i, r);
            let r2 = releases_run(&n.tail, b1, code, sem, r1);
            comes_further(code, sem, r, r1, r2);
            r2
        },
    }
}

/// A run of what an interpolated string is lowered to gives a string: the texts of all its parts,
/// one behind the other, in order. What the expressions in it change is changed in order.
pub proof fn interpolation_runs_to_all_parts(
    l: Lower,
    parts: &List<TypedStringPart>,
    s: St,
    code: Seq<BasicBlock>,
    sem: Oracle,
    w: Sense,
    shows: spec_fn(Value) -> Seq<char>,
    r: Run,
) -> (r2: Run)
    requires
        exprs_mean(l, code, sem, w),
        shown(sem, shows),
        parts_known(parts, w),
        suits(w, s.b, r),
        is_open(s.b),
        lower_string_interp_spec(l, parts, s).0.b.blocks.len() < u32::MAX,
        lower_string_interp_spec(l, parts, s).0.b.temp_types.len() < u32::MAX,
        part_stands(s.b, lower_string_interp_spec(l, parts, s).0.b, code),
        is_at(s.b, r),
    ensures
        ({
            let (s2, t) = lower_string_interp_spec(l, parts, s);
            &&& comes_to(code, sem, r, r2)
            &&& is_at(s2.b, r2)
            &&& same_below(s.b, r, r2)
            &&& r2.vals[t] == Value::Text(concatenated(part_texts(parts, w, shows, r.mem)))
            &&& r2.mem == parts_effect(parts, w, r.mem)
        }),
{
    reveal(lower_string_interp_spec);
    let (s2, t) = lower_string_interp_spec(l, parts, s);
    let texts = part_texts(parts, w, shows, r.mem);
    joined_is_concatenated(texts);
    if parts is Nil {
        let c = Const::Str(Text::Fixed(""));
        assert(s.b.temp_types.len() < u32::MAX) by {
            reveal(FState::const_temp);
            reveal(FState::alloc_temp);
            reveal(FState::emit);
        }
        constant_runs(s.b, c, code, sem, r);
        reveal_strlit("");
        assert(""@ =~= Seq::<char>::empty());
        after_instr(sem, Instruction::Const { dst: t, value: c }, r)
    } else {
        let (s1, pieces) = lower_string_parts_spec(l, parts, s);
        parts_local(l, parts, s, code, sem, w);
        match single_literal(&pieces) {
            Some(one_piece) => {
                let r1 = pieces_hold_their_parts(l, parts, s, code, sem, w, shows, r);
                reveal_with_fuel(values_of, 3);
                reveal_with_fuel(joined, 3);
                assert(values_of(&pieces.temps, r1.vals) =~= seq![r1.vals[one_piece]]);
                assert(as_strings(texts)[0] == Value::Text(texts[0]));
                assert(as_strings(texts).drop_first() =~= Seq::empty());
                assert(joined(as_strings(texts)) =~= texts[0]);
                r1
            },
            None => {
                let (b2, dst) = s1.b.call_intrinsic(
                    Intrinsic::StringBuildN,
                    pieces.temps,
                    &Type::Str,
                );
                let b3 = release_strings_spec(&pieces.owned, b2);
                assert(s2.b.blocks == b3.blocks && s2.b.temp_types == b3.temp_types
                    && s2.b.env.current_block == b3.env.current_block) by {
                    reveal(FState::register_owned);
                }
                releases_local(&pieces.owned, b2);
                assert(stays_local(s1.b, b2) && s1.b.temp_types.len() < u32::MAX && dst.0
                    == s1.b.temp_types.len()) by {
                    reveal(FState::call_intrinsic);
                    reveal(FState::alloc_temp);
                    reveal(FState::emit);
                    reveal_with_fuel(instrs, 2);
                }
                local_adds_up(s1.b, b2, b3);
                assert(part_stands(s.b, b3, code));
                halves_stand(s.b, s1.b, b3, code);
                halves_stand(s1.b, b2, b3, code);
                let r1 = pieces_hold_their_parts(l, parts, s, code, sem, w, shows, r);
                let i = Instruction::CallIntrinsic {
                    dst,
                    intrinsic: Intrinsic::StringBuildN,
                    args: pieces.temps,
                    ret_ty: Type::Str,
                };
                reveal(FState::call_intrinsic);
                made_runs(s1.b, Type::Str, i, code, sem, r1);
                let r2 = after_instr(sem, i, r1);
                let r3 = releases_run(&pieces.owned, b2, code, sem, r2);
                comes_further(code, sem, r, r1, r2);
                comes_further(code, sem, r, r2, r3);
                r3
            },
        }
    }
}

} // verus!
