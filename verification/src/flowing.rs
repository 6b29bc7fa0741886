//! What goes through the steps of a fused loop, and in which order: each step meets the values
//! that it would meet if the steps before it had been done one after another, on whole
//! collections.

use crate::fuse::{Terminal, first_counter, later_counters};
use crate::ir::Temp;
use crate::list::List;
use crate::recognize::{FuseStage, Lambda};
use crate::run::{Mem, Value, pushed};
use vstd::prelude::*;

verus! {

/// What the functions of the steps do: the value that they give for their arguments, and what they
/// change besides. That a value depends on the arguments alone says that the functions are pure.
/// This holds of the functions that are known, where the first temporaries, `outer` of them, have
/// the values `fixed`.
pub struct Meaning {
    pub known: spec_fn(Lambda) -> bool,
    pub outer: nat,
    pub fixed: Map<Temp, Value>,
    pub value: spec_fn(Lambda, Seq<Value>) -> Value,
    pub effect: spec_fn(Lambda, Seq<Value>, Mem) -> Mem,
}

/// The arguments that a function takes: as many as it has parameters.
pub open spec fn taken(lam: Lambda, args: Seq<Value>) -> Seq<Value> {
    if args.len() <= lam.params.len() {
        args
    } else {
        args.take(lam.params.len() as int)
    }
}

/// A value and its position as arguments.
pub open spec fn placed(x: Value, pos: int) -> Seq<Value> {
    seq![x, Value::Number(pos)]
}

/// The function of a step.
pub open spec fn step_lambda(stage: &FuseStage) -> Lambda {
    match stage {
        FuseStage::MapEach { lam, .. } => *lam,
        FuseStage::Filter { lam } => *lam,
        FuseStage::FlatMap { lam, .. } => *lam,
    }
}

/// What the function of a step gives for a value at a position.
pub open spec fn step_value(m: Meaning, stage: &FuseStage, x: Value, pos: int) -> Value {
    (m.value)(step_lambda(stage), taken(step_lambda(stage), placed(x, pos)))
}

/// What a step lets through of a value: the value itself or nothing, what its function makes of
/// it, or the elements of that.
pub open spec fn let_through(m: Meaning, stage: &FuseStage, x: Value, pos: int) -> Seq<Value> {
    let v = step_value(m, stage, x, pos);
    match stage {
        FuseStage::Filter { .. } => if v == Value::Truth(true) {
            seq![x]
        } else {
            Seq::empty()
        },
        FuseStage::MapEach { .. } => seq![v],
        FuseStage::FlatMap { .. } => match v {
            Value::Items(ys) => ys,
            _ => Seq::empty(),
        },
    }
}

/// A value came to the step that has `left` steps from itself on, as number `pos` of those that
/// came to it. No step is left where it came to the end of the chain.
pub struct Seen {
    pub left: nat,
    pub value: Value,
    pub pos: int,
}

/// How far a fused loop has come: what came to the steps so far, in order, how many values came to
/// each step, and what has been changed.
pub struct Flow {
    pub trace: Seq<Seen>,
    pub seen: Map<nat, int>,
    pub mem: Mem,
}

/// A counter is advanced, where there is one.
pub open spec fn counted(counter: Option<Temp>, pos: int, mem: Mem) -> Mem {
    match counter {
        Some(cell) => Mem { cells: mem.cells.insert(cell, Value::Number(pos + 1)), ..mem },
        None => mem,
    }
}

/// One more value is about to come to the step with `left` steps from itself on.
pub open spec fn arriving(counters: &List<Option<Temp>>, left: nat, f: Flow) -> Flow {
    Flow {
        seen: f.seen.insert(left, f.seen[left] + 1),
        mem: counted(first_counter(counters), f.seen[left], f.mem),
        ..f
    }
}

/// What the end of the chain does with a value.
pub open spec fn end_effect(m: Meaning, terminal: &Terminal, x: Value, pos: int, mem: Mem) -> Mem {
    match terminal {
        Terminal::Run { lam } => (m.effect)(*lam, taken(*lam, placed(x, pos)), mem),
        Terminal::MapInto { lam, out, .. } => {
            let args = taken(*lam, placed(x, pos));
            pushed((m.effect)(*lam, args, mem), *out, (m.value)(*lam, args))
        },
        Terminal::FilterInto { lam, out, .. } => {
            let args = taken(*lam, placed(x, pos));
            let after = (m.effect)(*lam, args, mem);
            if (m.value)(*lam, args) == Value::Truth(true) {
                pushed(after, *out, x)
            } else {
                after
            }
        },
        Terminal::PushInto { out, .. } => pushed(mem, *out, x),
        Terminal::ReduceInto { lam, cell, .. } => {
            let args = taken(*lam, seq![mem.cells[*cell]] + placed(x, pos));
            let after = (m.effect)(*lam, args, mem);
            Mem { cells: after.cells.insert(*cell, (m.value)(*lam, args)), ..after }
        },
    }
}

/// A value goes through the steps of a fused loop, from the first of `stages` on.
pub open spec fn flow(
    m: Meaning,
    stages: &List<FuseStage>,
    counters: &List<Option<Temp>>,
    terminal: &Terminal,
    x: Value,
    pos: int,
    f: Flow,
) -> Flow
    decreases stages, 0nat,
{
    match stages {
        List::Nil => Flow {
            trace: f.trace.push(Seen { left: 0, value: x, pos }),
            mem: end_effect(m, terminal, x, pos, f.mem),
            ..f
        },
        List::Cons(n) => {
            let lam = step_lambda(&n.head);
            let met = Flow {
                trace: f.trace.push(Seen { left: stages.len(), value: x, pos }),
                mem: (m.effect)(lam, taken(lam, placed(x, pos)), f.mem),
                ..f
            };
            flow_all(
                m,
                &n.tail,
                &later_counters(counters),
                terminal,
                let_through(m, &n.head, x, pos),
                met,
            )
        },
    }
}

/// Values go through the steps of a fused loop, one after another.
pub open spec fn flow_all(
    m: Meaning,
    stages: &List<FuseStage>,
    counters: &List<Option<Temp>>,
    terminal: &Terminal,
    ys: Seq<Value>,
    f: Flow,
) -> Flow
    decreases stages, 1 + ys.len(),
{
    if ys.len() == 0 {
        f
    } else {
        let pos = f.seen[stages.len()];
        let met = arriving(counters, stages.len(), f);
        let after = flow(m, stages, counters, terminal, ys[0], pos, met);
        flow_all(m, stages, counters, terminal, ys.drop_first(), after)
    }
}

// The steps one after another.

/// What a step lets through of a whole collection, whose first element is number `pos`.
pub open spec fn all_let_through(
    m: Meaning,
    stage: &FuseStage,
    ys: Seq<Value>,
    pos: int,
) -> Seq<Value>
    decreases ys.len(),
{
    if ys.len() == 0 {
        Seq::empty()
    } else {
        let_through(m, stage, ys[0], pos) + all_let_through(m, stage, ys.drop_first(), pos + 1)
    }
}

/// The collection that comes to the step with `left` steps from itself on, where `ys` comes to the
/// first of `stages` and each step is done on the whole collection before the next one starts.
/// `seen` tells how many values came to each step before.
pub open spec fn eager_input(
    m: Meaning,
    stages: &List<FuseStage>,
    ys: Seq<Value>,
    seen: Map<nat, int>,
    left: nat,
) -> Seq<Value>
    decreases stages,
{
    if left == stages.len() {
        ys
    } else {
        match stages {
            List::Nil => Seq::empty(),
            List::Cons(n) => eager_input(
                m,
                &n.tail,
                all_let_through(m, &n.head, ys, seen[stages.len()]),
                seen,
                left,
            ),
        }
    }
}

/// What came to the step with `left` steps from itself on, in order.
pub open spec fn seen_at(trace: Seq<Seen>, left: nat) -> Seq<Seen>
    decreases trace.len(),
{
    if trace.len() == 0 {
        Seq::empty()
    } else {
        let before = seen_at(trace.drop_last(), left);
        if trace.last().left == left {
            before.push(trace.last())
        } else {
            before
        }
    }
}

/// A collection as it comes to a step, numbered from `pos` on.
pub open spec fn numbered(ys: Seq<Value>, left: nat, pos: int) -> Seq<Seen> {
    Seq::new(ys.len(), |i: int| Seen { left, value: ys[i], pos: pos + i })
}

/// From `f` to `g` the collection `eager` has come to the step, numbered on from what came before.
pub open spec fn met(f: Flow, g: Flow, left: nat, eager: Seq<Value>) -> bool {
    &&& seen_at(g.trace, left) == seen_at(f.trace, left) + numbered(eager, left, f.seen[left])
    &&& g.seen[left] == f.seen[left] + eager.len()
}

/// What a step lets through of two collections in turn is what it lets through of both together.
proof fn let_through_in_turn(
    m: Meaning,
    stage: &FuseStage,
    us: Seq<Value>,
    vs: Seq<Value>,
    pos: int,
)
    ensures
        all_let_through(m, stage, us + vs, pos) == all_let_through(m, stage, us, pos)
            + all_let_through(m, stage, vs, pos + us.len()),
    decreases us.len(),
{
    if us.len() == 0 {
        assert(us + vs =~= vs);
        assert(all_let_through(m, stage, us, pos) + all_let_through(m, stage, vs, pos)
            =~= all_let_through(m, stage, vs, pos));
    } else {
        assert((us + vs).drop_first() =~= us.drop_first() + vs);
        assert((us + vs)[0] == us[0]);
        let_through_in_turn(m, stage, us.drop_first(), vs, pos + 1);
        assert(all_let_through(m, stage, us + vs, pos) =~= all_let_through(m, stage, us, pos)
            + all_let_through(m, stage, vs, pos + us.len()));
    }
}

/// Nothing comes to a step where nothing comes to the first one.
proof fn nothing_comes_of_nothing(
    m: Meaning,
    stages: &List<FuseStage>,
    seen: Map<nat, int>,
    left: nat,
)
    ensures
        eager_input(m, stages, Seq::empty(), seen, left) == Seq::<Value>::empty(),
    decreases stages,
{
    if left != stages.len() {
        match stages {
            List::Nil => {},
            List::Cons(n) => nothing_comes_of_nothing(m, &n.tail, seen, left),
        }
    }
}

/// Two collections in turn bring to a step what both together bring to it.
proof fn eager_in_turn(
    m: Meaning,
    stages: &List<FuseStage>,
    us: Seq<Value>,
    vs: Seq<Value>,
    seen: Map<nat, int>,
    then: Map<nat, int>,
    left: nat,
)
    requires
        left <= stages.len(),
        forall|j: nat|
            j <= stages.len() ==> #[trigger] then[j] == seen[j] + eager_input(
                m,
                stages,
                us,
                seen,
                j,
            ).len(),
    ensures
        eager_input(m, stages, us + vs, seen, left) == eager_input(m, stages, us, seen, left)
            + eager_input(m, stages, vs, then, left),
    decreases stages,
{
    if left != stages.len() {
        match stages {
            List::Nil => {},
            List::Cons(n) => {
                let pos = seen[stages.len()];
                let_through_in_turn(m, &n.head, us, vs, pos);
                assert(then[stages.len()] == pos + us.len());
                let us2 = all_let_through(m, &n.head, us, pos);
                let vs2 = all_let_through(m, &n.head, vs, pos + us.len());
                assert forall|j: nat| j <= n.tail.len() implies #[trigger] then[j] == seen[j]
                    + eager_input(m, &n.tail, us2, seen, j).len() by {
                    assert(eager_input(m, stages, us, seen, j) == eager_input(
                        m,
                        &n.tail,
                        us2,
                        seen,
                        j,
                    ));
                }
                eager_in_turn(m, &n.tail, us2, vs2, seen, then, left);
            },
        }
    }
}

/// What `met` says of two stretches in turn it says of both together.
proof fn met_in_turn(f: Flow, g: Flow, h: Flow, left: nat, us: Seq<Value>, vs: Seq<Value>)
    requires
        met(f, g, left, us),
        met(g, h, left, vs),
    ensures
        met(f, h, left, us + vs),
{
    assert(numbered(us + vs, left, f.seen[left]) =~= numbered(us, left, f.seen[left]) + numbered(
        vs,
        left,
        g.seen[left],
    ));
    assert(seen_at(h.trace, left) =~= seen_at(f.trace, left) + numbered(
        us + vs,
        left,
        f.seen[left],
    ));
}

/// A step that meets one value more.
proof fn one_more_seen(trace: Seq<Seen>, s: Seen, left: nat)
    ensures
        seen_at(trace.push(s), left) == if s.left == left {
            seen_at(trace, left).push(s)
        } else {
            seen_at(trace, left)
        },
{
    assert(trace.push(s).drop_last() =~= trace);
}

/// In a fused loop each step meets what it would meet if the steps before it had been done one
/// after another on the whole collection: the same values, in the same order and with the same
/// positions. This holds from any step on and whatever has come to the steps before.
pub proof fn steps_meet_what_they_would_meet_eagerly(
    m: Meaning,
    stages: &List<FuseStage>,
    counters: &List<Option<Temp>>,
    terminal: &Terminal,
    ys: Seq<Value>,
    f: Flow,
)
    ensures
        forall|left: nat|
            left <= stages.len() ==> #[trigger] met(
                f,
                flow_all(m, stages, counters, terminal, ys, f),
                left,
                eager_input(m, stages, ys, f.seen, left),
            ),
        forall|left: nat|
            left > stages.len() ==> #[trigger] met(
                f,
                flow_all(m, stages, counters, terminal, ys, f),
                left,
                Seq::empty(),
            ),
    decreases stages, ys.len(),
{
    let g = flow_all(m, stages, counters, terminal, ys, f);
    if ys.len() == 0 {
        assert(ys =~= Seq::empty());
        assert forall|left: nat| left <= stages.len() implies #[trigger] met(
            f,
            g,
            left,
            eager_input(m, stages, ys, f.seen, left),
        ) by {
            nothing_comes_of_nothing(m, stages, f.seen, left);
            assert(seen_at(f.trace, left) + numbered(Seq::empty(), left, f.seen[left]) =~= seen_at(
                f.trace,
                left,
            ));
        }
        assert forall|left: nat| left > stages.len() implies #[trigger] met(
            f,
            g,
            left,
            Seq::empty(),
        ) by {
            assert(seen_at(f.trace, left) + numbered(Seq::empty(), left, f.seen[left]) =~= seen_at(
                f.trace,
                left,
            ));
        }
    } else {
        let k = stages.len();
        let pos = f.seen[k];
        let coming = arriving(counters, k, f);
        let after = flow(m, stages, counters, terminal, ys[0], pos, coming);
        let first = seq![ys[0]];
        one_value_meets_what_it_would_meet(m, stages, counters, terminal, ys[0], f);
        steps_meet_what_they_would_meet_eagerly(
            m,
            stages,
            counters,
            terminal,
            ys.drop_first(),
            after,
        );
        assert(ys =~= first + ys.drop_first());
        assert(g == flow_all(m, stages, counters, terminal, ys.drop_first(), after));
        assert forall|j: nat| j <= k implies #[trigger] after.seen[j] == f.seen[j] + eager_input(
            m,
            stages,
            first,
            f.seen,
            j,
        ).len() by {
            assert(met(f, after, j, eager_input(m, stages, first, f.seen, j)));
        }
        assert forall|left: nat| left <= k implies #[trigger] met(
            f,
            g,
            left,
            eager_input(m, stages, ys, f.seen, left),
        ) by {
            let us = eager_input(m, stages, first, f.seen, left);
            let vs = eager_input(m, stages, ys.drop_first(), after.seen, left);
            assert(met(f, after, left, us));
            assert(met(after, g, left, vs));
            met_in_turn(f, after, g, left, us, vs);
            eager_in_turn(m, stages, first, ys.drop_first(), f.seen, after.seen, left);
        }
        assert forall|left: nat| left > k implies #[trigger] met(f, g, left, Seq::empty()) by {
            assert(met(f, after, left, Seq::empty()));
            assert(met(after, g, left, Seq::empty()));
            met_in_turn(f, after, g, left, Seq::empty(), Seq::empty());
            assert(Seq::<Value>::empty() + Seq::<Value>::empty() =~= Seq::<Value>::empty());
        }
    }
}

/// One value that comes to the first step brings to each step what it would bring eagerly.
proof fn one_value_meets_what_it_would_meet(
    m: Meaning,
    stages: &List<FuseStage>,
    counters: &List<Option<Temp>>,
    terminal: &Terminal,
    x: Value,
    f: Flow,
)
    ensures
        ({
            let coming = arriving(counters, stages.len(), f);
            let after = flow(m, stages, counters, terminal, x, f.seen[stages.len()], coming);
            &&& forall|left: nat|
                left <= stages.len() ==> #[trigger] met(
                    f,
                    after,
                    left,
                    eager_input(m, stages, seq![x], f.seen, left),
                )
            &&& forall|left: nat|
                left > stages.len() ==> #[trigger] met(f, after, left, Seq::empty())
        }),
    decreases stages, 0nat,
{
    let k = stages.len();
    let pos = f.seen[k];
    let coming = arriving(counters, k, f);
    let after = flow(m, stages, counters, terminal, x, pos, coming);
    let s = Seen { left: k, value: x, pos };
    assert forall|left: nat| left != k implies #[trigger] seen_at(f.trace.push(s), left) == seen_at(
        f.trace,
        left,
    ) by {
        one_more_seen(f.trace, s, left);
    }
    one_more_seen(f.trace, s, k);
    assert(numbered(seq![x], k, pos) =~= seq![s]);
    assert(seen_at(f.trace, k).push(s) =~= seen_at(f.trace, k) + numbered(seq![x], k, pos));
    match stages {
        List::Nil => {
            assert(met(f, after, 0, seq![x]));
            assert forall|left: nat| left > 0 implies #[trigger] met(
                f,
                after,
                left,
                Seq::empty(),
            ) by {
                assert(seen_at(f.trace, left) + numbered(Seq::empty(), left, f.seen[left])
                    =~= seen_at(f.trace, left));
            }
        },
        List::Cons(n) => {
            let lam = step_lambda(&n.head);
            let met_here = Flow {
                trace: coming.trace.push(s),
                mem: (m.effect)(lam, taken(lam, placed(x, pos)), coming.mem),
                ..coming
            };
            let ys = let_through(m, &n.head, x, pos);
            steps_meet_what_they_would_meet_eagerly(
                m,
                &n.tail,
                &later_counters(counters),
                terminal,
                ys,
                met_here,
            );
            assert(after == flow_all(
                m,
                &n.tail,
                &later_counters(counters),
                terminal,
                ys,
                met_here,
            ));
            reveal_with_fuel(all_let_through, 2);
            assert(seq![x].drop_first() =~= Seq::empty());
            assert(all_let_through(m, &n.head, seq![x], pos) =~= ys);
            assert forall|left: nat| left <= k implies #[trigger] met(
                f,
                after,
                left,
                eager_input(m, stages, seq![x], f.seen, left),
            ) by {
                if left < k {
                    eager_depends_on_later(m, &n.tail, ys, f.seen, met_here.seen, left);
                    assert(met(
                        met_here,
                        after,
                        left,
                        eager_input(m, &n.tail, ys, met_here.seen, left),
                    ));
                } else {
                    assert(met(met_here, after, left, Seq::empty()));
                    assert(seen_at(met_here.trace, k) + numbered(
                        Seq::empty(),
                        k,
                        met_here.seen[k],
                    ) =~= seen_at(met_here.trace, k));
                }
            }
            assert forall|left: nat| left > k implies #[trigger] met(
                f,
                after,
                left,
                Seq::empty(),
            ) by {
                assert(met(met_here, after, left, Seq::empty()));
            }
        },
    }
}

/// What comes to a step depends on how many values came before to the steps up to it, and on no
/// other steps.
proof fn eager_depends_on_later(
    m: Meaning,
    stages: &List<FuseStage>,
    ys: Seq<Value>,
    seen: Map<nat, int>,
    other: Map<nat, int>,
    left: nat,
)
    requires
        forall|j: nat| j <= stages.len() ==> #[trigger] seen[j] == other[j],
    ensures
        eager_input(m, stages, ys, seen, left) == eager_input(m, stages, ys, other, left),
    decreases stages,
{
    if left != stages.len() {
        match stages {
            List::Nil => {},
            List::Cons(n) => {
                assert(seen[stages.len()] == other[stages.len()]);
                eager_depends_on_later(
                    m,
                    &n.tail,
                    all_let_through(m, &n.head, ys, seen[stages.len()]),
                    seen,
                    other,
                    left,
                );
            },
        }
    }
}

// Counters.

/// The counter of the values that come to the step with `left` steps from itself on, where the
/// first of `counters` is that of the step with `top` steps from itself on.
pub open spec fn counter_for(counters: &List<Option<Temp>>, top: nat, left: nat) -> Option<Temp>
    decreases counters,
{
    match counters {
        List::Nil => None,
        List::Cons(n) => if left == top {
            n.head
        } else if top == 0 {
            None
        } else {
            counter_for(&n.tail, (top - 1) as nat, left)
        },
    }
}

/// The counters hold how many values came to their steps.
pub open spec fn tracks(counters: &List<Option<Temp>>, top: nat, f: Flow) -> bool {
    forall|left: nat|
        left <= top && (#[trigger] counter_for(counters, top, left)) is Some
            ==> f.mem.cells[counter_for(counters, top, left)->Some_0] == Value::Number(f.seen[left])
}

/// No two steps share a counter, and neither the functions nor the end of the chain change one.
pub open spec fn own_counters(
    m: Meaning,
    counters: &List<Option<Temp>>,
    top: nat,
    terminal: &Terminal,
) -> bool {
    &&& forall|a: nat, b: nat|
        a <= top && b <= top && a != b && (#[trigger] counter_for(counters, top, a)) is Some
            ==> counter_for(counters, top, a) != #[trigger] counter_for(counters, top, b)
    &&& forall|a: nat, lam: Lambda, args: Seq<Value>, mem: Mem|
        a <= top && (#[trigger] counter_for(counters, top, a)) is Some ==> ((#[trigger] (m.effect)(
            lam,
            args,
            mem,
        )).cells)[counter_for(counters, top, a)->Some_0]
            == mem.cells[counter_for(counters, top, a)->Some_0]
    &&& match terminal {
        Terminal::ReduceInto { cell, .. } => forall|a: nat|
            a <= top ==> #[trigger] counter_for(counters, top, a) != Some(*cell),
        _ => true,
    }
}

/// `counters` are the later ones of `all`, from the step with `top` steps from itself on.
pub open spec fn later_of(
    all: &List<Option<Temp>>,
    all_top: nat,
    counters: &List<Option<Temp>>,
    top: nat,
) -> bool {
    &&& top <= all_top
    &&& forall|left: nat|
        left <= top ==> counter_for(all, all_top, left) == #[trigger] counter_for(
            counters,
            top,
            left,
        )
}

/// The first of later counters is that of its step.
pub proof fn first_of_later(
    all: &List<Option<Temp>>,
    all_top: nat,
    counters: &List<Option<Temp>>,
    top: nat,
)
    requires
        later_of(all, all_top, counters, top),
    ensures
        first_counter(counters) == counter_for(all, all_top, top),
        top > 0 ==> later_of(all, all_top, &later_counters(counters), (top - 1) as nat),
{
    assert(counter_for(counters, top, top) == first_counter(counters));
    if top > 0 {
        let later = later_counters(counters);
        assert forall|left: nat| left <= top - 1 implies counter_for(all, all_top, left)
            == #[trigger] counter_for(&later, (top - 1) as nat, left) by {
            assert(counter_for(counters, top, left) == counter_for(&later, (top - 1) as nat, left));
        }
    }
}

/// One more value is counted.
pub proof fn arriving_tracks(
    m: Meaning,
    terminal: &Terminal,
    all: &List<Option<Temp>>,
    all_top: nat,
    counters: &List<Option<Temp>>,
    top: nat,
    f: Flow,
)
    requires
        later_of(all, all_top, counters, top),
        own_counters(m, all, all_top, terminal),
        tracks(all, all_top, f),
    ensures
        tracks(all, all_top, arriving(counters, top, f)),
{
    first_of_later(all, all_top, counters, top);
    let g = arriving(counters, top, f);
    assert forall|left: nat|
        left <= all_top && (#[trigger] counter_for(all, all_top, left)) is Some implies g.mem.cells[
    counter_for(all, all_top, left)->Some_0] == Value::Number(g.seen[left]) by {
        if left != top && counter_for(all, all_top, top) is Some {
            assert(counter_for(all, all_top, left) != counter_for(all, all_top, top));
        }
    }
}

/// The counters hold after a value has gone through what they have to hold.
pub proof fn flow_tracks(
    m: Meaning,
    stages: &List<FuseStage>,
    counters: &List<Option<Temp>>,
    terminal: &Terminal,
    x: Value,
    pos: int,
    f: Flow,
    all: &List<Option<Temp>>,
    all_top: nat,
)
    requires
        later_of(all, all_top, counters, stages.len()),
        own_counters(m, all, all_top, terminal),
        tracks(all, all_top, f),
    ensures
        tracks(all, all_top, flow(m, stages, counters, terminal, x, pos, f)),
    decreases stages, 0nat,
{
    let g = flow(m, stages, counters, terminal, x, pos, f);
    match stages {
        List::Nil => {
            assert forall|left: nat|
                left <= all_top && (#[trigger] counter_for(
                    all,
                    all_top,
                    left,
                )) is Some implies g.mem.cells[counter_for(all, all_top, left)->Some_0]
                == Value::Number(g.seen[left]) by {}
        },
        List::Cons(n) => {
            let lam = step_lambda(&n.head);
            let args = taken(lam, placed(x, pos));
            let met_here = Flow {
                trace: f.trace.push(Seen { left: stages.len(), value: x, pos }),
                mem: (m.effect)(lam, args, f.mem),
                ..f
            };
            first_of_later(all, all_top, counters, stages.len());
            flow_all_tracks(
                m,
                &n.tail,
                &later_counters(counters),
                terminal,
                let_through(m, &n.head, x, pos),
                met_here,
                all,
                all_top,
            );
            assert(g == flow_all(
                m,
                &n.tail,
                &later_counters(counters),
                terminal,
                let_through(m, &n.head, x, pos),
                met_here,
            ));
        },
    }
}

/// The counters hold after values have gone through what they have to hold.
pub proof fn flow_all_tracks(
    m: Meaning,
    stages: &List<FuseStage>,
    counters: &List<Option<Temp>>,
    terminal: &Terminal,
    ys: Seq<Value>,
    f: Flow,
    all: &List<Option<Temp>>,
    all_top: nat,
)
    requires
        later_of(all, all_top, counters, stages.len()),
        own_counters(m, all, all_top, terminal),
        tracks(all, all_top, f),
    ensures
        tracks(all, all_top, flow_all(m, stages, counters, terminal, ys, f)),
    decreases stages, 1 + ys.len(),
{
    if ys.len() > 0 {
        let pos = f.seen[stages.len()];
        let coming = arriving(counters, stages.len(), f);
        let after = flow(m, stages, counters, terminal, ys[0], pos, coming);
        arriving_tracks(m, terminal, all, all_top, counters, stages.len(), f);
        flow_tracks(m, stages, counters, terminal, ys[0], pos, coming, all, all_top);
        flow_all_tracks(m, stages, counters, terminal, ys.drop_first(), after, all, all_top);
    }
}

/// Values that go through one after another: the last one goes through what the others left.
pub proof fn last_value_flows_last(
    m: Meaning,
    stages: &List<FuseStage>,
    counters: &List<Option<Temp>>,
    terminal: &Terminal,
    ys: Seq<Value>,
    y: Value,
    f: Flow,
)
    ensures
        ({
            let before = flow_all(m, stages, counters, terminal, ys, f);
            flow_all(m, stages, counters, terminal, ys.push(y), f) == flow(
                m,
                stages,
                counters,
                terminal,
                y,
                before.seen[stages.len()],
                arriving(counters, stages.len(), before),
            )
        }),
    decreases ys.len(),
{
    reveal_with_fuel(flow_all, 3);
    if ys.len() == 0 {
        assert(ys.push(y).drop_first() =~= Seq::empty());
    } else {
        let pos = f.seen[stages.len()];
        let coming = arriving(counters, stages.len(), f);
        let after = flow(m, stages, counters, terminal, ys[0], pos, coming);
        assert(ys.push(y).drop_first() =~= ys.drop_first().push(y));
        assert(ys.push(y)[0] == ys[0]);
        last_value_flows_last(m, stages, counters, terminal, ys.drop_first(), y, after);
    }
}

} // verus!
