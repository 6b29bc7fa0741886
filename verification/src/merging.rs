//! Merge sort on sequences: what merging runs does to their elements.

use crate::run::Value;
use vstd::prelude::*;

verus! {

/// `x` may stand in front of `y`.
pub type Order = spec_fn(Value, Value) -> bool;

/// Of two elements one may stand in front of the other, and this is transitive.
pub open spec fn orders(le: Order) -> bool {
    &&& forall|x: Value, y: Value| #[trigger] le(x, y) || le(y, x)
    &&& forall|x: Value, y: Value, z: Value| #[trigger] le(x, y) && #[trigger] le(y, z) ==> le(x, z)
}

/// Every element may stand in front of the later ones.
pub open spec fn in_order(le: Order, xs: Seq<Value>) -> bool {
    forall|i: int, j: int| 0 <= i < j < xs.len() ==> #[trigger] le(xs[i], #[trigger] xs[j])
}

/// The elements that the order does not tell from `z`.
pub open spec fn equal_to(le: Order, z: Value) -> spec_fn(Value) -> bool {
    |x: Value| le(x, z) && le(z, x)
}

/// The elements of `xs` that the order does not tell from `z`, in their order.
pub open spec fn equals_of(le: Order, z: Value, xs: Seq<Value>) -> Seq<Value>
    decreases xs.len(),
{
    if xs.len() == 0 {
        Seq::empty()
    } else {
        let rest = equals_of(le, z, xs.drop_first());
        if equal_to(le, z)(xs[0]) {
            seq![xs[0]] + rest
        } else {
            rest
        }
    }
}

/// The same elements, as often, and those that the order does not tell apart in the same order.
pub open spec fn rearranged(le: Order, xs: Seq<Value>, ys: Seq<Value>) -> bool {
    &&& xs.to_multiset() =~= ys.to_multiset()
    &&& forall|z: Value| #[trigger] equals_of(le, z, xs) == equals_of(le, z, ys)
}

/// Two runs in one: the first element of the left one goes first where it may stand in front of
/// the first one of the right.
pub open spec fn merged(le: Order, xs: Seq<Value>, ys: Seq<Value>) -> Seq<Value>
    decreases xs.len() + ys.len(),
{
    if xs.len() == 0 {
        ys
    } else if ys.len() == 0 {
        xs
    } else if le(xs[0], ys[0]) {
        seq![xs[0]] + merged(le, xs.drop_first(), ys)
    } else {
        seq![ys[0]] + merged(le, xs, ys.drop_first())
    }
}

/// The smaller of two numbers.
pub open spec fn smaller(a: int, b: int) -> int {
    if a < b {
        a
    } else {
        b
    }
}

/// Neighbouring runs of `w` elements are merged, from the first on.
pub open spec fn pass(le: Order, xs: Seq<Value>, w: int) -> Seq<Value>
    decreases xs.len(),
{
    if xs.len() == 0 || w <= 0 {
        xs
    } else {
        let n = xs.len() as int;
        let mid = smaller(w, n);
        let hi = smaller(2 * w, n);
        merged(le, xs.take(mid), xs.subrange(mid, hi)) + pass(le, xs.skip(hi), w)
    }
}

/// Every run of `w` elements is in order.
pub open spec fn runs_in_order(le: Order, xs: Seq<Value>, w: int) -> bool
    decreases xs.len(),
{
    if xs.len() <= w || w <= 0 {
        in_order(le, xs)
    } else {
        in_order(le, xs.take(w)) && runs_in_order(le, xs.skip(w), w)
    }
}

/// The equals of two sequences in a row.
proof fn equals_in_turn(le: Order, z: Value, xs: Seq<Value>, ys: Seq<Value>)
    ensures
        equals_of(le, z, xs + ys) == equals_of(le, z, xs) + equals_of(le, z, ys),
    decreases xs.len(),
{
    if xs.len() == 0 {
        assert(xs + ys =~= ys);
        assert(equals_of(le, z, xs) + equals_of(le, z, ys) =~= equals_of(le, z, ys));
    } else {
        assert((xs + ys).drop_first() =~= xs.drop_first() + ys);
        equals_in_turn(le, z, xs.drop_first(), ys);
        assert(equals_of(le, z, xs + ys) =~= equals_of(le, z, xs) + equals_of(le, z, ys));
    }
}

/// No element of a run is equal to what may not stand behind its first one.
proof fn no_equals(le: Order, z: Value, xs: Seq<Value>, y: Value)
    requires
        orders(le),
        in_order(le, xs),
        xs.len() > 0 ==> !le(xs[0], y),
        equal_to(le, z)(y),
    ensures
        equals_of(le, z, xs) == Seq::<Value>::empty(),
    decreases xs.len(),
{
    if xs.len() > 0 {
        let rest = xs.drop_first();
        if equal_to(le, z)(xs[0]) {
            assert(le(xs[0], z) && le(z, y));
            assert(le(xs[0], y));
        }
        if rest.len() > 0 {
            assert(le(xs[0], xs[1]));
            if le(rest[0], y) {
                assert(le(xs[0], rest[0]) && le(rest[0], y));
                assert(le(xs[0], y));
            }
        }
        assert forall|i: int, j: int| 0 <= i < j < rest.len() implies #[trigger] le(
            rest[i],
            #[trigger] rest[j],
        ) by {
            assert(le(xs[i + 1], xs[j + 1]));
        }
        no_equals(le, z, rest, y);
    }
}

/// A run without its first element is in order.
proof fn rest_in_order(le: Order, xs: Seq<Value>)
    requires
        in_order(le, xs),
        xs.len() > 0,
    ensures
        in_order(le, xs.drop_first()),
{
    let rest = xs.drop_first();
    assert forall|i: int, j: int| 0 <= i < j < rest.len() implies #[trigger] le(
        rest[i],
        #[trigger] rest[j],
    ) by {
        assert(le(xs[i + 1], xs[j + 1]));
    }
}

/// A run with one more element in front, which may stand in front of all the others.
proof fn one_in_front(le: Order, x: Value, xs: Seq<Value>)
    requires
        in_order(le, xs),
        forall|j: int| 0 <= j < xs.len() ==> le(x, #[trigger] xs[j]),
    ensures
        in_order(le, seq![x] + xs),
{
    let all = seq![x] + xs;
    assert forall|i: int, j: int| 0 <= i < j < all.len() implies #[trigger] le(
        all[i],
        #[trigger] all[j],
    ) by {
        if i == 0 {
            assert(le(x, xs[j - 1]));
        } else {
            assert(le(xs[i - 1], xs[j - 1]));
        }
    }
}

/// What may stand in front of the first elements of two runs may stand in front of all of what
/// they are merged to.
proof fn in_front_of_merged(le: Order, x: Value, xs: Seq<Value>, ys: Seq<Value>)
    requires
        forall|j: int| 0 <= j < xs.len() ==> le(x, #[trigger] xs[j]),
        forall|j: int| 0 <= j < ys.len() ==> le(x, #[trigger] ys[j]),
    ensures
        forall|j: int|
            0 <= j < merged(le, xs, ys).len() ==> le(x, #[trigger] merged(le, xs, ys)[j]),
        merged(le, xs, ys).len() == xs.len() + ys.len(),
    decreases xs.len() + ys.len(),
{
    if xs.len() > 0 && ys.len() > 0 {
        if le(xs[0], ys[0]) {
            in_front_of_merged(le, x, xs.drop_first(), ys);
        } else {
            in_front_of_merged(le, x, xs, ys.drop_first());
        }
    }
}

/// In a run everything behind an element that something may stand in front of.
proof fn in_front_of_run(le: Order, x: Value, xs: Seq<Value>)
    requires
        orders(le),
        in_order(le, xs),
        xs.len() > 0 ==> le(x, xs[0]),
    ensures
        forall|j: int| 0 <= j < xs.len() ==> le(x, #[trigger] xs[j]),
{
    assert forall|j: int| 0 <= j < xs.len() implies le(x, #[trigger] xs[j]) by {
        if j > 0 {
            assert(le(x, xs[0]) && le(xs[0], xs[j]));
        }
    }
}

/// How many there are of each element in two sequences in a row.
proof fn elements_add_up(xs: Seq<Value>, ys: Seq<Value>)
    ensures
        (xs + ys).to_multiset() =~= xs.to_multiset().add(ys.to_multiset()),
{
    vstd::seq_lib::lemma_multiset_commutative(xs, ys);
}

/// Two runs that are merged are one run with the same elements, in which equal elements keep
/// their order, those of the left run in front.
pub proof fn merged_is_a_run(le: Order, xs: Seq<Value>, ys: Seq<Value>)
    requires
        orders(le),
        in_order(le, xs),
        in_order(le, ys),
    ensures
        merged(le, xs, ys).len() == xs.len() + ys.len(),
        in_order(le, merged(le, xs, ys)),
        rearranged(le, xs + ys, merged(le, xs, ys)),
    decreases xs.len() + ys.len(),
{
    let all = merged(le, xs, ys);
    if xs.len() == 0 {
        assert(xs + ys =~= ys);
    } else if ys.len() == 0 {
        assert(xs + ys =~= xs);
    } else if le(xs[0], ys[0]) {
        let us = xs.drop_first();
        rest_in_order(le, xs);
        merged_is_a_run(le, us, ys);
        in_front_of_run(le, xs[0], ys);
        assert forall|j: int| 0 <= j < us.len() implies le(xs[0], #[trigger] us[j]) by {
            assert(le(xs[0], xs[j + 1]));
        }
        in_front_of_merged(le, xs[0], us, ys);
        one_in_front(le, xs[0], merged(le, us, ys));
        assert(xs + ys =~= seq![xs[0]] + (us + ys));
        elements_add_up(seq![xs[0]], us + ys);
        elements_add_up(seq![xs[0]], merged(le, us, ys));
        assert forall|z: Value| #[trigger] equals_of(le, z, xs + ys) == equals_of(le, z, all) by {
            equals_in_turn(le, z, seq![xs[0]], us + ys);
            equals_in_turn(le, z, seq![xs[0]], merged(le, us, ys));
            assert(equals_of(le, z, us + ys) == equals_of(le, z, merged(le, us, ys)));
        }
    } else {
        let vs = ys.drop_first();
        rest_in_order(le, ys);
        merged_is_a_run(le, xs, vs);
        assert(le(ys[0], xs[0]));
        in_front_of_run(le, ys[0], xs);
        assert forall|j: int| 0 <= j < vs.len() implies le(ys[0], #[trigger] vs[j]) by {
            assert(le(ys[0], ys[j + 1]));
        }
        in_front_of_merged(le, ys[0], xs, vs);
        one_in_front(le, ys[0], merged(le, xs, vs));
        let y = seq![ys[0]];
        assert(ys =~= y + vs);
        elements_add_up(xs, ys);
        elements_add_up(y, vs);
        elements_add_up(xs, vs);
        elements_add_up(y, merged(le, xs, vs));
        assert((xs + ys).to_multiset() =~= all.to_multiset());
        assert forall|z: Value| #[trigger] equals_of(le, z, xs + ys) == equals_of(le, z, all) by {
            equals_in_turn(le, z, xs, ys);
            equals_in_turn(le, z, y, vs);
            equals_in_turn(le, z, xs, vs);
            equals_in_turn(le, z, y, merged(le, xs, vs));
            assert(equals_of(le, z, xs + vs) == equals_of(le, z, merged(le, xs, vs)));
            assert(y.drop_first() =~= Seq::empty());
            if equal_to(le, z)(ys[0]) {
                no_equals(le, z, xs, ys[0]);
                assert(equals_of(le, z, xs) + equals_of(le, z, ys) =~= equals_of(le, z, ys));
                assert(equals_of(le, z, xs) + equals_of(le, z, vs) =~= equals_of(le, z, vs));
            } else {
                reveal_with_fuel(equals_of, 2);
                assert(equals_of(le, z, y) =~= Seq::empty());
                assert(equals_of(le, z, y) + equals_of(le, z, vs) =~= equals_of(le, z, vs));
                assert(equals_of(le, z, y) + equals_of(le, z, merged(le, xs, vs)) =~= equals_of(
                    le,
                    z,
                    merged(le, xs, vs),
                ));
            }
        }
    }
}

/// What is rearranged twice is rearranged.
pub proof fn rearranged_in_turn(le: Order, xs: Seq<Value>, ys: Seq<Value>, zs: Seq<Value>)
    requires
        rearranged(le, xs, ys),
        rearranged(le, ys, zs),
    ensures
        rearranged(le, xs, zs),
{
    assert forall|z: Value| #[trigger] equals_of(le, z, xs) == equals_of(le, z, zs) by {
        assert(equals_of(le, z, xs) == equals_of(le, z, ys));
    }
}

/// What is rearranged piece by piece is rearranged.
proof fn rearranged_by_pieces(
    le: Order,
    xs: Seq<Value>,
    us: Seq<Value>,
    ys: Seq<Value>,
    vs: Seq<Value>,
)
    requires
        rearranged(le, xs, us),
        rearranged(le, ys, vs),
    ensures
        rearranged(le, xs + ys, us + vs),
{
    elements_add_up(xs, ys);
    elements_add_up(us, vs);
    assert forall|z: Value| #[trigger] equals_of(le, z, xs + ys) == equals_of(le, z, us + vs) by {
        equals_in_turn(le, z, xs, ys);
        equals_in_turn(le, z, us, vs);
        assert(equals_of(le, z, xs) == equals_of(le, z, us));
    }
}

/// Runs of `w` elements that are in order, merged two by two, are runs of twice as many that are
/// in order, with the same elements, equal ones in the same order.
pub proof fn pass_doubles_runs(le: Order, xs: Seq<Value>, w: int)
    requires
        orders(le),
        w > 0,
        runs_in_order(le, xs, w),
    ensures
        pass(le, xs, w).len() == xs.len(),
        runs_in_order(le, pass(le, xs, w), 2 * w),
        rearranged(le, xs, pass(le, xs, w)),
    decreases xs.len(),
{
    let n = xs.len() as int;
    if n > 0 {
        let mid = smaller(w, n);
        let hi = smaller(2 * w, n);
        let left = xs.take(mid);
        let right = xs.subrange(mid, hi);
        let rest = xs.skip(hi);
        let one = merged(le, left, right);
        assert(n <= w ==> left =~= xs);
        assert(in_order(le, left));
        let tail = xs.skip(mid);
        if n > w {
            assert(runs_in_order(le, tail, w));
            if tail.len() <= w {
                assert(right =~= tail);
                assert(rest =~= Seq::empty());
            } else {
                assert(right =~= tail.take(w));
                assert(rest =~= tail.skip(w));
            }
        } else {
            assert(right =~= Seq::empty());
            assert(rest =~= Seq::empty());
        }
        assert(in_order(le, right));
        assert(runs_in_order(le, rest, w));
        merged_is_a_run(le, left, right);
        pass_doubles_runs(le, rest, w);
        let more = pass(le, rest, w);
        let all = pass(le, xs, w);
        assert(all == one + more);
        assert(xs =~= (left + right) + rest);
        rearranged_by_pieces(le, left + right, one, rest, more);
        if all.len() <= 2 * w {
            assert(more =~= Seq::empty());
            assert(all =~= one);
        } else {
            assert(all.take(2 * w) =~= one);
            assert(all.skip(2 * w) =~= more);
        }
    }
}

/// Single elements are runs.
pub proof fn singles_are_runs(le: Order, xs: Seq<Value>)
    ensures
        runs_in_order(le, xs, 1),
    decreases xs.len(),
{
    if xs.len() > 1 {
        singles_are_runs(le, xs.skip(1));
    }
}

/// Merging loses nothing.
pub proof fn merged_has_all(le: Order, xs: Seq<Value>, ys: Seq<Value>)
    ensures
        merged(le, xs, ys).len() == xs.len() + ys.len(),
    decreases xs.len() + ys.len(),
{
    if xs.len() > 0 && ys.len() > 0 {
        if le(xs[0], ys[0]) {
            merged_has_all(le, xs.drop_first(), ys);
        } else {
            merged_has_all(le, xs, ys.drop_first());
        }
    }
}

} // verus!
