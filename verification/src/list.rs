//! Immutable singly linked lists with shared tails.

use std::rc::Rc;
use vstd::prelude::*;

verus! {

/// Another handle on the value behind `p`.
///
/// Calls `Rc::clone`, which the standard library documents as making another pointer to
/// the same allocation: the two handles hold one value.
#[verifier::external_body]
pub(crate) fn share<T>(p: &Rc<T>) -> (r: Rc<T>)
    ensures
        r == *p,
{
    Rc::clone(p)
}

/// The value of a handle.
#[verifier::inline]
pub open spec fn share_spec<T>(p: &Rc<T>) -> Rc<T> {
    *p
}

/// A list: empty, or a node that holds the first item and the rest.
#[derive(Debug)]
pub enum List<T> {
    Nil,
    Cons(Rc<Node<T>>),
}

/// One link of a list.
#[derive(Debug)]
pub struct Node<T> {
    pub head: T,
    pub tail: List<T>,
}

/// The list with `x` in front of `rest`.
pub open spec fn cons<T>(x: T, rest: List<T>) -> List<T> {
    List::Cons(Rc::new(Node { head: x, tail: rest }))
}

impl<T> List<T> {
    /// How many items the list holds.
    pub open spec fn len(&self) -> nat
        decreases self,
    {
        match self {
            List::Nil => 0,
            List::Cons(n) => 1 + n.tail.len(),
        }
    }

    /// The items in order.
    pub open spec fn view(&self) -> Seq<T>
        decreases self,
    {
        match self {
            List::Nil => Seq::empty(),
            List::Cons(n) => seq![n.head] + n.tail.view(),
        }
    }

    /// The same list.
    #[verifier::inline]
    pub open spec fn dup_spec(&self) -> List<T> {
        *self
    }

    /// Another handle on the same list.
    #[verifier::when_used_as_spec(dup_spec)]
    pub fn dup(&self) -> (r: List<T>)
        ensures
            r == *self,
    {
        match self {
            List::Nil => List::Nil,
            List::Cons(n) => List::Cons(share(n)),
        }
    }

    /// Whether the list holds nothing.
    #[verifier::allow_in_spec]
    pub fn is_empty(&self) -> bool
        returns
            (self is Nil),
    {
        matches!(self, List::Nil)
    }
}

/// Puts `x` in front of `rest`.
#[verifier::when_used_as_spec(cons)]
pub fn prepend<T>(x: T, rest: List<T>) -> (r: List<T>)
    ensures
        r == cons(x, rest),
{
    List::Cons(Rc::new(Node { head: x, tail: rest }))
}

/// The list whose items are those of `s`, in order.
pub open spec fn from_seq<T>(s: Seq<T>) -> List<T>
    decreases s.len(),
{
    if s.len() == 0 {
        List::Nil
    } else {
        cons(s[0], from_seq(s.drop_first()))
    }
}

/// A list built from `v` has the items of `v`, in order.
pub proof fn from_seq_view<T>(s: Seq<T>)
    ensures
        from_seq(s).view() == s,
    decreases s.len(),
{
    if s.len() > 0 {
        from_seq_view(s.drop_first());
        assert(seq![s[0]] + s.drop_first() =~= s);
    } else {
        assert(from_seq(s).view() =~= s);
    }
}

/// Builds a list from a vector.
pub fn list_of<T>(v: Vec<T>) -> (r: List<T>)
    ensures
        r == from_seq(v@),
        r.view() == v@,
{
    let ghost all = v@;
    let mut v = v;
    let mut r: List<T> = List::Nil;
    while v.len() > 0
        invariant
            v@.len() <= all.len(),
            v@ == all.take(v@.len() as int),
            r == from_seq(all.skip(v@.len() as int)),
        decreases v@.len(),
    {
        let ghost before = v@.len() as int;
        if let Some(x) = v.pop() {
            proof {
                let s = all.skip(before - 1);
                assert(s[0] == x);
                assert(s.drop_first() =~= all.skip(before));
                assert(v@ =~= all.take(before - 1));
            }
            r = prepend(x, r);
        }
    }
    proof {
        assert(all.skip(0) =~= all);
        from_seq_view(all);
    }
    r
}

/// The one-item list.
#[verifier::inline]
pub open spec fn one_spec<T>(a: T) -> List<T> {
    cons(a, List::Nil)
}

/// The two-item list.
#[verifier::inline]
pub open spec fn two_spec<T>(a: T, b: T) -> List<T> {
    cons(a, cons(b, List::Nil))
}

/// The three-item list.
#[verifier::inline]
pub open spec fn three_spec<T>(a: T, b: T, c: T) -> List<T> {
    cons(a, cons(b, cons(c, List::Nil)))
}

/// Makes a one-item list.
#[verifier::when_used_as_spec(one_spec)]
pub fn one<T>(a: T) -> (r: List<T>)
    ensures
        r == one_spec(a),
{
    prepend(a, List::Nil)
}

/// Makes a two-item list.
#[verifier::when_used_as_spec(two_spec)]
pub fn two<T>(a: T, b: T) -> (r: List<T>)
    ensures
        r == two_spec(a, b),
{
    prepend(a, prepend(b, List::Nil))
}

/// Makes a three-item list.
#[verifier::when_used_as_spec(three_spec)]
pub fn three<T>(a: T, b: T, c: T) -> (r: List<T>)
    ensures
        r == three_spec(a, b, c),
{
    prepend(a, prepend(b, prepend(c, List::Nil)))
}

} // verus!
