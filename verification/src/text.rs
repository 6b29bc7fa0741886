//! Text that is put together from pieces and rendered on demand.

use crate::list::share;
use std::rc::Rc;
use vstd::prelude::*;
use vstd::string::StringExecFns;

verus! {

/// A piece of text.
#[derive(Debug)]
pub enum Text {
    Owned(String),
    Fixed(&'static str),
    /// A number in decimal notation.
    Number(usize),
    /// Two texts in a row.
    Joined(Rc<Text>, Rc<Text>),
}

/// The character of a decimal digit.
pub open spec fn digit_char(d: nat) -> char {
    if d == 0 {
        '0'
    } else if d == 1 {
        '1'
    } else if d == 2 {
        '2'
    } else if d == 3 {
        '3'
    } else if d == 4 {
        '4'
    } else if d == 5 {
        '5'
    } else if d == 6 {
        '6'
    } else if d == 7 {
        '7'
    } else if d == 8 {
        '8'
    } else {
        '9'
    }
}

/// The decimal notation of a number.
pub open spec fn decimal(n: nat) -> Seq<char>
    decreases n,
{
    if n < 10 {
        seq![digit_char(n)]
    } else {
        decimal(n / 10).push(digit_char(n % 10))
    }
}

/// The one-character text of a decimal digit.
fn digit_text(d: usize) -> (r: &'static str)
    requires
        d < 10,
    ensures
        r@ == seq![digit_char(d as nat)],
{
    proof {
        reveal_strlit("0");
        reveal_strlit("1");
        reveal_strlit("2");
        reveal_strlit("3");
        reveal_strlit("4");
        reveal_strlit("5");
        reveal_strlit("6");
        reveal_strlit("7");
        reveal_strlit("8");
        reveal_strlit("9");
    }
    let r: &'static str = if d == 0 {
        "0"
    } else if d == 1 {
        "1"
    } else if d == 2 {
        "2"
    } else if d == 3 {
        "3"
    } else if d == 4 {
        "4"
    } else if d == 5 {
        "5"
    } else if d == 6 {
        "6"
    } else if d == 7 {
        "7"
    } else if d == 8 {
        "8"
    } else {
        "9"
    };
    assert(r@ =~= seq![digit_char(d as nat)]);
    r
}

/// Writes a number in decimal notation.
pub fn decimal_text(n: usize) -> (r: String)
    ensures
        r@ == decimal(n as nat),
    decreases n,
{
    if n < 10 {
        let r: String = digit_text(n).to_owned();
        r
    } else {
        let mut r: String = decimal_text(n / 10);
        r.append(digit_text(n % 10));
        assert(r@ =~= decimal(n as nat / 10).push(digit_char(n as nat % 10)));
        r
    }
}

impl Text {
    /// The characters of the text.
    pub open spec fn view(&self) -> Seq<char>
        decreases self,
    {
        match self {
            Text::Owned(s) => s@,
            Text::Fixed(s) => s@,
            Text::Number(n) => decimal(*n as nat),
            Text::Joined(a, b) => a.view() + b.view(),
        }
    }

    /// Renders the text.
    pub fn render(&self) -> (r: String)
        ensures
            r@ == self.view(),
        decreases self,
    {
        match self {
            Text::Owned(s) => s.clone(),
            Text::Fixed(s) => (*s).to_owned(),
            Text::Number(n) => decimal_text(*n),
            Text::Joined(a, b) => {
                let mut r: String = a.render();
                let t: String = b.render();
                r.append(t.as_str());
                r
            },
        }
    }

    /// The same text.
    #[verifier::inline]
    pub open spec fn dup_spec(&self) -> Text {
        *self
    }

    /// A copy of the text.
    #[verifier::when_used_as_spec(dup_spec)]
    pub fn dup(&self) -> (r: Text)
        ensures
            r == *self,
    {
        match self {
            Text::Owned(s) => Text::Owned(s.clone()),
            Text::Fixed(s) => Text::Fixed(s),
            Text::Number(n) => Text::Number(*n),
            Text::Joined(a, b) => Text::Joined(share(a), share(b)),
        }
    }
}

/// `a` followed by `b`.
#[verifier::inline]
pub open spec fn join_spec(a: Text, b: Text) -> Text {
    Text::Joined(Rc::new(a), Rc::new(b))
}

/// Puts `b` behind `a`.
#[verifier::when_used_as_spec(join_spec)]
pub fn join(a: Text, b: Text) -> (r: Text)
    ensures
        r == join_spec(a, b),
{
    Text::Joined(Rc::new(a), Rc::new(b))
}

/// Two texts have the same characters.
#[verifier::inline]
pub open spec fn str_eq_spec(a: &str, b: &str) -> bool {
    a@ == b@
}

/// Whether two texts have the same characters.
#[verifier::when_used_as_spec(str_eq_spec)]
pub fn str_eq(a: &str, b: &str) -> (r: bool)
    ensures
        r == (a@ == b@),
{
    let x: String = a.to_owned();
    let y: String = b.to_owned();
    x == y
}

/// The name has the characters of `lit`.
#[verifier::inline]
pub open spec fn is_str_spec(name: &String, lit: &str) -> bool {
    name@ == lit@
}

/// Whether the name has the characters of `lit`.
#[verifier::when_used_as_spec(is_str_spec)]
pub fn is_str(name: &String, lit: &str) -> (r: bool)
    ensures
        r == (name@ == lit@),
{
    str_eq(name.as_str(), lit)
}

/// Two names have the same characters.
#[verifier::inline]
pub open spec fn same_name_spec(a: &String, b: &String) -> bool {
    a@ == b@
}

/// Whether two names have the same characters.
#[verifier::when_used_as_spec(same_name_spec)]
pub fn same_name(a: &String, b: &String) -> (r: bool)
    ensures
        r == (a@ == b@),
{
    *a == *b
}

} // verus!
