//! Building text: numbers in decimal, lists joined by a separator, and
//! values that may be absent.

use vstd::prelude::*;
use vstd::string::StringExecFns;
use crate::colors::{paint, painted, GREY};
use crate::package::texts;

verus! {

/// The character of a decimal digit.
pub open spec fn digit_of(d: int) -> char {
    if d == 0 {
        '0'
    } else if d == 1 {
        '1'
    } else if d == 2 {
        '2'
    } else if d == 3 {
        '3'
    } else if d == 4 {
        '4'
    } else if d == 5 {
        '5'
    } else if d == 6 {
        '6'
    } else if d == 7 {
        '7'
    } else if d == 8 {
        '8'
    } else {
        '9'
    }
}

/// A number in decimal, without leading zeros.
pub open spec fn decimal(n: nat) -> Seq<char>
    decreases n,
{
    if n < 10 {
        seq![digit_of(n as int)]
    } else {
        decimal(n / 10).push(digit_of((n % 10) as int))
    }
}

/// The text of one decimal digit.
fn digit_text(d: u64) -> (r: &'static str)
    requires
        d < 10,
    ensures
        r@ == seq![digit_of(d as int)],
{
    proof {
        reveal_strlit("0");
        reveal_strlit("1");
        reveal_strlit("2");
        reveal_strlit("3");
        reveal_strlit("4");
        reveal_strlit("5");
        reveal_strlit("6");
        reveal_strlit("7");
        reveal_strlit("8");
        reveal_strlit("9");
    }
    let r: &'static str = if d == 0 {
        "0"
    } else if d == 1 {
        "1"
    } else if d == 2 {
        "2"
    } else if d == 3 {
        "3"
    } else if d == 4 {
        "4"
    } else if d == 5 {
        "5"
    } else if d == 6 {
        "6"
    } else if d == 7 {
        "7"
    } else if d == 8 {
        "8"
    } else {
        "9"
    };
    proof {
        assert(r@ =~= seq![digit_of(d as int)]);
    }
    r
}

/// Writes a number in decimal.
pub fn decimal_text(n: u64) -> (r: String)
    ensures
        r@ == decimal(n as nat),
    decreases n,
{
    if n < 10 {
        String::from_str(digit_text(n))
    } else {
        let mut r: String = decimal_text(n / 10);
        r.append(digit_text(n % 10));
        proof {
            assert(decimal((n / 10) as nat) + seq![digit_of((n % 10) as int)] =~= decimal(
                (n / 10) as nat,
            ).push(digit_of((n % 10) as int)));
        }
        r
    }
}

/// The items joined, with `sep` between each two of them.
pub open spec fn joined(items: Seq<Seq<char>>, sep: Seq<char>) -> Seq<char>
    decreases items.len(),
{
    if items.len() == 0 {
        Seq::empty()
    } else if items.len() == 1 {
        items[0]
    } else {
        joined(items.drop_last(), sep) + sep + items.last()
    }
}

/// Joins the items, with `sep` between each two of them.
pub fn join(items: &Vec<String>, sep: &str) -> (r: String)
    ensures
        r@ == joined(texts(items@), sep@),
{
    let ghost all = texts(items@);
    let mut r: String = String::new();
    let mut i: usize = 0;
    proof {
        assert(all.subrange(0, 0).len() == 0);
    }
    while i < items.len()
        invariant
            0 <= i <= items@.len(),
            all == texts(items@),
            r@ == joined(all.subrange(0, i as int), sep@),
        decreases items@.len() - i,
    {
        let ghost before = r@;
        if i > 0 {
            r.append(sep);
        }
        r.append(items[i].as_str());
        proof {
            let next = all.subrange(0, i + 1);
            assert(next.drop_last() =~= all.subrange(0, i as int));
            assert(next.last() == items@[i as int]@);
            if i == 0 {
                assert(next[0] == items@[0]@);
                assert(before + items@[0]@ =~= items@[0]@);
            }
        }
        i = i + 1;
    }
    proof {
        assert(all.subrange(0, items@.len() as int) =~= all);
    }
    r
}

/// `text` in grey.
pub open spec fn greyed(text: Seq<char>) -> Seq<char> {
    painted(GREY@, text)
}

/// The items joined by `, `, or `none` in grey when there are no items.
pub open spec fn listed_or(items: Seq<Seq<char>>, none: Seq<char>) -> Seq<char> {
    if items.len() == 0 {
        greyed(none)
    } else {
        joined(items, ", "@)
    }
}

/// Writes the items joined by `, `, or `none` in grey when there are none.
pub fn list_or(items: &Vec<String>, none: &str) -> (r: String)
    ensures
        r@ == listed_or(texts(items@), none@),
{
    if items.len() == 0 {
        paint(GREY, none)
    } else {
        join(items, ", ")
    }
}

/// The value, or `none` in grey when there is no value.
pub open spec fn value_or(value: Option<Seq<char>>, none: Seq<char>) -> Seq<char> {
    match value {
        Some(v) => v,
        None => greyed(none),
    }
}

/// Writes the value, or `none` in grey when there is no value.
pub fn text_or(value: &Option<String>, none: &str) -> (r: String)
    ensures
        r@ == value_or(crate::package::opt_text(*value), none@),
{
    match value {
        Some(v) => v.clone(),
        None => paint(GREY, none),
    }
}

} // verus!
