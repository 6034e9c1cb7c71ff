//! The three-way result of a version comparison, and the comparison of the
//! two kinds of runs a version is made of: digit runs, which are compared by
//! the number they denote, and letter runs, which are compared as text.

use vstd::prelude::*;

verus! {

/// How a version stands relative to another one.
#[derive(Clone, Copy, Debug, PartialEq, Eq, Structural)]
pub enum VersionOrder {
    Older,
    Same,
    Newer,
}

impl VersionOrder {
    /// The result of the same comparison with its operands exchanged.
    pub open spec fn flip(self) -> VersionOrder {
        match self {
            VersionOrder::Older => VersionOrder::Newer,
            VersionOrder::Same => VersionOrder::Same,
            VersionOrder::Newer => VersionOrder::Older,
        }
    }

    /// Exchanges `Older` and `Newer`.
    pub fn reversed(self) -> (r: VersionOrder)
        ensures
            r == self.flip(),
    {
        match self {
            VersionOrder::Older => VersionOrder::Newer,
            VersionOrder::Same => VersionOrder::Same,
            VersionOrder::Newer => VersionOrder::Older,
        }
    }
}

/// The order of two integers.
pub open spec fn int_order(a: int, b: int) -> VersionOrder {
    if a < b {
        VersionOrder::Older
    } else if a == b {
        VersionOrder::Same
    } else {
        VersionOrder::Newer
    }
}

pub open spec fn is_digit(c: char) -> bool {
    '0' <= c && c <= '9'
}

pub open spec fn is_letter(c: char) -> bool {
    ('a' <= c && c <= 'z') || ('A' <= c && c <= 'Z')
}

pub open spec fn all_digits(s: Seq<char>) -> bool {
    forall|i: int| 0 <= i < s.len() ==> is_digit(#[trigger] s[i])
}

/// The number a digit denotes.
pub open spec fn digit_value(c: char) -> int {
    c as int - '0' as int
}

/// The number that a run of decimal digits denotes; the empty run denotes 0.
pub open spec fn digits_value(s: Seq<char>) -> int
    decreases s.len(),
{
    if s.len() == 0 {
        0
    } else {
        10 * digits_value(s.drop_last()) + digit_value(s.last())
    }
}

/// Digit runs are ordered by the numbers they denote, whatever their length
/// and however many zeros lead them.
pub open spec fn numeric_order(a: Seq<char>, b: Seq<char>) -> VersionOrder {
    int_order(digits_value(a), digits_value(b))
}

/// Text order: the first differing character decides by its code point, and
/// a proper prefix is older than what extends it.
pub open spec fn text_order(a: Seq<char>, b: Seq<char>) -> VersionOrder
    decreases a.len(),
{
    if a.len() == 0 && b.len() == 0 {
        VersionOrder::Same
    } else if a.len() == 0 {
        VersionOrder::Older
    } else if b.len() == 0 {
        VersionOrder::Newer
    } else if a[0] != b[0] {
        int_order(a[0] as int, b[0] as int)
    } else {
        text_order(a.drop_first(), b.drop_first())
    }
}

pub fn digit_char(c: char) -> (r: bool)
    ensures
        r == is_digit(c),
{
    '0' <= c && c <= '9'
}

pub fn letter_char(c: char) -> (r: bool)
    ensures
        r == is_letter(c),
{
    ('a' <= c && c <= 'z') || ('A' <= c && c <= 'Z')
}

/// The number denoted by the first `k` digits of `s` once it is padded on
/// the left with zeros to `n` digits.
spec fn padded_prefix_value(s: Seq<char>, n: int, k: int) -> int {
    let pad = n - s.len();
    if k <= pad {
        0
    } else {
        digits_value(s.subrange(0, k - pad))
    }
}

/// The digit at position `k` of `s` padded on the left with zeros to `n`
/// digits.
spec fn padded_digit(s: Seq<char>, n: int, k: int) -> int {
    let pad = n - s.len();
    if k < pad {
        0
    } else {
        digit_value(s[k - pad])
    }
}

proof fn lemma_padded_step(s: Seq<char>, n: int, k: int)
    requires
        s.len() <= n,
        0 <= k < n,
    ensures
        padded_prefix_value(s, n, k + 1) == 10 * padded_prefix_value(s, n, k) + padded_digit(
            s,
            n,
            k,
        ),
{
    let pad = n - s.len();
    if k >= pad {
        let m = k - pad;
        let longer = s.subrange(0, m + 1);
        assert(longer.drop_last() =~= s.subrange(0, m));
        assert(longer.last() == s[m]);
        assert(digits_value(longer) == 10 * digits_value(longer.drop_last()) + digit_value(
            longer.last(),
        ));
        if m == 0 {
            assert(s.subrange(0, 0).len() == 0);
            assert(digits_value(s.subrange(0, 0)) == 0);
        }
    }
}

/// Compares two digit runs by the numbers they denote.
pub fn compare_numeric(a: &Vec<char>, b: &Vec<char>) -> (r: VersionOrder)
    requires
        all_digits(a@),
        all_digits(b@),
    ensures
        r == numeric_order(a@, b@),
{
    let la: usize = a.len();
    let lb: usize = b.len();
    let n: usize = if la >= lb {
        la
    } else {
        lb
    };
    let pad_a: usize = n - la;
    let pad_b: usize = n - lb;
    let mut r: VersionOrder = VersionOrder::Same;
    let mut k: usize = 0;
    while k < n
        invariant
            0 <= k <= n,
            la == a@.len(),
            lb == b@.len(),
            la <= n,
            lb <= n,
            pad_a == n - la,
            pad_b == n - lb,
            all_digits(a@),
            all_digits(b@),
            r == int_order(
                padded_prefix_value(a@, n as int, k as int),
                padded_prefix_value(b@, n as int, k as int),
            ),
        decreases n - k,
    {
        let da: char = if k < pad_a {
            '0'
        } else {
            a[k - pad_a]
        };
        let db: char = if k < pad_b {
            '0'
        } else {
            b[k - pad_b]
        };
        proof {
            lemma_padded_step(a@, n as int, k as int);
            lemma_padded_step(b@, n as int, k as int);
            assert(digit_value(da) == padded_digit(a@, n as int, k as int));
            assert(digit_value(db) == padded_digit(b@, n as int, k as int));
            assert(is_digit(da) && is_digit(db));
        }
        if r == VersionOrder::Same {
            if da < db {
                r = VersionOrder::Older;
            } else if da > db {
                r = VersionOrder::Newer;
            }
        }
        k = k + 1;
    }
    proof {
        assert(a@.subrange(0, la as int) =~= a@);
        assert(b@.subrange(0, lb as int) =~= b@);
        if la == 0 {
            assert(a@.subrange(0, 0).len() == 0);
        }
        if lb == 0 {
            assert(b@.subrange(0, 0).len() == 0);
        }
    }
    r
}

/// Compares two runs as text.
pub fn compare_text(a: &Vec<char>, b: &Vec<char>) -> (r: VersionOrder)
    ensures
        r == text_order(a@, b@),
{
    let la: usize = a.len();
    let lb: usize = b.len();
    let mut k: usize = 0;
    proof {
        assert(a@.subrange(0, la as int) =~= a@);
        assert(b@.subrange(0, lb as int) =~= b@);
    }
    while k < la && k < lb && a[k] == b[k]
        invariant
            0 <= k <= la,
            k <= lb,
            la == a@.len(),
            lb == b@.len(),
            text_order(a@, b@) == text_order(
                a@.subrange(k as int, la as int),
                b@.subrange(k as int, lb as int),
            ),
        decreases la - k,
    {
        proof {
            let sa = a@.subrange(k as int, la as int);
            let sb = b@.subrange(k as int, lb as int);
            assert(sa[0] == a@[k as int] && sb[0] == b@[k as int]);
            assert(sa.drop_first() =~= a@.subrange(k + 1, la as int));
            assert(sb.drop_first() =~= b@.subrange(k + 1, lb as int));
        }
        k = k + 1;
    }
    proof {
        let sa = a@.subrange(k as int, la as int);
        let sb = b@.subrange(k as int, lb as int);
        if k < la {
            assert(sa[0] == a@[k as int]);
        }
        if k < lb {
            assert(sb[0] == b@[k as int]);
        }
    }
    if k == la && k == lb {
        VersionOrder::Same
    } else if k == la {
        VersionOrder::Older
    } else if k == lb {
        VersionOrder::Newer
    } else if a[k] < b[k] {
        VersionOrder::Older
    } else {
        VersionOrder::Newer
    }
}

} // verus!
