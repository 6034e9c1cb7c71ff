//! A version string read as a list of runs: maximal runs of digits and
//! maximal runs of letters, with everything else acting as a separator.

use vstd::prelude::*;
use crate::order::{
    all_digits, compare_numeric, compare_text, digit_char, is_digit, is_letter, letter_char,
    numeric_order, text_order, VersionOrder,
};

verus! {

/// One run of a version string.
#[derive(Debug)]
pub struct Segment {
    /// Whether the run is made of digits; otherwise it is made of letters.
    pub numeric: bool,
    /// The characters of the run.
    pub text: Vec<char>,
}

/// The mathematical view of a run: its kind and its characters.
pub type Run = (bool, Seq<char>);

impl View for Segment {
    type V = Run;

    open spec fn view(&self) -> Run {
        (self.numeric, self.text@)
    }
}

/// The runs that a list of segments stands for.
pub open spec fn runs_of(v: Seq<Segment>) -> Seq<Run> {
    Seq::new(v.len(), |i: int| v[i]@)
}

/// Every numeric run holds digits only.
pub open spec fn runs_wf(r: Seq<Run>) -> bool {
    forall|i: int| 0 <= i < r.len() ==> ((#[trigger] r[i]).0 ==> all_digits(r[i].1))
}

pub open spec fn in_class(c: char, numeric: bool) -> bool {
    if numeric {
        is_digit(c)
    } else {
        is_letter(c)
    }
}

/// Tells whether `c` belongs to a run of the given kind.
pub fn class_char(c: char, numeric: bool) -> (r: bool)
    ensures
        r == in_class(c, numeric),
{
    if numeric {
        digit_char(c)
    } else {
        letter_char(c)
    }
}

/// End of the run of the given kind that starts at `from`: the first index
/// at or after `from` whose character is not of that kind.
pub open spec fn run_end(s: Seq<char>, from: int, numeric: bool) -> int
    decreases s.len() - from,
{
    if 0 <= from < s.len() && in_class(s[from], numeric) {
        run_end(s, from + 1, numeric)
    } else {
        from
    }
}

pub proof fn lemma_run_end(s: Seq<char>, from: int, numeric: bool)
    requires
        0 <= from <= s.len(),
    ensures
        from <= run_end(s, from, numeric) <= s.len(),
        forall|j: int| from <= j < run_end(s, from, numeric) ==> in_class(#[trigger] s[j], numeric),
        run_end(s, from, numeric) < s.len() ==> !in_class(s[run_end(s, from, numeric)], numeric),
    decreases s.len() - from,
{
    if from < s.len() && in_class(s[from], numeric) {
        lemma_run_end(s, from + 1, numeric);
    }
}

/// The runs of `s` from index `from` on.
pub open spec fn runs_from(s: Seq<char>, from: int) -> Seq<Run>
    decreases s.len() - from,
{
    if from < 0 || from >= s.len() {
        Seq::empty()
    } else if !is_digit(s[from]) && !is_letter(s[from]) {
        runs_from(s, from + 1)
    } else {
        let numeric = is_digit(s[from]);
        let end = run_end(s, from + 1, numeric);
        // The end of a run lies behind its start and within the string
        // (`lemma_run_end`); the test is there for the recursion to be
        // seen to end.
        if from < end <= s.len() {
            seq![(numeric, s.subrange(from, end))] + runs_from(s, end)
        } else {
            Seq::empty()
        }
    }
}

/// The runs of a version string.
pub open spec fn runs(s: Seq<char>) -> Seq<Run> {
    runs_from(s, 0)
}

/// How two runs compare: two digit runs by number, two letter runs as text,
/// and a digit run is newer than a letter run.
pub open spec fn run_order(a: Run, b: Run) -> VersionOrder {
    if a.0 && b.0 {
        numeric_order(a.1, b.1)
    } else if a.0 {
        VersionOrder::Newer
    } else if b.0 {
        VersionOrder::Older
    } else {
        text_order(a.1, b.1)
    }
}

/// How two lists of runs compare: the first pair of runs that differ
/// decides. When one list is a proper prefix of the other, the longer one is
/// newer if it goes on with a digit run and older if it goes on with a
/// letter run (so `1.0a` is older than `1.0`, and `1.0.1` is newer).
pub open spec fn runs_order(a: Seq<Run>, b: Seq<Run>) -> VersionOrder
    decreases a.len(),
{
    if a.len() == 0 && b.len() == 0 {
        VersionOrder::Same
    } else if a.len() == 0 {
        if b[0].0 {
            VersionOrder::Older
        } else {
            VersionOrder::Newer
        }
    } else if b.len() == 0 {
        if a[0].0 {
            VersionOrder::Newer
        } else {
            VersionOrder::Older
        }
    } else if run_order(a[0], b[0]) != VersionOrder::Same {
        run_order(a[0], b[0])
    } else {
        runs_order(a.drop_first(), b.drop_first())
    }
}

pub proof fn lemma_runs_wf(s: Seq<char>, from: int)
    requires
        0 <= from <= s.len(),
    ensures
        runs_wf(runs_from(s, from)),
    decreases s.len() - from,
{
    if from < s.len() {
        if !is_digit(s[from]) && !is_letter(s[from]) {
            lemma_runs_wf(s, from + 1);
        } else {
            let numeric = is_digit(s[from]);
            let end = run_end(s, from + 1, numeric);
            lemma_run_end(s, from + 1, numeric);
            lemma_runs_wf(s, end);
            let head = seq![(numeric, s.subrange(from, end))];
            let tail = runs_from(s, end);
            let all = head + tail;
            assert forall|i: int| 0 <= i < all.len() && (#[trigger] all[i]).0 implies all_digits(
                all[i].1,
            ) by {
                if i == 0 {
                    if numeric {
                        assert forall|j: int| 0 <= j < s.subrange(from, end).len() implies is_digit(
                            #[trigger] s.subrange(from, end)[j],
                        ) by {
                            assert(in_class(s[from + j], numeric));
                        }
                    }
                } else {
                    assert(all[i] == tail[i - 1]);
                }
            }
        }
    }
}

/// Copies the characters of `s` from `from` up to `to`.
pub fn copy_range(s: &Vec<char>, from: usize, to: usize) -> (r: Vec<char>)
    requires
        from <= to <= s.len(),
    ensures
        r@ == s@.subrange(from as int, to as int),
{
    let mut r: Vec<char> = Vec::new();
    let mut i: usize = from;
    while i < to
        invariant
            from <= i <= to,
            to <= s.len(),
            r@ == s@.subrange(from as int, i as int),
        decreases to - i,
    {
        r.push(s[i]);
        i = i + 1;
    }
    r
}

/// Splits a version string into its runs.
pub fn split_segments(s: &Vec<char>) -> (r: Vec<Segment>)
    ensures
        runs_of(r@) == runs(s@),
        runs_wf(runs_of(r@)),
{
    let len: usize = s.len();
    let mut out: Vec<Segment> = Vec::new();
    let mut i: usize = 0;
    while i < len
        invariant
            0 <= i <= len,
            len == s@.len(),
            runs(s@) == runs_of(out@) + runs_from(s@, i as int),
        decreases len - i,
    {
        let c: char = s[i];
        let numeric: bool = digit_char(c);
        if !numeric && !letter_char(c) {
            i = i + 1;
        } else {
            let mut end: usize = i + 1;
            while end < len && class_char(s[end], numeric)
                invariant
                    i < end <= len,
                    len == s@.len(),
                    run_end(s@, i + 1, numeric) == run_end(s@, end as int, numeric),
                decreases len - end,
            {
                end = end + 1;
            }
            let text: Vec<char> = copy_range(s, i, end);
            let ghost before = runs_of(out@);
            out.push(Segment { numeric, text });
            proof {
                let run: Run = (numeric, s@.subrange(i as int, end as int));
                assert(runs_of(out@) =~= before + seq![run]);
                assert(runs_from(s@, i as int) == seq![run] + runs_from(s@, end as int));
                assert(before + (seq![run] + runs_from(s@, end as int)) =~= (before + seq![run])
                    + runs_from(s@, end as int));
            }
            i = end;
        }
    }
    proof {
        assert(runs_of(out@) + runs_from(s@, len as int) =~= runs_of(out@));
        lemma_runs_wf(s@, 0);
    }
    out
}

/// Compares two runs.
pub fn compare_segment(a: &Segment, b: &Segment) -> (r: VersionOrder)
    requires
        a.numeric ==> all_digits(a.text@),
        b.numeric ==> all_digits(b.text@),
    ensures
        r == run_order(a@, b@),
{
    if a.numeric && b.numeric {
        compare_numeric(&a.text, &b.text)
    } else if a.numeric {
        VersionOrder::Newer
    } else if b.numeric {
        VersionOrder::Older
    } else {
        compare_text(&a.text, &b.text)
    }
}

/// Compares two lists of runs.
pub fn compare_segments(a: &Vec<Segment>, b: &Vec<Segment>) -> (r: VersionOrder)
    requires
        runs_wf(runs_of(a@)),
        runs_wf(runs_of(b@)),
    ensures
        r == runs_order(runs_of(a@), runs_of(b@)),
{
    let la: usize = a.len();
    let lb: usize = b.len();
    let ghost ra = runs_of(a@);
    let ghost rb = runs_of(b@);
    let mut k: usize = 0;
    proof {
        assert(ra.subrange(0, la as int) =~= ra);
        assert(rb.subrange(0, lb as int) =~= rb);
    }
    while k < la && k < lb
        invariant
            0 <= k <= la,
            k <= lb,
            la == a@.len(),
            lb == b@.len(),
            ra == runs_of(a@),
            rb == runs_of(b@),
            runs_wf(ra),
            runs_wf(rb),
            runs_order(ra, rb) == runs_order(
                ra.subrange(k as int, la as int),
                rb.subrange(k as int, lb as int),
            ),
        decreases la - k,
    {
        proof {
            assert(ra[k as int] == a@[k as int]@);
            assert(rb[k as int] == b@[k as int]@);
            assert(ra.subrange(k as int, la as int)[0] == ra[k as int]);
            assert(rb.subrange(k as int, lb as int)[0] == rb[k as int]);
            assert(ra.subrange(k as int, la as int).drop_first() =~= ra.subrange(
                k + 1,
                la as int,
            ));
            assert(rb.subrange(k as int, lb as int).drop_first() =~= rb.subrange(
                k + 1,
                lb as int,
            ));
        }
        let c: VersionOrder = compare_segment(&a[k], &b[k]);
        if c != VersionOrder::Same {
            return c;
        }
        k = k + 1;
    }
    proof {
        if k < la {
            assert(ra.subrange(k as int, la as int)[0] == ra[k as int]);
            assert(ra[k as int] == a@[k as int]@);
        }
        if k < lb {
            assert(rb.subrange(k as int, lb as int)[0] == rb[k as int]);
            assert(rb[k as int] == b@[k as int]@);
        }
    }
    if k == la && k == lb {
        VersionOrder::Same
    } else if k == la {
        if b[k].numeric {
            VersionOrder::Older
        } else {
            VersionOrder::Newer
        }
    } else {
        if a[k].numeric {
            VersionOrder::Newer
        } else {
            VersionOrder::Older
        }
    }
}

} // verus!
