//! Dependency strings such as `foo>=1.2.3`: splitting them into a name and a
//! version constraint, ordering versions of the form `epoch:version-release`,
//! and deciding whether a version meets a constraint.
//!
//! Versions are ordered in the manner of the system package manager: first
//! by epoch (a number, 0 when absent), then by the version proper, and last
//! by the release, which counts only when both sides carry one. Version and
//! release are read as lists of digit runs and letter runs; every other
//! character only parts two runs and does not count itself. Digit runs are
//! ordered by number, letter runs as text, a digit run is newer than a letter
//! run, and of two lists of which one begins the other the longer one is
//! newer if it goes on with digits and older if it goes on with letters.

use vstd::prelude::*;
use vstd::string::StrSliceExecFns;
use crate::order::{all_digits, compare_numeric, digit_char, is_digit, numeric_order, VersionOrder};
use crate::segments::{
    compare_segments, copy_range, lemma_run_end, run_end, runs, runs_order, split_segments,
    Segment,
};

verus! {

/// The characters that start a version operator.
pub open spec fn is_operator_char(c: char) -> bool {
    c == '=' || c == '<' || c == '>'
}

/// Index of the first operator character of `s` at or after `from`, or
/// `s.len()` when there is none.
pub open spec fn operator_index(s: Seq<char>, from: int) -> int
    decreases s.len() - from,
{
    if from < 0 || from >= s.len() {
        s.len() as int
    } else if is_operator_char(s[from]) {
        from
    } else {
        operator_index(s, from + 1)
    }
}

/// Number of characters of the operator that starts at `at`: two when an `=`
/// follows the first operator character, one otherwise.
pub open spec fn operator_width(s: Seq<char>, at: int) -> int {
    if at + 1 < s.len() && s[at + 1] == '=' {
        2
    } else {
        1
    }
}

/// The name part of a dependency string.
pub open spec fn dependency_name(s: Seq<char>) -> Seq<char> {
    s.subrange(0, operator_index(s, 0))
}

/// Whether a dependency string carries a version constraint.
pub open spec fn has_constraint(s: Seq<char>) -> bool {
    operator_index(s, 0) < s.len()
}

/// The operator text of a constrained dependency string.
pub open spec fn dependency_operator(s: Seq<char>) -> Seq<char> {
    let at = operator_index(s, 0);
    s.subrange(at, at + operator_width(s, at))
}

/// The version text of a constrained dependency string.
pub open spec fn dependency_version(s: Seq<char>) -> Seq<char> {
    let at = operator_index(s, 0);
    s.subrange(at + operator_width(s, at), s.len() as int)
}

/// `operator_index` stays within the string, points at an operator character
/// when it is inside, and skips only characters that are none.
pub proof fn lemma_operator_index(s: Seq<char>, from: int)
    requires
        0 <= from <= s.len(),
    ensures
        from <= operator_index(s, from) <= s.len(),
        operator_index(s, from) < s.len() ==> is_operator_char(s[operator_index(s, from)]),
        forall|j: int| from <= j < operator_index(s, from) ==> !is_operator_char(#[trigger] s[j]),
    decreases s.len() - from,
{
    if from < s.len() && !is_operator_char(s[from]) {
        lemma_operator_index(s, from + 1);
    }
}

/// Tells whether `c` starts a version operator.
pub fn operator_char(c: char) -> (r: bool)
    ensures
        r == is_operator_char(c),
{
    c == '=' || c == '<' || c == '>'
}

/// Splits a dependency string at its first operator character. Without one
/// the whole string is the name and there is no constraint; with one, the
/// name is what precedes it, the operator is that character together with a
/// directly following `=`, and the version is the rest.
pub fn parse_dependency<'a>(pkg: &'a String) -> (r: (&'a str, Option<(&'a str, &'a str)>))
    ensures
        r.0@ == dependency_name(pkg@),
        r.1 is Some <==> has_constraint(pkg@),
        r.1 matches Some(c) ==> c.0@ == dependency_operator(pkg@) && c.1@ == dependency_version(
            pkg@,
        ),
{
    let s: &'a str = pkg.as_str();
    let chars: Vec<char> = chars_of(s);
    let len: usize = chars.len();
    let mut i: usize = 0;
    while i < len && !operator_char(chars[i])
        invariant
            0 <= i <= len,
            len == s@.len(),
            chars@ == s@,
            s@ == pkg@,
            operator_index(s@, 0) == operator_index(s@, i as int),
        decreases len - i,
    {
        i = i + 1;
    }
    if i == len {
        proof {
            assert(s@.subrange(0, len as int) == s@);
        }
        return (s, None);
    }
    let name: &'a str = s.substring_char(0, i);
    let width: usize = if i + 1 < len && chars[i + 1] == '=' {
        2
    } else {
        1
    };
    let op: &'a str = s.substring_char(i, i + width);
    let ver: &'a str = s.substring_char(i + width, len);
    (name, Some((op, ver)))
}

/// The characters of a string, one by one.
pub fn chars_of(s: &str) -> (r: Vec<char>)
    ensures
        r@ == s@,
{
    let mut r: Vec<char> = Vec::new();
    for c in it: s.chars()
        invariant
            r@ == it.seq().subrange(0, it.index() as int),
            it.seq() == s@,
    {
        r.push(c);
    }
    proof {
        assert(r@ =~= s@);
    }
    r
}

/// Number of leading characters that make up the epoch prefix of a version,
/// the closing `:` included; 0 when the version has no epoch.
pub open spec fn epoch_prefix_len(s: Seq<char>) -> int {
    let digits = run_end(s, 0, true);
    if digits < s.len() && s[digits] == ':' {
        digits + 1
    } else {
        0
    }
}

/// The digits of the epoch; empty, which denotes 0, when there is none.
pub open spec fn epoch_of(s: Seq<char>) -> Seq<char> {
    if epoch_prefix_len(s) == 0 {
        Seq::empty()
    } else {
        s.subrange(0, epoch_prefix_len(s) - 1)
    }
}

/// Index of the last occurrence of `c` in `s`, or -1.
pub open spec fn last_index_of(s: Seq<char>, c: char) -> int
    decreases s.len(),
{
    if s.len() == 0 {
        -1
    } else if s.last() == c {
        s.len() - 1
    } else {
        last_index_of(s.drop_last(), c)
    }
}

/// A version without its epoch prefix.
pub open spec fn after_epoch(s: Seq<char>) -> Seq<char> {
    s.subrange(epoch_prefix_len(s), s.len() as int)
}

/// Whether a version carries a release, that is a `-` after its epoch.
pub open spec fn has_release(s: Seq<char>) -> bool {
    last_index_of(after_epoch(s), '-') >= 0
}

/// The version proper: what stands between the epoch and the last `-`.
pub open spec fn upstream_of(s: Seq<char>) -> Seq<char> {
    let rest = after_epoch(s);
    if has_release(s) {
        rest.subrange(0, last_index_of(rest, '-'))
    } else {
        rest
    }
}

/// The release: what follows the last `-`; empty when there is none.
pub open spec fn release_of(s: Seq<char>) -> Seq<char> {
    let rest = after_epoch(s);
    if has_release(s) {
        rest.subrange(last_index_of(rest, '-') + 1, rest.len() as int)
    } else {
        Seq::empty()
    }
}

/// How version `a` stands relative to version `b`.
pub open spec fn version_order(a: Seq<char>, b: Seq<char>) -> VersionOrder {
    let by_epoch = numeric_order(epoch_of(a), epoch_of(b));
    let by_upstream = runs_order(runs(upstream_of(a)), runs(upstream_of(b)));
    if by_epoch != VersionOrder::Same {
        by_epoch
    } else if by_upstream != VersionOrder::Same {
        by_upstream
    } else if has_release(a) && has_release(b) {
        runs_order(runs(release_of(a)), runs(release_of(b)))
    } else {
        VersionOrder::Same
    }
}

/// A version taken apart.
pub struct VersionParts {
    pub epoch: Vec<char>,
    pub upstream: Vec<char>,
    pub release: Option<Vec<char>>,
}

/// Takes a version apart into epoch, version proper and release.
pub fn split_version(s: &Vec<char>) -> (r: VersionParts)
    ensures
        r.epoch@ == epoch_of(s@),
        all_digits(r.epoch@),
        r.upstream@ == upstream_of(s@),
        r.release is Some <==> has_release(s@),
        r.release matches Some(rel) ==> rel@ == release_of(s@),
{
    let len: usize = s.len();
    let mut digits: usize = 0;
    while digits < len && digit_char(s[digits])
        invariant
            0 <= digits <= len,
            len == s@.len(),
            run_end(s@, 0, true) == run_end(s@, digits as int, true),
        decreases len - digits,
    {
        digits = digits + 1;
    }
    let start: usize = if digits < len && s[digits] == ':' {
        digits + 1
    } else {
        0
    };
    let epoch: Vec<char> = if start == 0 {
        Vec::new()
    } else {
        copy_range(s, 0, digits)
    };
    proof {
        lemma_run_end(s@, 0, true);
        assert forall|i: int| 0 <= i < epoch@.len() implies is_digit(#[trigger] epoch@[i]) by {
            assert(crate::segments::in_class(s@[i], true));
        }
    }
    let ghost rest = s@.subrange(start as int, len as int);
    let mut dash: usize = len;
    let mut found: bool = false;
    proof {
        assert(rest.subrange(0, len - start) =~= rest);
    }
    while dash > start && !found
        invariant
            start <= dash <= len,
            len == s@.len(),
            rest == s@.subrange(start as int, len as int),
            !found ==> last_index_of(rest, '-') == last_index_of(
                rest.subrange(0, dash - start),
                '-',
            ),
            found ==> dash < len && last_index_of(rest, '-') == dash - start,
        decreases dash - start + (if found { 0int } else { 1int }),
    {
        proof {
            let part = rest.subrange(0, dash - start);
            assert(part.last() == s@[dash - 1]);
            assert(part.drop_last() =~= rest.subrange(0, dash - 1 - start));
        }
        dash = dash - 1;
        if s[dash] == '-' {
            found = true;
        }
    }
    proof {
        assert(rest.subrange(0, rest.len() as int) =~= rest);
        if !found {
            assert(rest.subrange(0, 0).len() == 0);
        }
    }
    if found {
        let upstream: Vec<char> = copy_range(s, start, dash);
        let release: Vec<char> = copy_range(s, dash + 1, len);
        proof {
            assert(upstream@ =~= rest.subrange(0, dash - start));
            assert(release@ =~= rest.subrange(dash - start + 1, rest.len() as int));
        }
        VersionParts { epoch, upstream, release: Some(release) }
    } else {
        let upstream: Vec<char> = copy_range(s, start, len);
        VersionParts { epoch, upstream, release: None }
    }
}

/// Tells how version `a` stands relative to version `b`.
pub fn compare_versions(a: &str, b: &str) -> (r: VersionOrder)
    ensures
        r == version_order(a@, b@),
{
    let pa: VersionParts = split_version(&chars_of(a));
    let pb: VersionParts = split_version(&chars_of(b));
    let by_epoch: VersionOrder = compare_numeric(&pa.epoch, &pb.epoch);
    if by_epoch != VersionOrder::Same {
        return by_epoch;
    }
    let ua: Vec<Segment> = split_segments(&pa.upstream);
    let ub: Vec<Segment> = split_segments(&pb.upstream);
    let by_upstream: VersionOrder = compare_segments(&ua, &ub);
    if by_upstream != VersionOrder::Same {
        return by_upstream;
    }
    match (&pa.release, &pb.release) {
        (Some(ra), Some(rb)) => {
            let sa: Vec<Segment> = split_segments(ra);
            let sb: Vec<Segment> = split_segments(rb);
            compare_segments(&sa, &sb)
        },
        _ => VersionOrder::Same,
    }
}

} // verus!
