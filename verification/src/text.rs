//! Small tools on text: finding a piece of text in another, and cutting a
//! text into fields.

use vstd::prelude::*;
use vstd::string::StrSliceExecFns;
use crate::version::chars_of;

verus! {

/// Whether `needle` stands in `hay` at index `at`.
pub open spec fn occurs_at(hay: Seq<char>, needle: Seq<char>, at: int) -> bool {
    0 <= at && at + needle.len() <= hay.len() && hay.subrange(at, at + needle.len()) == needle
}

/// Whether `needle` stands somewhere in `hay`.
pub open spec fn contains_seq(hay: Seq<char>, needle: Seq<char>) -> bool {
    exists|at: int| occurs_at(hay, needle, at)
}

/// Tells whether `needle` stands in `hay` at index `at`.
fn matches_at(hay: &Vec<char>, needle: &Vec<char>, at: usize) -> (r: bool)
    requires
        at + needle@.len() <= hay@.len(),
    ensures
        r == occurs_at(hay@, needle@, at as int),
{
    let mut k: usize = 0;
    proof {
        assert(hay@.len() == hay.len());
    }
    while k < needle.len()
        invariant
            0 <= k <= needle@.len(),
            at + needle@.len() <= hay@.len(),
            hay@.len() <= usize::MAX,
            forall|j: int| 0 <= j < k ==> hay@[at + j] == needle@[j],
        decreases needle@.len() - k,
    {
        if hay[at + k] != needle[k] {
            proof {
                assert(hay@.subrange(at as int, at + needle@.len())[k as int] == hay@[at + k]);
            }
            return false;
        }
        k = k + 1;
    }
    proof {
        assert(hay@.subrange(at as int, at + needle@.len()) =~= needle@);
    }
    true
}

/// Tells whether `needle` stands somewhere in `hay`.
pub fn contains_text(hay: &str, needle: &str) -> (r: bool)
    ensures
        r == contains_seq(hay@, needle@),
{
    let h: Vec<char> = chars_of(hay);
    let n: Vec<char> = chars_of(needle);
    if n.len() > h.len() {
        return false;
    }
    let last: usize = h.len() - n.len();
    let mut at: usize = 0;
    while at < last
        invariant
            0 <= at <= last,
            last == h@.len() - n@.len(),
            h@ == hay@,
            n@ == needle@,
            forall|j: int| 0 <= j < at ==> !occurs_at(h@, n@, j),
        decreases last - at,
    {
        if matches_at(&h, &n, at) {
            return true;
        }
        at = at + 1;
    }
    matches_at(&h, &n, last)
}

/// End of the field that starts at `from`: the first index at or after
/// `from` that holds `sep`, or the length of `s`.
pub open spec fn field_end(s: Seq<char>, sep: char, from: int) -> int
    decreases s.len() - from,
{
    if 0 <= from < s.len() && s[from] != sep {
        field_end(s, sep, from + 1)
    } else {
        from
    }
}

/// The fields of `s` from index `from` on: the maximal stretches of
/// characters other than `sep`. Empty fields do not count.
pub open spec fn fields_from(s: Seq<char>, sep: char, from: int) -> Seq<Seq<char>>
    decreases s.len() - from,
{
    if from < 0 || from >= s.len() {
        Seq::empty()
    } else if s[from] == sep {
        fields_from(s, sep, from + 1)
    } else {
        let end = field_end(s, sep, from + 1);
        // The end of a field lies behind its start and within the text; the
        // test is there for the recursion to be seen to end.
        if from < end <= s.len() {
            seq![s.subrange(from, end)] + fields_from(s, sep, end)
        } else {
            Seq::empty()
        }
    }
}

/// The fields of `s`.
pub open spec fn fields(s: Seq<char>, sep: char) -> Seq<Seq<char>> {
    fields_from(s, sep, 0)
}

/// The non-empty lines of `s`.
pub open spec fn lines(s: Seq<char>) -> Seq<Seq<char>> {
    fields(s, '\n')
}

/// Cuts `text` into its fields.
pub fn split_on(text: &str, sep: char) -> (r: Vec<String>)
    ensures
        crate::package::texts(r@) == fields(text@, sep),
{
    let chars: Vec<char> = chars_of(text);
    let len: usize = chars.len();
    let mut r: Vec<String> = Vec::new();
    let mut i: usize = 0;
    proof {
        assert(crate::package::texts(r@) =~= Seq::<Seq<char>>::empty());
        assert(crate::package::texts(r@) + fields_from(text@, sep, 0) =~= fields(text@, sep));
    }
    while i < len
        invariant
            0 <= i <= len,
            len == text@.len(),
            chars@ == text@,
            crate::package::texts(r@) + fields_from(text@, sep, i as int) == fields(text@, sep),
        decreases len - i,
    {
        if chars[i] == sep {
            i = i + 1;
        } else {
            let mut end: usize = i + 1;
            while end < len && chars[end] != sep
                invariant
                    i < end <= len,
                    len == text@.len(),
                    chars@ == text@,
                    field_end(text@, sep, i + 1) == field_end(text@, sep, end as int),
                decreases len - end,
            {
                end = end + 1;
            }
            let ghost before = crate::package::texts(r@);
            r.push(text.substring_char(i, end).to_owned());
            proof {
                let one = seq![text@.subrange(i as int, end as int)];
                assert(crate::package::texts(r@) =~= before + one);
                assert((before + one) + fields_from(text@, sep, end as int) =~= before + (one
                    + fields_from(text@, sep, end as int)));
            }
            i = end;
        }
    }
    proof {
        assert(crate::package::texts(r@) + Seq::<Seq<char>>::empty() =~= crate::package::texts(
            r@,
        ));
    }
    r
}

} // verus!
