//! Looking a name up in a list of names.

use vstd::prelude::*;
use crate::package::texts;

verus! {

/// Index of the first entry of `names` at or after `from` that equals
/// `name`, or -1 when there is none.
pub open spec fn position_from(names: Seq<Seq<char>>, name: Seq<char>, from: int) -> int
    decreases names.len() - from,
{
    if from < 0 || from >= names.len() {
        -1
    } else if names[from] == name {
        from
    } else {
        position_from(names, name, from + 1)
    }
}

/// Index of the first entry of `names` that equals `name`, or -1.
pub open spec fn position(names: Seq<Seq<char>>, name: Seq<char>) -> int {
    position_from(names, name, 0)
}

/// Whether `name` occurs in `names`.
pub open spec fn has_name(names: Seq<Seq<char>>, name: Seq<char>) -> bool {
    position(names, name) >= 0
}

/// No name occurs twice.
pub open spec fn distinct_names(names: Seq<Seq<char>>) -> bool {
    forall|i: int, j: int| 0 <= i < j < names.len() ==> names[i] != names[j]
}

pub proof fn lemma_position_from(names: Seq<Seq<char>>, name: Seq<char>, from: int)
    requires
        0 <= from <= names.len(),
    ensures
        position_from(names, name, from) == -1 || from <= position_from(names, name, from)
            < names.len(),
        position_from(names, name, from) >= 0 ==> names[position_from(names, name, from)] == name,
        position_from(names, name, from) >= 0 ==> forall|j: int|
            from <= j < position_from(names, name, from) ==> #[trigger] names[j] != name,
        position_from(names, name, from) == -1 ==> forall|j: int|
            from <= j < names.len() ==> #[trigger] names[j] != name,
    decreases names.len() - from,
{
    if from < names.len() && names[from] != name {
        lemma_position_from(names, name, from + 1);
    }
}

/// `position` finds the first occurrence, and finds none only when there is
/// none.
pub proof fn lemma_position(names: Seq<Seq<char>>, name: Seq<char>)
    ensures
        -1 <= position(names, name) < names.len(),
        position(names, name) >= 0 ==> names[position(names, name)] == name,
        position(names, name) >= 0 ==> forall|j: int|
            0 <= j < position(names, name) ==> #[trigger] names[j] != name,
        position(names, name) == -1 ==> forall|j: int|
            0 <= j < names.len() ==> #[trigger] names[j] != name,
{
    lemma_position_from(names, name, 0);
}

/// Appending a name leaves the position of every name that was there, and
/// gives the appended name the last index if it was not there before.
pub proof fn lemma_position_push(names: Seq<Seq<char>>, added: Seq<char>, name: Seq<char>)
    ensures
        position(names, name) >= 0 ==> position(names.push(added), name) == position(names, name),
        position(names, name) == -1 && name == added ==> position(names.push(added), name)
            == names.len(),
        position(names, name) == -1 && name != added ==> position(names.push(added), name) == -1,
{
    let longer = names.push(added);
    lemma_position(names, name);
    lemma_position(longer, name);
    let p = position(names, name);
    let q = position(longer, name);
    if p >= 0 {
        assert(longer[p] == name);
        if q > p {
        } else if q < p {
            assert(names[q] == longer[q]);
        }
    } else {
        if q >= 0 && q < names.len() {
            assert(names[q] == longer[q]);
        }
        if name == added {
            assert(longer[names.len() as int] == name);
        }
    }
}

/// Finds the first occurrence of `name` in `names`.
pub fn find_name(names: &Vec<String>, name: &String) -> (r: Option<usize>)
    ensures
        match r {
            Some(i) => position(texts(names@), name@) == i,
            None => position(texts(names@), name@) == -1,
        },
{
    let mut i: usize = 0;
    while i < names.len()
        invariant
            0 <= i <= names.len(),
            position(texts(names@), name@) == position_from(texts(names@), name@, i as int),
        decreases names.len() - i,
    {
        if names[i] == *name {
            return Some(i);
        }
        i = i + 1;
    }
    None
}

/// The names from index `from` on that are among `found`, if `wanted`, or
/// that are not, if not `wanted`; in their order.
pub open spec fn chosen(names: Seq<Seq<char>>, found: Seq<Seq<char>>, wanted: bool, from: int) -> Seq<
    Seq<char>,
>
    decreases names.len() - from,
{
    if from < 0 || from >= names.len() {
        Seq::empty()
    } else if has_name(found, names[from]) == wanted {
        seq![names[from]] + chosen(names, found, wanted, from + 1)
    } else {
        chosen(names, found, wanted, from + 1)
    }
}

/// Picks the names that are among `found`, if `wanted`, or those that are
/// not, if not `wanted`; in their order.
pub fn pick_names(pkgs: &Vec<String>, found: &Vec<String>, wanted: bool) -> (r: Vec<String>)
    ensures
        texts(r@) == chosen(texts(pkgs@), texts(found@), wanted, 0),
{
    let ghost names = texts(pkgs@);
    let ghost hits = texts(found@);
    let mut r: Vec<String> = Vec::new();
    let mut i: usize = 0;
    proof {
        assert(texts(r@) =~= Seq::<Seq<char>>::empty());
        assert(texts(r@) + chosen(names, hits, wanted, 0) =~= chosen(names, hits, wanted, 0));
    }
    while i < pkgs.len()
        invariant
            0 <= i <= pkgs@.len(),
            names == texts(pkgs@),
            hits == texts(found@),
            texts(r@) + chosen(names, hits, wanted, i as int) == chosen(names, hits, wanted, 0),
        decreases pkgs@.len() - i,
    {
        proof {
            assert(names[i as int] == pkgs@[i as int]@);
        }
        if find_name(found, &pkgs[i]).is_some() == wanted {
            let ghost before = texts(r@);
            r.push(pkgs[i].clone());
            proof {
                let one = seq![names[i as int]];
                assert(texts(r@) =~= before + one);
                assert((before + one) + chosen(names, hits, wanted, i + 1) =~= before + (one
                    + chosen(names, hits, wanted, i + 1)));
            }
        }
        i = i + 1;
    }
    proof {
        assert(texts(r@) + Seq::<Seq<char>>::empty() =~= texts(r@));
    }
    r
}

} // verus!
