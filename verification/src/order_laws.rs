//! What holds of the order of versions: every version is the same as
//! itself, and exchanging the two sides of a comparison exchanges older and
//! newer.

use vstd::prelude::*;
use crate::constraint::{admits, Comparator};
use crate::order::{text_order, VersionOrder};
use crate::segments::{run_order, runs_order, Run};
use crate::version::version_order;

verus! {

/// A text is the same as itself.
pub proof fn lemma_text_order_reflexive(a: Seq<char>)
    ensures
        text_order(a, a) == VersionOrder::Same,
    decreases a.len(),
{
    if a.len() > 0 {
        lemma_text_order_reflexive(a.drop_first());
    }
}

/// Exchanging two texts exchanges older and newer.
pub proof fn lemma_text_order_flips(a: Seq<char>, b: Seq<char>)
    ensures
        text_order(b, a) == text_order(a, b).flip(),
    decreases a.len(),
{
    if a.len() > 0 && b.len() > 0 && a[0] == b[0] {
        lemma_text_order_flips(a.drop_first(), b.drop_first());
    }
}

/// A list of runs is the same as itself.
pub proof fn lemma_runs_order_reflexive(a: Seq<Run>)
    ensures
        runs_order(a, a) == VersionOrder::Same,
    decreases a.len(),
{
    if a.len() > 0 {
        lemma_text_order_reflexive(a[0].1);
        lemma_runs_order_reflexive(a.drop_first());
    }
}

/// Exchanging two lists of runs exchanges older and newer.
pub proof fn lemma_runs_order_flips(a: Seq<Run>, b: Seq<Run>)
    ensures
        runs_order(b, a) == runs_order(a, b).flip(),
    decreases a.len(),
{
    if a.len() > 0 && b.len() > 0 {
        lemma_text_order_flips(a[0].1, b[0].1);
        if run_order(a[0], b[0]) == VersionOrder::Same {
            lemma_runs_order_flips(a.drop_first(), b.drop_first());
        }
    }
}

/// Every version is the same as itself.
pub proof fn lemma_version_order_reflexive(a: Seq<char>)
    ensures
        version_order(a, a) == VersionOrder::Same,
{
    lemma_runs_order_reflexive(crate::segments::runs(crate::version::upstream_of(a)));
    lemma_runs_order_reflexive(crate::segments::runs(crate::version::release_of(a)));
}

/// Exchanging the two sides of a comparison exchanges older and newer: `a`
/// is older than `b` exactly when `b` is newer than `a`, and they are the
/// same from one side exactly when they are from the other.
pub proof fn lemma_version_order_flips(a: Seq<char>, b: Seq<char>)
    ensures
        version_order(b, a) == version_order(a, b).flip(),
{
    lemma_runs_order_flips(
        crate::segments::runs(crate::version::upstream_of(a)),
        crate::segments::runs(crate::version::upstream_of(b)),
    );
    lemma_runs_order_flips(
        crate::segments::runs(crate::version::release_of(a)),
        crate::segments::runs(crate::version::release_of(b)),
    );
}

/// The operators go together as their signs say: `<=` admits what `<` or
/// `=` admits, `>=` what `>` or `=` admits, and exactly one of `<`, `=`, `>`
/// admits any given version.
pub proof fn lemma_operators_agree(order: VersionOrder)
    ensures
        admits(Comparator::LessEqual, order) == (admits(Comparator::Less, order) || admits(
            Comparator::Equal,
            order,
        )),
        admits(Comparator::GreaterEqual, order) == (admits(Comparator::Greater, order) || admits(
            Comparator::Equal,
            order,
        )),
        admits(Comparator::Less, order) || admits(Comparator::Equal, order) || admits(
            Comparator::Greater,
            order,
        ),
        !(admits(Comparator::Less, order) && admits(Comparator::Equal, order)),
        !(admits(Comparator::Less, order) && admits(Comparator::Greater, order)),
        !(admits(Comparator::Equal, order) && admits(Comparator::Greater, order)),
{
}

} // verus!
