//! Which requests a resolved package gives rise to.

use vstd::prelude::*;
use crate::node::{DepType, OutcomeView, ResolutionOutcome};
use crate::package::{texts, Pkg, PkgView};

verus! {

/// A dependency string with the kind of edge it hangs on.
pub type Edge = (Seq<char>, DepType);

/// The strings of `v`, each tagged with `t`.
pub open spec fn tagged(v: Seq<Seq<char>>, t: DepType) -> Seq<Edge> {
    Seq::new(v.len(), |i: int| (v[i], t))
}

/// What a list of requests holds.
pub open spec fn edges_of(v: Seq<(String, DepType)>) -> Seq<Edge> {
    Seq::new(v.len(), |i: int| (v[i].0@, v[i].1))
}

/// The requests that follow from a package, by its origin: a repository
/// package asks for its run-time dependencies; an AUR package asks for its
/// run-time, build and check dependencies, in that order. Optional
/// dependencies give rise to no request.
pub open spec fn package_edges(pkg: PkgView) -> Seq<Edge> {
    match pkg {
        PkgView::Pacman { pkg } => tagged(pkg.depends, DepType::Dep),
        PkgView::Aur { pkg } => tagged(pkg.depends, DepType::Dep) + tagged(
            pkg.make_depends,
            DepType::MakeDep,
        ) + tagged(pkg.check_depends, DepType::CheckDep),
    }
}

/// The view of a package that may be absent.
pub open spec fn pkg_view(pkg: Option<Pkg>) -> Option<PkgView> {
    match pkg {
        Some(p) => Some(p@),
        None => None,
    }
}

/// The requests that follow from settling a node. Only a package that is to
/// be installed from a sync repository or from the AUR is expanded.
pub open spec fn expansion(outcome: OutcomeView, pkg: Option<PkgView>) -> Seq<Edge> {
    match (outcome, pkg) {
        (OutcomeView::ResolvedRepo, Some(p)) => package_edges(p),
        (OutcomeView::ResolvedAur, Some(p)) => package_edges(p),
        _ => Seq::empty(),
    }
}

/// No request that follows from a package is a target or optional.
pub proof fn lemma_expansion_kinds(outcome: OutcomeView, pkg: Option<PkgView>)
    ensures
        forall|k: int|
            0 <= k < expansion(outcome, pkg).len() ==> {
                &&& (#[trigger] expansion(outcome, pkg)[k]).1 != DepType::Base
                &&& expansion(outcome, pkg)[k].1 != DepType::OptDep
            },
{
}

/// Appends the strings of `from`, tagged with `t`, to `to`.
fn append_tagged(to: &mut Vec<(String, DepType)>, from: &Vec<String>, t: DepType)
    ensures
        edges_of(final(to)@) == edges_of(old(to)@) + tagged(texts(from@), t),
{
    let ghost start = edges_of(to@);
    let mut i: usize = 0;
    while i < from.len()
        invariant
            0 <= i <= from.len(),
            edges_of(to@) == start + tagged(texts(from@), t).subrange(0, i as int),
        decreases from.len() - i,
    {
        let ghost before = edges_of(to@);
        to.push((from[i].clone(), t));
        proof {
            let all = tagged(texts(from@), t);
            assert(edges_of(to@) =~= before.push((from@[i as int]@, t)));
            assert(all.subrange(0, i + 1) =~= all.subrange(0, i as int).push(all[i as int]));
            assert(start + all.subrange(0, i + 1) =~= (start + all.subrange(0, i as int)).push(
                all[i as int],
            ));
        }
        i = i + 1;
    }
    proof {
        let all = tagged(texts(from@), t);
        assert(all.subrange(0, from@.len() as int) =~= all);
    }
}

/// The requests that follow from a package.
pub fn package_requests(pkg: &Pkg) -> (r: Vec<(String, DepType)>)
    ensures
        edges_of(r@) == package_edges(pkg@),
{
    let mut r: Vec<(String, DepType)> = Vec::new();
    proof {
        assert(edges_of(r@) =~= Seq::<Edge>::empty());
    }
    match pkg {
        Pkg::Pacman { pkg } => {
            append_tagged(&mut r, &pkg.depends, DepType::Dep);
            proof {
                assert(Seq::<Edge>::empty() + tagged(texts(pkg.depends@), DepType::Dep) =~= tagged(
                    texts(pkg.depends@),
                    DepType::Dep,
                ));
            }
        },
        Pkg::Aur { pkg } => {
            append_tagged(&mut r, &pkg.depends, DepType::Dep);
            append_tagged(&mut r, &pkg.make_depends, DepType::MakeDep);
            append_tagged(&mut r, &pkg.check_depends, DepType::CheckDep);
            proof {
                assert(Seq::<Edge>::empty() + tagged(texts(pkg.depends@), DepType::Dep) =~= tagged(
                    texts(pkg.depends@),
                    DepType::Dep,
                ));
            }
        },
    }
    r
}

/// The requests that follow from settling a node with the given outcome and
/// package.
pub fn expansion_list(outcome: &ResolutionOutcome, pkg: &Option<Pkg>) -> (r: Vec<
    (String, DepType),
>)
    ensures
        edges_of(r@) == expansion(outcome@, pkg_view(*pkg)),
{
    let expand: bool = match outcome {
        ResolutionOutcome::ResolvedRepo => true,
        ResolutionOutcome::ResolvedAur => true,
        _ => false,
    };
    if expand {
        match pkg {
            Some(p) => {
                return package_requests(p);
            },
            None => {},
        }
    }
    let r: Vec<(String, DepType)> = Vec::new();
    proof {
        assert(edges_of(r@) =~= Seq::<Edge>::empty());
    }
    r
}

} // verus!
