//! What a finished resolution has to say: the plan by package name, and the
//! requests that could not be resolved, gathered into one error.

use vstd::prelude::*;
use crate::node::{NodeState, ResolutionOutcome};
use crate::package::{texts};
use crate::resolver::Resolver;

verus! {

/// Which requests a listing gathers.
#[derive(Clone, Copy, Debug, PartialEq, Eq, Structural)]
pub enum Listing {
    /// Those that nothing meets.
    Unresolved,
    /// Those that several AUR packages provide.
    Ambiguous,
}

/// The plan of a resolution.
#[derive(Debug)]
pub struct Plan {
    /// The nodes to install, in order.
    pub order: Vec<usize>,
    /// The names of their packages, in the same order.
    pub names: Vec<String>,
}

/// The requests of a resolution that did not lead to a package.
#[derive(Debug)]
pub struct ResolutionError {
    /// The requests that nothing meets, in discovery order.
    pub unresolved: Vec<String>,
    /// The requests that several AUR packages provide, in discovery order.
    pub ambiguous: Vec<String>,
}

impl Resolver {
    /// Whether the node at `i` belongs to the listing.
    pub open spec fn listed(&self, which: Listing, i: int) -> bool {
        &&& self.nodes@[i].state matches NodeState::Done { outcome, pkg }
        &&& match which {
            Listing::Unresolved => outcome@ is Unresolved,
            Listing::Ambiguous => outcome@ is Ambiguous,
        }
    }

    /// The requests of the listed nodes from index `i` on, in discovery
    /// order.
    pub open spec fn listing_from(&self, which: Listing, i: int) -> Seq<Seq<char>>
        decreases self.nodes@.len() - i,
    {
        if i < 0 || i >= self.nodes@.len() {
            Seq::empty()
        } else if self.listed(which, i) {
            seq![self.nodes@[i].request@] + self.listing_from(which, i + 1)
        } else {
            self.listing_from(which, i + 1)
        }
    }

    /// The requests of all listed nodes, in discovery order.
    pub open spec fn listing(&self, which: Listing) -> Seq<Seq<char>> {
        self.listing_from(which, 0)
    }

    /// Tells whether the node at `i` belongs to the listing.
    fn node_listed(&self, which: Listing, i: usize) -> (r: bool)
        requires
            i < self.nodes@.len(),
        ensures
            r == self.listed(which, i as int),
    {
        match &self.nodes[i].state {
            NodeState::Done { outcome, pkg } => match outcome {
                ResolutionOutcome::Unresolved(_) => which == Listing::Unresolved,
                ResolutionOutcome::Ambiguous(_) => which == Listing::Ambiguous,
                _ => false,
            },
            _ => false,
        }
    }

    /// Gathers the requests of the listed nodes, in discovery order.
    pub fn gather(&self, which: Listing) -> (r: Vec<String>)
        ensures
            texts(r@) == self.listing(which),
    {
        let mut r: Vec<String> = Vec::new();
        let mut i: usize = 0;
        proof {
            assert(texts(r@) =~= Seq::<Seq<char>>::empty());
            assert(texts(r@) + self.listing_from(which, 0) =~= self.listing(which));
        }
        while i < self.nodes.len()
            invariant
                0 <= i <= self.nodes@.len(),
                texts(r@) + self.listing_from(which, i as int) == self.listing(which),
            decreases self.nodes@.len() - i,
        {
            if self.node_listed(which, i) {
                let ghost before = texts(r@);
                r.push(self.nodes[i].request.clone());
                proof {
                    let one = seq![self.nodes@[i as int].request@];
                    assert(texts(r@) =~= before + one);
                    assert((before + one) + self.listing_from(which, i + 1) =~= before + (one
                        + self.listing_from(which, i + 1)));
                }
            }
            i = i + 1;
        }
        proof {
            assert(texts(r@) + Seq::<Seq<char>>::empty() =~= texts(r@));
        }
        r
    }

    /// The plan of the resolution, with the names of the packages to
    /// install.
    pub fn plan_by_name(&self) -> (r: Plan)
        requires
            self.wf(),
        ensures
            self.is_plan(r.order@),
            texts(r.names@) == self.names_of(r.order@),
            crate::names::distinct_names(texts(r.names@)),
    {
        let order: Vec<usize> = self.plan();
        let mut names: Vec<String> = Vec::new();
        let mut k: usize = 0;
        while k < order.len()
            invariant
                0 <= k <= order@.len(),
                forall|j: int| 0 <= j < order@.len() ==> self.installs(#[trigger] order@[j] as int),
                names@.len() == k,
                forall|j: int|
                    0 <= j < k ==> (#[trigger] names@[j])@ == self.package_name(order@[j] as int),
            decreases order@.len() - k,
        {
            proof {
                assert(self.installs(order@[k as int] as int));
            }
            names.push(self.node_package_name(order[k]));
            k = k + 1;
        }
        proof {
            assert(texts(names@) =~= self.names_of(order@));
        }
        Plan { order, names }
    }

    /// Closes a finished resolution. With every request resolved the result
    /// is the plan. Otherwise it is one error that names every request that
    /// nothing meets and every request that is ambiguous.
    pub fn finish(&self) -> (r: Result<Plan, ResolutionError>)
        requires
            self.wf(),
            self.finished(),
        ensures
            match r {
                Ok(plan) => {
                    &&& self.listing(Listing::Unresolved).len() == 0
                    &&& self.listing(Listing::Ambiguous).len() == 0
                    &&& self.is_plan(plan.order@)
                    &&& texts(plan.names@) == self.names_of(plan.order@)
                    &&& crate::names::distinct_names(texts(plan.names@))
                },
                Err(e) => {
                    &&& texts(e.unresolved@) == self.listing(Listing::Unresolved)
                    &&& texts(e.ambiguous@) == self.listing(Listing::Ambiguous)
                    &&& e.unresolved@.len() + e.ambiguous@.len() > 0
                },
            },
    {
        let unresolved: Vec<String> = self.gather(Listing::Unresolved);
        let ambiguous: Vec<String> = self.gather(Listing::Ambiguous);
        if unresolved.len() == 0 && ambiguous.len() == 0 {
            Ok(self.plan_by_name())
        } else {
            Err(ResolutionError { unresolved, ambiguous })
        }
    }
}

} // verus!
