//! The dependency forest of a finished resolution: one tree for each target,
//! each node owning its children.

use vstd::prelude::*;
use crate::expand::pkg_view;
use crate::node::{DepType, NodeState, ResolutionOutcome};
use crate::package::{Pkg};
use crate::resolver::Resolver;

verus! {

/// A node of the dependency forest.
#[derive(Debug)]
pub struct DepTree {
    /// The dependency string that was asked for.
    pub request: String,
    /// The package that meets the request, where one was found.
    pub pkg: Option<Pkg>,
    pub dep_type: DepType,
    pub outcome: ResolutionOutcome,
    /// Whether the name was met earlier in the run. Such a node carries the
    /// outcome and the package of the earlier one and has no children: this
    /// is where a dependency cycle is cut.
    pub shared: bool,
    pub leaves: Vec<DepTree>,
}

impl Resolver {
    /// Whether `tree` is the tree below the node at `i`.
    pub open spec fn mirrored_by(&self, tree: DepTree, i: int) -> bool
        decreases self.nodes@.len() - i,
    {
        let n = self.nodes@[i];
        &&& 0 <= i < self.nodes@.len()
        &&& tree.request@ == n.request@
        &&& tree.dep_type == n.dep_type
        &&& match n.state {
            NodeState::Waiting => false,
            NodeState::Shared(j) => {
                &&& tree.shared
                &&& tree.leaves@.len() == 0
                &&& self.nodes@[j as int].state matches NodeState::Done { outcome, pkg }
                &&& tree.outcome@ == outcome@
                &&& pkg_view(tree.pkg) == pkg_view(pkg)
            },
            NodeState::Done { outcome, pkg } => {
                &&& !tree.shared
                &&& tree.outcome@ == outcome@
                &&& pkg_view(tree.pkg) == pkg_view(pkg)
                &&& tree.leaves@.len() == n.end_child - n.first_child
                &&& forall|k: int|
                    0 <= k < tree.leaves@.len() && i < n.first_child + k
                        < self.nodes@.len() ==> self.mirrored_by(
                        #[trigger] tree.leaves@[k],
                        n.first_child + k,
                    )
            },
        }
    }
}

/// A copy of an optional package.
pub fn duplicate_pkg(pkg: &Option<Pkg>) -> (r: Option<Pkg>)
    ensures
        pkg_view(r) == pkg_view(*pkg),
{
    match pkg {
        Some(p) => Some(p.duplicate()),
        None => None,
    }
}

impl DepTree {
    /// Builds the tree below the node at `i` of a finished resolution.
    pub fn build(ctx: &Resolver, i: usize) -> (tree: DepTree)
        requires
            ctx.wf(),
            ctx.finished(),
            i < ctx.nodes@.len(),
        ensures
            ctx.mirrored_by(tree, i as int),
        decreases ctx.nodes@.len() - i,
    {
        proof {
            assert(ctx.node_wf(i as int));
        }
        let node = &ctx.nodes[i];
        match &node.state {
            NodeState::Done { outcome, pkg } => {
                let mut leaves: Vec<DepTree> = Vec::new();
                let mut c: usize = node.first_child;
                while c < node.end_child
                    invariant
                        ctx.wf(),
                        ctx.finished(),
                        i < ctx.nodes@.len(),
                        node == ctx.nodes@[i as int],
                        i < node.first_child <= c <= node.end_child <= ctx.nodes@.len(),
                        leaves@.len() == c - node.first_child,
                        forall|k: int|
                            0 <= k < leaves@.len() ==> ctx.mirrored_by(
                                #[trigger] leaves@[k],
                                node.first_child + k,
                            ),
                    decreases node.end_child - c,
                {
                    let leaf: DepTree = DepTree::build(ctx, c);
                    leaves.push(leaf);
                    c = c + 1;
                }
                DepTree {
                    request: node.request.clone(),
                    pkg: duplicate_pkg(pkg),
                    dep_type: node.dep_type,
                    outcome: outcome.duplicate(),
                    shared: false,
                    leaves,
                }
            },
            NodeState::Shared(j) => {
                proof {
                    crate::names::lemma_position(
                        crate::package::texts(ctx.names@),
                        node.name@,
                    );
                    assert(ctx.node_wf(*j as int));
                }
                match &ctx.nodes[*j].state {
                    NodeState::Done { outcome, pkg } => DepTree {
                        request: node.request.clone(),
                        pkg: duplicate_pkg(pkg),
                        dep_type: node.dep_type,
                        outcome: outcome.duplicate(),
                        shared: true,
                        leaves: Vec::new(),
                    },
                    _ => {
                        proof {
                            assert(false);
                        }
                        vstd::pervasive::unreached()
                    },
                }
            },
            NodeState::Waiting => {
                proof {
                    assert(false);
                }
                vstd::pervasive::unreached()
            },
        }
    }

    /// Builds the forest of a finished resolution: the tree of each target,
    /// in the order of the targets.
    pub fn build_all(ctx: &Resolver) -> (forest: Vec<DepTree>)
        requires
            ctx.wf(),
            ctx.finished(),
        ensures
            forest@.len() == ctx.roots,
            forall|i: int| 0 <= i < forest@.len() ==> ctx.mirrored_by(#[trigger] forest@[i], i),
    {
        let mut forest: Vec<DepTree> = Vec::new();
        let mut i: usize = 0;
        while i < ctx.roots
            invariant
                ctx.wf(),
                ctx.finished(),
                0 <= i <= ctx.roots,
                forest@.len() == i,
                forall|k: int| 0 <= k < forest@.len() ==> ctx.mirrored_by(#[trigger] forest@[k], k),
            decreases ctx.roots - i,
        {
            let tree: DepTree = DepTree::build(ctx, i);
            forest.push(tree);
            i = i + 1;
        }
        forest
    }
}

} // verus!
