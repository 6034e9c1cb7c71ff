//! The nodes of a resolution: what was asked for, how the request came
//! about, and what became of it.

use vstd::prelude::*;
use crate::package::{clone_strings, texts, Pkg, PkgView};
use crate::version::{dependency_name, parse_dependency};

verus! {

/// How a node came into the tree.
#[derive(Clone, Copy, Debug, PartialEq, Eq, Structural)]
pub enum DepType {
    /// A target of the run.
    Base,
    /// Needed at run time.
    Dep,
    /// Needed to build.
    MakeDep,
    /// Optional. Optional dependencies are listed with the package that
    /// names them and are not resolved.
    OptDep,
    /// Needed to run the tests while building.
    CheckDep,
}

/// Why a dependency could not be resolved.
#[derive(Clone, Copy, Debug, PartialEq, Eq, Structural)]
pub enum UnresolvedReason {
    /// No source has a package for it.
    NotFound,
    /// A lookup for it failed.
    NetworkError,
    /// The dependency string is malformed.
    InvalidSpec,
}

/// What became of a request.
#[derive(Debug)]
pub enum ResolutionOutcome {
    /// An installed package meets it.
    AlreadySatisfiedLocally,
    /// A package of a sync repository meets it.
    ResolvedRepo,
    /// A package of the AUR meets it.
    ResolvedAur,
    /// Nothing meets it.
    Unresolved(UnresolvedReason),
    /// Several AUR packages provide it, and none is picked.
    Ambiguous(Vec<String>),
}

pub enum OutcomeView {
    AlreadySatisfiedLocally,
    ResolvedRepo,
    ResolvedAur,
    Unresolved(UnresolvedReason),
    Ambiguous(Seq<Seq<char>>),
}

impl View for ResolutionOutcome {
    type V = OutcomeView;

    open spec fn view(&self) -> OutcomeView {
        match self {
            ResolutionOutcome::AlreadySatisfiedLocally => OutcomeView::AlreadySatisfiedLocally,
            ResolutionOutcome::ResolvedRepo => OutcomeView::ResolvedRepo,
            ResolutionOutcome::ResolvedAur => OutcomeView::ResolvedAur,
            ResolutionOutcome::Unresolved(r) => OutcomeView::Unresolved(*r),
            ResolutionOutcome::Ambiguous(c) => OutcomeView::Ambiguous(texts(c@)),
        }
    }
}

impl ResolutionOutcome {
    /// A copy of this outcome.
    pub fn duplicate(&self) -> (r: ResolutionOutcome)
        ensures
            r@ == self@,
    {
        match self {
            ResolutionOutcome::AlreadySatisfiedLocally => ResolutionOutcome::AlreadySatisfiedLocally,
            ResolutionOutcome::ResolvedRepo => ResolutionOutcome::ResolvedRepo,
            ResolutionOutcome::ResolvedAur => ResolutionOutcome::ResolvedAur,
            ResolutionOutcome::Unresolved(r) => ResolutionOutcome::Unresolved(*r),
            ResolutionOutcome::Ambiguous(c) => ResolutionOutcome::Ambiguous(clone_strings(c)),
        }
    }
}

/// How far a node has come.
#[derive(Debug)]
pub enum NodeState {
    /// Not looked at yet.
    Waiting,
    /// The name was met before: the node refers to the node at this index,
    /// which holds the outcome, and is not expanded again.
    Shared(usize),
    /// Resolved, with the package where one was found.
    Done { outcome: ResolutionOutcome, pkg: Option<Pkg> },
}

pub enum StateView {
    Waiting,
    Shared(usize),
    Done { outcome: OutcomeView, pkg: Option<PkgView> },
}

impl View for NodeState {
    type V = StateView;

    open spec fn view(&self) -> StateView {
        match self {
            NodeState::Waiting => StateView::Waiting,
            NodeState::Shared(j) => StateView::Shared(*j),
            NodeState::Done { outcome, pkg } => StateView::Done {
                outcome: outcome@,
                pkg: match pkg {
                    Some(p) => Some(p@),
                    None => None,
                },
            },
        }
    }
}

/// One request in the arena of a resolution.
#[derive(Debug)]
pub struct Node {
    /// The dependency string that was asked for.
    pub request: String,
    /// The package name that the dependency string is about.
    pub name: String,
    pub dep_type: DepType,
    /// Index of the node whose package asked for this one; `None` for a
    /// target.
    pub parent: Option<usize>,
    pub state: NodeState,
    /// The node's children stand at the indices from `first_child` up to
    /// `end_child`, the latter excluded.
    pub first_child: usize,
    pub end_child: usize,
}

pub struct NodeView {
    pub request: Seq<char>,
    pub name: Seq<char>,
    pub dep_type: DepType,
    pub parent: Option<usize>,
    pub state: StateView,
    pub first_child: usize,
    pub end_child: usize,
}

impl View for Node {
    type V = NodeView;

    open spec fn view(&self) -> NodeView {
        NodeView {
            request: self.request@,
            name: self.name@,
            dep_type: self.dep_type,
            parent: self.parent,
            state: self.state@,
            first_child: self.first_child,
            end_child: self.end_child,
        }
    }
}

impl Node {
    /// A node that nothing is known of yet.
    pub fn waiting(spec: &String, dep_type: DepType, parent: Option<usize>) -> (r: Node)
        ensures
            r.request@ == spec@,
            r.name@ == dependency_name(spec@),
            r.dep_type == dep_type,
            r.parent == parent,
            r.state is Waiting,
            r.first_child == 0,
            r.end_child == 0,
    {
        let (name, _) = parse_dependency(spec);
        Node {
            request: spec.clone(),
            name: name.to_owned(),
            dep_type,
            parent,
            state: NodeState::Waiting,
            first_child: 0,
            end_child: 0,
        }
    }
}

} // verus!
