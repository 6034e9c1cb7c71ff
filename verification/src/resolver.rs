//! The resolution engine as a machine that is driven from outside: it names
//! the next question to put to a database or to the AUR, takes the answer,
//! and records what follows from it. The machine never performs a lookup
//! itself.
//!
//! Requests are kept in an arena in the order in which they were
//! discovered. The targets come first; the dependencies of a package are
//! appended when the package is resolved, so the arena is walked breadth
//! first and a node always stands before its children.

use vstd::prelude::*;
use crate::cache::AurCache;
use crate::depend::parsed_dependency;
use crate::names::{lemma_position, lemma_position_push, position};
use crate::expand::{
    edges_of, expansion, expansion_list, lemma_expansion_kinds, pkg_view, Edge,
};
use crate::node::{DepType, Node, NodeState, OutcomeView, ResolutionOutcome};
use crate::version::dependency_name;
use crate::package::{texts, Pkg, PkgView};

verus! {

/// Which question is next for the node under the cursor.
#[derive(Debug)]
pub enum Stage {
    /// Nothing was asked yet.
    Start,
    /// Ask the local database.
    Local,
    /// Ask the sync repository of this index.
    Sync(usize),
    /// Ask the AUR for the record of the node's name.
    AurInfo,
    /// Ask the AUR which packages provide the node's name.
    AurProvides,
    /// Ask the AUR for the record of the only provider.
    AurProvider(String),
}

pub enum StageView {
    Start,
    Local,
    Sync(usize),
    AurInfo,
    AurProvides,
    AurProvider(Seq<char>),
}

impl View for Stage {
    type V = StageView;

    open spec fn view(&self) -> StageView {
        match self {
            Stage::Start => StageView::Start,
            Stage::Local => StageView::Local,
            Stage::Sync(i) => StageView::Sync(*i),
            Stage::AurInfo => StageView::AurInfo,
            Stage::AurProvides => StageView::AurProvides,
            Stage::AurProvider(p) => StageView::AurProvider(p@),
        }
    }
}

/// The state of one run.
#[derive(Debug)]
pub struct Resolver {
    /// The requests, in discovery order.
    pub nodes: Vec<Node>,
    /// The name of each node, in the same order.
    pub names: Vec<String>,
    /// Index of the first node that is not settled yet.
    pub cursor: usize,
    pub stage: Stage,
    /// Whether a question was handed out and its answer is due.
    pub awaiting: bool,
    /// How many targets there are; they are the first nodes of the arena.
    pub roots: usize,
    /// How many sync repositories there are, in priority order.
    pub sync_count: usize,
    pub cache: AurCache,
}

/// The mathematical view of the state of a run.
pub struct ResolverView {
    pub nodes: Seq<crate::node::NodeView>,
    pub cursor: usize,
    pub stage: StageView,
    pub awaiting: bool,
    pub roots: usize,
    pub sync_count: usize,
    pub cache: crate::cache::CacheView,
}

/// What a list of nodes holds.
pub open spec fn arena_of(v: Seq<Node>) -> Seq<crate::node::NodeView> {
    Seq::new(v.len(), |i: int| v[i]@)
}

impl View for Resolver {
    type V = ResolverView;

    open spec fn view(&self) -> ResolverView {
        ResolverView {
            nodes: arena_of(self.nodes@),
            cursor: self.cursor,
            stage: self.stage@,
            awaiting: self.awaiting,
            roots: self.roots,
            sync_count: self.sync_count,
            cache: self.cache@,
        }
    }
}

/// Whether `r` is the machine that `Resolver::new` makes for `targets` and
/// `sync_count`.
pub open spec fn fresh(r: Resolver, targets: Seq<Seq<char>>, sync_count: usize) -> bool {
    &&& r.wf()
    &&& r.cursor == 0
    &&& r.stage is Start
    &&& !r.awaiting
    &&& r.sync_count == sync_count
    &&& r.roots == targets.len()
    &&& r.cache@ == Map::<Seq<char>, crate::cache::EntryView>::empty()
    &&& r.nodes@.len() == targets.len()
    &&& forall|i: int|
        0 <= i < targets.len() ==> {
            &&& (#[trigger] r.nodes@[i]).request@ == targets[i]
            &&& r.nodes@[i].dep_type == DepType::Base
            &&& r.nodes@[i].parent is None
            &&& r.nodes@[i].state is Waiting
            &&& r.nodes@[i].first_child == 0
            &&& r.nodes@[i].end_child == 0
        }
}

/// The outcome goes with a package exactly when something was found, and the
/// package is of the origin that the outcome names.
pub open spec fn outcome_fits(outcome: OutcomeView, pkg: Option<PkgView>) -> bool {
    match outcome {
        OutcomeView::AlreadySatisfiedLocally => pkg matches Some(p) && p is Pacman,
        OutcomeView::ResolvedRepo => pkg matches Some(p) && p is Pacman,
        OutcomeView::ResolvedAur => pkg matches Some(p) && p is Aur,
        OutcomeView::Unresolved(_) => pkg is None,
        OutcomeView::Ambiguous(_) => pkg is None,
    }
}

impl Resolver {
    /// What holds of the node at index `i`.
    pub open spec fn node_wf(&self, i: int) -> bool {
        let n = self.nodes@[i];
        &&& self.names@[i]@ == n.name@
        &&& n.name@ == dependency_name(n.request@)
        &&& n.dep_type != DepType::OptDep
        &&& n.first_child <= n.end_child <= self.nodes@.len()
        &&& match n.parent {
            Some(p) => {
                &&& p < i
                &&& self.roots <= i
                &&& p < self.cursor
                &&& n.dep_type != DepType::Base
                &&& self.nodes@[p as int].first_child <= i < self.nodes@[p as int].end_child
            },
            None => n.dep_type == DepType::Base && i < self.roots,
        }
        &&& match n.state {
            NodeState::Waiting => i >= self.cursor && n.first_child == n.end_child,
            NodeState::Shared(j) => {
                &&& i < self.cursor
                &&& j < i
                &&& j == position(texts(self.names@), n.name@)
                &&& n.first_child == n.end_child
            },
            NodeState::Done { outcome, pkg } => {
                &&& i < self.cursor
                &&& position(texts(self.names@), n.name@) == i
                &&& outcome_fits(outcome@, pkg_view(pkg))
                &&& i < n.first_child
            },
        }
    }

    /// The node under the cursor.
    pub open spec fn focus(&self) -> Node {
        self.nodes@[self.cursor as int]
    }

    /// The dependency string that the node under the cursor stands for.
    pub open spec fn focus_text(&self) -> Seq<char> {
        self.focus().request@
    }

    /// What holds of the question that is next: once a question has been
    /// chosen for the node under the cursor, that node is the first of its
    /// name and its dependency string is well formed.
    pub open spec fn stage_wf(&self) -> bool {
        &&& self.awaiting ==> !(self.stage is Start)
        &&& !(self.stage is Start) ==> {
            &&& self.cursor < self.nodes@.len()
            &&& position(texts(self.names@), self.focus().name@) == self.cursor
            &&& parsed_dependency(self.focus_text()) is Ok
        }
        &&& self.stage matches Stage::Sync(r) ==> r < self.sync_count
    }

    /// The invariant of the machine.
    pub open spec fn wf(&self) -> bool {
        &&& self.names@.len() == self.nodes@.len()
        &&& self.cursor <= self.nodes@.len()
        &&& self.roots <= self.nodes@.len()
        &&& self.cache.wf()
        &&& self.stage_wf()
        &&& forall|i: int| 0 <= i < self.nodes@.len() ==> self.node_wf(i)
        &&& forall|i: int, c: int|
            #![trigger self.nodes@[i], self.nodes@[c]]
            0 <= i < self.nodes@.len() && self.nodes@[i].first_child <= c
                < self.nodes@[i].end_child ==> self.nodes@[c].parent == Some(i as usize)
    }

    /// Whether every request is settled.
    pub open spec fn finished(&self) -> bool {
        self.cursor == self.nodes@.len()
    }

    /// Appends a request that nothing is known of yet. With a parent, the
    /// request becomes the parent's last child.
    fn push_waiting(&mut self, spec: &String, dep_type: DepType, parent: Option<usize>)
        requires
            old(self).wf(),
            old(self).nodes@.len() < usize::MAX,
            match parent {
                Some(p) => {
                    &&& p < old(self).cursor
                    &&& dep_type != DepType::Base
                    &&& dep_type != DepType::OptDep
                    &&& old(self).nodes@[p as int].state is Done
                    &&& old(self).nodes@[p as int].end_child == old(self).nodes@.len()
                },
                None => dep_type == DepType::Base && old(self).roots == old(self).nodes@.len(),
            },
        ensures
            final(self).wf(),
            final(self).nodes@.len() == old(self).nodes@.len() + 1,
            final(self).roots == old(self).roots + (if parent is None { 1int } else { 0int }),
            final(self).cursor == old(self).cursor,
            final(self).stage == old(self).stage,
            final(self).awaiting == old(self).awaiting,
            final(self).sync_count == old(self).sync_count,
            final(self).cache == old(self).cache,
            final(self).nodes@.last().request@ == spec@,
            final(self).nodes@.last().dep_type == dep_type,
            final(self).nodes@.last().parent == parent,
            final(self).nodes@.last().state is Waiting,
            final(self).nodes@.last().first_child == 0,
            final(self).nodes@.last().end_child == 0,
            forall|k: int|
                0 <= k < old(self).nodes@.len() && Some(k as usize) != parent
                    ==> final(self).nodes@[k] == old(self).nodes@[k],
            parent matches Some(p) ==> {
                &&& final(self).nodes@[p as int].end_child == old(self).nodes@.len() + 1
                &&& final(self).nodes@[p as int].first_child == old(self).nodes@[p as int].first_child
                &&& final(self).nodes@[p as int].state == old(self).nodes@[p as int].state
                &&& final(self).nodes@[p as int].request == old(self).nodes@[p as int].request
                &&& final(self).nodes@[p as int].name == old(self).nodes@[p as int].name
                &&& final(self).nodes@[p as int].dep_type == old(self).nodes@[p as int].dep_type
                &&& final(self).nodes@[p as int].parent == old(self).nodes@[p as int].parent
            },
    {
        let node: Node = Node::waiting(spec, dep_type, parent);
        let ghost before = texts(self.names@);
        let ghost old_nodes = self.nodes@;
        let ghost added = node.name@;
        let len: usize = self.nodes.len();
        self.names.push(node.name.clone());
        self.nodes.push(node);
        match parent {
            Some(p) => {
                self.nodes[p].end_child = len + 1;
            },
            None => {
                self.roots = len + 1;
            },
        }
        proof {
            assert(texts(self.names@) =~= before.push(added));
            assert forall|i: int| 0 <= i < self.nodes@.len() implies self.node_wf(i) by {
                if i < len {
                    assert(old(self).node_wf(i));
                    let n = old_nodes[i];
                    lemma_position_push(before, added, n.name@);
                    lemma_position(before, n.name@);
                    assert(before[i] == n.name@);
                    match n.parent {
                        Some(q) => {
                            assert(old(self).node_wf(q as int));
                        },
                        None => {},
                    }
                } else {
                    match parent {
                        Some(q) => {
                            assert(old(self).node_wf(q as int));
                        },
                        None => {},
                    }
                }
            }
            if !(self.stage is Start) {
                let cn = old_nodes[self.cursor as int];
                assert(old(self).node_wf(self.cursor as int));
                lemma_position_push(before, added, cn.name@);
            }
            assert forall|i: int, c: int|
                #![trigger self.nodes@[i], self.nodes@[c]]
                0 <= i < self.nodes@.len() && self.nodes@[i].first_child <= c
                    < self.nodes@[i].end_child implies self.nodes@[c].parent == Some(
                    i as usize,
                ) by {
                if i < len {
                    assert(old(self).node_wf(i));
                    if c < len {
                        assert(old_nodes[i].first_child <= c < old_nodes[i].end_child);
                        assert(old_nodes[c].parent == Some(i as usize));
                    }
                }
            }
        }
    }

    /// A machine that is to resolve `targets` against `sync_count` sync
    /// repositories. Every target becomes a root of the forest, in the order
    /// given.
    pub fn new(targets: &Vec<String>, sync_count: usize) -> (r: Resolver)
        ensures
            fresh(r, texts(targets@), sync_count),
    {
        let mut r = Resolver {
            nodes: Vec::new(),
            names: Vec::new(),
            cursor: 0,
            stage: Stage::Start,
            awaiting: false,
            roots: 0,
            sync_count,
            cache: AurCache::new(),
        };
        let mut i: usize = 0;
        while i < targets.len()
            invariant
                0 <= i <= targets.len(),
                r.wf(),
                r.cursor == 0,
                r.stage is Start,
                !r.awaiting,
                r.sync_count == sync_count,
                r.cache@ == Map::<Seq<char>, crate::cache::EntryView>::empty(),
                r.nodes@.len() == i,
                r.roots == i,
                forall|k: int|
                    0 <= k < i ==> {
                        &&& (#[trigger] r.nodes@[k]).request@ == targets@[k]@
                        &&& r.nodes@[k].dep_type == DepType::Base
                        &&& r.nodes@[k].parent is None
                        &&& r.nodes@[k].state is Waiting
                        &&& r.nodes@[k].first_child == 0
                        &&& r.nodes@[k].end_child == 0
                    },
            decreases targets.len() - i,
        {
            r.push_waiting(&targets[i], DepType::Base, None);
            i = i + 1;
        }
        r
    }

    /// How the arena `self` follows from the arena `before` when the node
    /// under the cursor of `before` is settled and `edges` are the requests
    /// that follow from it: the node keeps what it asked and gets `edges`
    /// as its children, appended in order at the end of the arena, and every
    /// other node is as it was.
    pub open spec fn grown_from(&self, before: Resolver, edges: Seq<Edge>) -> bool {
        let c = before.cursor as int;
        let len = before.nodes@.len() as int;
        &&& self.nodes@.len() == len + edges.len()
        &&& self.cursor == before.cursor + 1
        &&& self.stage is Start
        &&& !self.awaiting
        &&& self.sync_count == before.sync_count
        &&& self.roots == before.roots
        &&& forall|k: int| 0 <= k < len && k != c ==> self.nodes@[k] == before.nodes@[k]
        &&& self.nodes@[c].request == before.nodes@[c].request
        &&& self.nodes@[c].name == before.nodes@[c].name
        &&& self.nodes@[c].dep_type == before.nodes@[c].dep_type
        &&& self.nodes@[c].parent == before.nodes@[c].parent
        &&& self.nodes@[c].first_child == len
        &&& self.nodes@[c].end_child == len + edges.len()
        &&& forall|k: int|
            0 <= k < edges.len() ==> {
                &&& (#[trigger] self.nodes@[len + k]).request@ == edges[k].0
                &&& self.nodes@[len + k].dep_type == edges[k].1
                &&& self.nodes@[len + k].parent == Some(before.cursor)
                &&& self.nodes@[len + k].state is Waiting
                &&& self.nodes@[len + k].first_child == 0
                &&& self.nodes@[len + k].end_child == 0
            }
    }

    /// Whether the arena has room for the requests that follow from settling
    /// the node under the cursor with `outcome` and `pkg`.
    pub open spec fn has_room(&self, outcome: OutcomeView, pkg: Option<PkgView>) -> bool {
        self.nodes@.len() + expansion(outcome, pkg).len() <= usize::MAX
    }

    /// Settles the node under the cursor with `outcome` and `pkg`, appends
    /// the requests that follow from it, and moves on to the next node.
    /// Where the arena has no room for those requests nothing changes, and
    /// the result is `false`.
    pub fn settle(&mut self, outcome: ResolutionOutcome, pkg: Option<Pkg>) -> (done: bool)
        requires
            old(self).wf(),
            old(self).cursor < old(self).nodes@.len(),
            position(texts(old(self).names@), old(self).focus().name@) == old(self).cursor,
            outcome_fits(outcome@, pkg_view(pkg)),
        ensures
            final(self).wf(),
            final(self).cache == old(self).cache,
            done == old(self).has_room(outcome@, pkg_view(pkg)),
            done ==> final(self).nodes@[old(self).cursor as int].state == (NodeState::Done {
                outcome,
                pkg,
            }),
            done ==> final(self).grown_from(
                *old(self),
                expansion(outcome@, pkg_view(pkg)),
            ),
            !done ==> *final(self) == *old(self),
    {
        let c: usize = self.cursor;
        let len: usize = self.nodes.len();
        let kids: Vec<(String, DepType)> = expansion_list(&outcome, &pkg);
        let ghost edges = expansion(outcome@, pkg_view(pkg));
        let ghost state = NodeState::Done { outcome, pkg };
        proof {
            assert(edges_of(kids@).len() == kids@.len());
        }
        if kids.len() > usize::MAX - len {
            return false;
        }
        proof {
            assert(old(self).node_wf(c as int));
        }
        self.nodes[c].state = NodeState::Done { outcome, pkg };
        self.nodes[c].first_child = len;
        self.nodes[c].end_child = len;
        self.cursor = c + 1;
        self.stage = Stage::Start;
        self.awaiting = false;
        proof {
            assert(texts(self.names@) == texts(old(self).names@));
            assert forall|i: int| 0 <= i < self.nodes@.len() implies self.node_wf(i) by {
                assert(old(self).node_wf(i));
                match self.nodes@[i].parent {
                    Some(q) => {
                        assert(old(self).node_wf(q as int));
                    },
                    None => {},
                }
            }
            assert forall|i: int, k: int|
                #![trigger self.nodes@[i], self.nodes@[k]]
                0 <= i < self.nodes@.len() && self.nodes@[i].first_child <= k
                    < self.nodes@[i].end_child implies self.nodes@[k].parent == Some(
                    i as usize,
                ) by {
                assert(old(self).node_wf(i));
                assert(old(self).nodes@[i].first_child <= k < old(self).nodes@[i].end_child);
                assert(old(self).nodes@[k].parent == Some(i as usize));
            }
            lemma_expansion_kinds(outcome@, pkg_view(pkg));
        }
        let mut k: usize = 0;
        while k < kids.len()
            invariant
                0 <= k <= kids.len(),
                edges_of(kids@) == edges,
                forall|i: int|
                    0 <= i < edges.len() ==> (#[trigger] edges[i]).1 != DepType::Base && edges[i].1
                        != DepType::OptDep,
                len + edges.len() <= usize::MAX,
                len == old(self).nodes@.len(),
                c == old(self).cursor,
                c < len,
                self.wf(),
                self.cache == old(self).cache,
                self.nodes@.len() == len + k,
                self.cursor == c + 1,
                self.stage is Start,
                !self.awaiting,
                self.sync_count == old(self).sync_count,
                self.roots == old(self).roots,
                forall|i: int| 0 <= i < len && i != c ==> self.nodes@[i] == old(self).nodes@[i],
                self.nodes@[c as int].state == state,
                state is Done,
                self.nodes@[c as int].request == old(self).nodes@[c as int].request,
                self.nodes@[c as int].name == old(self).nodes@[c as int].name,
                self.nodes@[c as int].dep_type == old(self).nodes@[c as int].dep_type,
                self.nodes@[c as int].parent == old(self).nodes@[c as int].parent,
                self.nodes@[c as int].first_child == len,
                self.nodes@[c as int].end_child == len + k,
                forall|i: int|
                    0 <= i < k ==> {
                        &&& (#[trigger] self.nodes@[len + i]).request@ == edges[i].0
                        &&& self.nodes@[len + i].dep_type == edges[i].1
                        &&& self.nodes@[len + i].parent == Some(c)
                        &&& self.nodes@[len + i].state is Waiting
                        &&& self.nodes@[len + i].first_child == 0
                        &&& self.nodes@[len + i].end_child == 0
                    },
            decreases kids.len() - k,
        {
            let ghost prev = self.nodes@;
            proof {
                assert(edges[k as int] == (kids@[k as int].0@, kids@[k as int].1));
                assert(self.node_wf(len + k - 1)) by {
                    if k > 0 {
                        assert(self.node_wf(len + k - 1));
                    } else {
                        assert(self.node_wf(len - 1));
                    }
                }
                assert(kids@[k as int].1 == edges[k as int].1);
            }
            self.push_waiting(&kids[k].0, kids[k].1, Some(c));
            proof {
                assert forall|i: int| 0 <= i < k + 1 implies {
                    &&& (#[trigger] self.nodes@[len + i]).request@ == edges[i].0
                    &&& self.nodes@[len + i].dep_type == edges[i].1
                    &&& self.nodes@[len + i].parent == Some(c)
                    &&& self.nodes@[len + i].state is Waiting
                    &&& self.nodes@[len + i].first_child == 0
                    &&& self.nodes@[len + i].end_child == 0
                } by {
                    if i < k {
                        assert(self.nodes@[len + i] == prev[len + i]);
                    }
                }
            }
            k = k + 1;
        }
        true
    }

    /// Marks the node under the cursor as a reference to the node at `first`,
    /// which has the same name and was settled before, and moves on.
    pub fn share(&mut self, first: usize)
        requires
            old(self).wf(),
            old(self).stage is Start,
            old(self).cursor < old(self).nodes@.len(),
            first < old(self).cursor,
            first == position(
                texts(old(self).names@),
                old(self).nodes@[old(self).cursor as int].name@,
            ),
        ensures
            final(self).wf(),
            final(self).cache == old(self).cache,
            final(self).nodes@[old(self).cursor as int].state == NodeState::Shared(first),
            final(self).grown_from(*old(self), Seq::empty()),
    {
        let c: usize = self.cursor;
        let len: usize = self.nodes.len();
        proof {
            assert(old(self).node_wf(c as int));
        }
        self.nodes[c].state = NodeState::Shared(first);
        self.nodes[c].first_child = len;
        self.nodes[c].end_child = len;
        self.cursor = c + 1;
        proof {
            assert(texts(self.names@) == texts(old(self).names@));
            assert forall|i: int| 0 <= i < self.nodes@.len() implies self.node_wf(i) by {
                assert(old(self).node_wf(i));
                match self.nodes@[i].parent {
                    Some(q) => {
                        assert(old(self).node_wf(q as int));
                    },
                    None => {},
                }
            }
            assert forall|i: int, k: int|
                #![trigger self.nodes@[i], self.nodes@[k]]
                0 <= i < self.nodes@.len() && self.nodes@[i].first_child <= k
                    < self.nodes@[i].end_child implies self.nodes@[k].parent == Some(
                    i as usize,
                ) by {
                assert(old(self).node_wf(i));
                assert(old(self).nodes@[i].first_child <= k < old(self).nodes@[i].end_child);
                assert(old(self).nodes@[k].parent == Some(i as usize));
            }
        }
    }
}

} // verus!
