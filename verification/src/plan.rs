//! The build plan: the packages that are to be installed, each after the
//! packages it depends on.
//!
//! Several requests may be met by one package, by its name or by what it
//! provides. The package then stands in the plan once, for the first node
//! that was settled with it.
//!
//! The plan is put together one package at a time. Each time the first
//! package in discovery order is taken whose dependencies that are to be
//! installed have all been taken already. Where dependencies form a cycle no
//! such package exists, and the first package in discovery order that is
//! left is taken instead.

use vstd::prelude::*;
use crate::node::{NodeState, ResolutionOutcome};
use crate::names::distinct_names;
use crate::resolver::Resolver;

verus! {

impl Resolver {
    /// Whether the node at `i` stands for a package that is to be installed,
    /// from a sync repository or from the AUR.
    pub open spec fn installs(&self, i: int) -> bool {
        &&& 0 <= i < self.nodes@.len()
        &&& self.nodes@[i].state matches NodeState::Done { outcome, pkg }
        &&& (outcome@ is ResolvedRepo || outcome@ is ResolvedAur)
    }

    /// The node that holds the outcome for the node at `c`: the node it
    /// refers to when its name was met before, the node itself otherwise.
    pub open spec fn target(&self, c: int) -> int {
        match self.nodes@[c].state {
            NodeState::Shared(j) => j as int,
            _ => c,
        }
    }

    /// The name of the package that the node at `i` was settled with; the
    /// name that was asked for where there is no package.
    pub open spec fn package_name(&self, i: int) -> Seq<char> {
        match self.nodes@[i].state {
            NodeState::Done { outcome, pkg: Some(p) } => p@.name(),
            _ => self.nodes@[i].name@,
        }
    }

    /// Whether the nodes at `i` and `j` are both to be installed, with the
    /// same package.
    pub open spec fn same_package(&self, i: int, j: int) -> bool {
        self.installs(i) && self.installs(j) && self.package_name(i) == self.package_name(j)
    }

    /// The first node at or after `from` and before `i` that is to be
    /// installed with the package of the node at `i`; `i` where there is
    /// none.
    pub open spec fn first_of_from(&self, i: int, from: int) -> int
        decreases i - from,
    {
        if from < 0 || from >= i {
            i
        } else if self.same_package(from, i) {
            from
        } else {
            self.first_of_from(i, from + 1)
        }
    }

    /// The first node that is to be installed with the package of the node
    /// at `i`: the node that stands for the package in the plan.
    pub open spec fn first_of(&self, i: int) -> int {
        self.first_of_from(i, 0)
    }

    /// The node that the child at `c` waits for: the node that stands for its
    /// package in the plan, where it leads to a package that is to be
    /// installed.
    pub open spec fn goal(&self, c: int) -> int {
        let t = self.target(c);
        if self.installs(t) {
            self.first_of(t)
        } else {
            t
        }
    }

    /// Whether the child at `c` keeps the node at `i` waiting: it stands for
    /// another package that is to be installed and has not been taken.
    pub open spec fn blocked_by(&self, i: int, c: int, taken: Seq<usize>) -> bool {
        let t = self.goal(c);
        t != i && self.installs(t) && !taken.contains(t as usize)
    }

    /// Whether no child keeps the node at `i` waiting.
    pub open spec fn ready(&self, i: int, taken: Seq<usize>) -> bool {
        forall|c: int|
            self.nodes@[i].first_child <= c < self.nodes@[i].end_child ==> !#[trigger] self.blocked_by(
                i,
                c,
                taken,
            )
    }

    /// Whether the node at `i` stands for a package in the plan and has not
    /// been taken.
    pub open spec fn left(&self, i: int, taken: Seq<usize>) -> bool {
        self.installs(i) && self.first_of(i) == i && !taken.contains(i as usize)
    }

    /// Whether the node at `i` is left and ready.
    pub open spec fn ripe(&self, i: int, taken: Seq<usize>) -> bool {
        self.left(i, taken) && self.ready(i, taken)
    }

    /// Whether the node at `i` is the one to take next: the first ripe node,
    /// or, where none is ripe, the first node that is left.
    pub open spec fn is_next(&self, i: int, taken: Seq<usize>) -> bool {
        &&& self.left(i, taken)
        &&& forall|j: int| 0 <= j < i ==> !#[trigger] self.ripe(j, taken)
        &&& self.ready(i, taken) || {
            &&& forall|j: int| 0 <= j < self.nodes@.len() ==> !#[trigger] self.ripe(j, taken)
            &&& forall|j: int| 0 <= j < i ==> !#[trigger] self.left(j, taken)
        }
    }

    /// Whether `order` is the plan: every entry was the one to take after
    /// the entries before it, and nothing is left.
    pub open spec fn is_plan(&self, order: Seq<usize>) -> bool {
        &&& forall|k: int|
            0 <= k < order.len() ==> #[trigger] self.is_next(order[k] as int, order.subrange(0, k))
        &&& forall|i: int| 0 <= i < self.nodes@.len() ==> !#[trigger] self.left(i, order)
    }

    /// Tells whether the node at `i` is to be installed.
    pub fn node_installs(&self, i: usize) -> (r: bool)
        requires
            i < self.nodes@.len(),
        ensures
            r == self.installs(i as int),
    {
        match &self.nodes[i].state {
            NodeState::Done { outcome, pkg } => match outcome {
                ResolutionOutcome::ResolvedRepo => true,
                ResolutionOutcome::ResolvedAur => true,
                _ => false,
            },
            _ => false,
        }
    }

    /// The index of the node that holds the outcome for the node at `c`.
    pub fn node_target(&self, c: usize) -> (r: usize)
        requires
            self.wf(),
            c < self.nodes@.len(),
        ensures
            r == self.target(c as int),
            r <= c,
    {
        proof {
            assert(self.node_wf(c as int));
        }
        match &self.nodes[c].state {
            NodeState::Shared(j) => *j,
            _ => c,
        }
    }

    /// The name of the package that the node at `i` was settled with.
    pub fn node_package_name(&self, i: usize) -> (r: String)
        requires
            i < self.nodes@.len(),
        ensures
            r@ == self.package_name(i as int),
    {
        match &self.nodes[i].state {
            NodeState::Done { outcome, pkg: Some(p) } => p.name(),
            _ => self.nodes[i].name.clone(),
        }
    }

    /// The index of the first node that is to be installed with the package
    /// of the node at `i`.
    pub fn node_first_of(&self, i: usize) -> (r: usize)
        requires
            i < self.nodes@.len(),
        ensures
            r == self.first_of(i as int),
            r <= i,
    {
        if !self.node_installs(i) {
            proof {
                self.lemma_first_of(i as int, 0);
            }
            return i;
        }
        let name: String = self.node_package_name(i);
        let mut j: usize = 0;
        while j < i
            invariant
                0 <= j <= i,
                i < self.nodes@.len(),
                self.installs(i as int),
                name@ == self.package_name(i as int),
                self.first_of(i as int) == self.first_of_from(i as int, j as int),
            decreases i - j,
        {
            if self.node_installs(j) && self.node_package_name(j) == name {
                return j;
            }
            j = j + 1;
        }
        i
    }

    /// For each node, the node that it waits for as a child.
    fn goals(&self) -> (r: Vec<usize>)
        requires
            self.wf(),
        ensures
            r@.len() == self.nodes@.len(),
            forall|c: int| 0 <= c < r@.len() ==> (#[trigger] r@[c]) == self.goal(c) && r@[c] <= c,
    {
        let mut r: Vec<usize> = Vec::new();
        let mut c: usize = 0;
        while c < self.nodes.len()
            invariant
                self.wf(),
                0 <= c <= self.nodes@.len(),
                r@.len() == c,
                forall|k: int| 0 <= k < c ==> (#[trigger] r@[k]) == self.goal(k) && r@[k] <= k,
            decreases self.nodes@.len() - c,
        {
            let t: usize = self.node_target(c);
            let g: usize = if self.node_installs(t) {
                self.node_first_of(t)
            } else {
                t
            };
            r.push(g);
            c = c + 1;
        }
        r
    }

    /// Tells whether no child keeps the node at `i` waiting, given which
    /// nodes have been taken.
    fn node_ready(
        &self,
        i: usize,
        goals: &Vec<usize>,
        done: &Vec<bool>,
        Ghost(taken): Ghost<Seq<usize>>,
    ) -> (r: bool)
        requires
            self.wf(),
            i < self.nodes@.len(),
            goals@.len() == self.nodes@.len(),
            forall|c: int|
                0 <= c < goals@.len() ==> (#[trigger] goals@[c]) == self.goal(c) && goals@[c] <= c,
            done@.len() == self.nodes@.len(),
            forall|t: int| 0 <= t < done@.len() ==> done@[t] == taken.contains(t as usize),
        ensures
            r == self.ready(i as int, taken),
    {
        proof {
            assert(self.node_wf(i as int));
        }
        let end: usize = self.nodes[i].end_child;
        let mut c: usize = self.nodes[i].first_child;
        while c < end
            invariant
                self.wf(),
                i < self.nodes@.len(),
                self.nodes@[i as int].first_child <= c <= end,
                end == self.nodes@[i as int].end_child,
                end <= self.nodes@.len(),
                goals@.len() == self.nodes@.len(),
                forall|k: int|
                    0 <= k < goals@.len() ==> (#[trigger] goals@[k]) == self.goal(k) && goals@[k]
                        <= k,
                done@.len() == self.nodes@.len(),
                forall|t: int| 0 <= t < done@.len() ==> done@[t] == taken.contains(t as usize),
                forall|k: int|
                    self.nodes@[i as int].first_child <= k < c ==> !#[trigger] self.blocked_by(
                        i as int,
                        k,
                        taken,
                    ),
            decreases end - c,
        {
            let t: usize = goals[c];
            if t != i && self.node_installs(t) && !done[t] {
                proof {
                    assert(self.blocked_by(i as int, c as int, taken));
                }
                return false;
            }
            c = c + 1;
        }
        true
    }

    /// The first node of a package stands at or before every node with that
    /// package, is to be installed with the same package, and is its own
    /// first node.
    pub proof fn lemma_first_of(&self, i: int, from: int)
        requires
            0 <= from <= i < self.nodes@.len(),
        ensures
            from <= self.first_of_from(i, from) <= i,
            self.first_of_from(i, from) < i ==> self.same_package(self.first_of_from(i, from), i),
            forall|j: int| from <= j < self.first_of_from(i, from) ==> !self.same_package(j, i),
        decreases i - from,
    {
        if from < i && !self.same_package(from, i) {
            self.lemma_first_of(i, from + 1);
        }
    }
}

/// A list without repetition whose entries are all below `n` has at most
/// `n` entries.
pub proof fn lemma_distinct_below(s: Seq<usize>, n: nat)
    requires
        s.no_duplicates(),
        forall|k: int| 0 <= k < s.len() ==> (#[trigger] s[k]) < n,
    ensures
        s.len() <= n,
    decreases n,
{
    if s.len() > 0 {
        if n == 0 {
            assert(s[0] < n);
        } else {
            let top = (n - 1) as usize;
            if exists|k: int| 0 <= k < s.len() && s[k] == top {
                let at = choose|k: int| 0 <= k < s.len() && s[k] == top;
                let rest = s.subrange(0, at) + s.subrange(at + 1, s.len() as int);
                assert forall|k: int| 0 <= k < rest.len() implies (#[trigger] rest[k]) < (n
                    - 1) as nat by {
                    if k < at {
                        assert(rest[k] == s[k]);
                    } else {
                        assert(rest[k] == s[k + 1]);
                    }
                }
                assert forall|a: int, b: int| 0 <= a < rest.len() && 0 <= b < rest.len() && a
                    != b implies rest[a] != rest[b] by {
                    let sa = if a < at {
                        a
                    } else {
                        a + 1
                    };
                    let sb = if b < at {
                        b
                    } else {
                        b + 1
                    };
                    assert(rest[a] == s[sa] && rest[b] == s[sb]);
                }
                lemma_distinct_below(rest, (n - 1) as nat);
            } else {
                assert forall|k: int| 0 <= k < s.len() implies (#[trigger] s[k]) < (n
                    - 1) as nat by {
                    assert(s[k] < n);
                }
                lemma_distinct_below(s, (n - 1) as nat);
            }
        }
    }
}

/// A list of `n` flags, none of them set.
fn cleared(n: usize) -> (r: Vec<bool>)
    ensures
        r@.len() == n,
        forall|t: int| 0 <= t < n ==> !r@[t],
{
    let mut r: Vec<bool> = Vec::new();
    while r.len() < n
        invariant
            r@.len() <= n,
            forall|t: int| 0 <= t < r@.len() ==> !r@[t],
        decreases n - r@.len(),
    {
        r.push(false);
    }
    r
}

impl Resolver {
    /// Finds the node to take next, given which nodes have been taken; `None`
    /// when nothing is left.
    fn next_pick(
        &self,
        goals: &Vec<usize>,
        done: &Vec<bool>,
        Ghost(taken): Ghost<Seq<usize>>,
    ) -> (r: Option<usize>)
        requires
            self.wf(),
            goals@.len() == self.nodes@.len(),
            forall|c: int|
                0 <= c < goals@.len() ==> (#[trigger] goals@[c]) == self.goal(c) && goals@[c] <= c,
            done@.len() == self.nodes@.len(),
            forall|t: int| 0 <= t < done@.len() ==> done@[t] == taken.contains(t as usize),
        ensures
            match r {
                Some(i) => i < self.nodes@.len() && self.is_next(i as int, taken),
                None => forall|i: int| 0 <= i < self.nodes@.len() ==> !#[trigger] self.left(
                    i,
                    taken,
                ),
            },
    {
        let n: usize = self.nodes.len();
        let mut first_left: Option<usize> = None;
        let mut i: usize = 0;
        while i < n
            invariant
                self.wf(),
                0 <= i <= n,
                n == self.nodes@.len(),
                goals@.len() == n,
                forall|c: int|
                    0 <= c < goals@.len() ==> (#[trigger] goals@[c]) == self.goal(c) && goals@[c]
                        <= c,
                done@.len() == n,
                forall|t: int| 0 <= t < done@.len() ==> done@[t] == taken.contains(t as usize),
                forall|j: int| 0 <= j < i ==> !#[trigger] self.ripe(j, taken),
                match first_left {
                    Some(f) => f < i && self.left(f as int, taken) && forall|j: int|
                        0 <= j < f ==> !#[trigger] self.left(j, taken),
                    None => forall|j: int| 0 <= j < i ==> !#[trigger] self.left(j, taken),
                },
            decreases n - i,
        {
            proof {
                assert(goals@[i as int] == self.goal(i as int));
            }
            if self.node_installs(i) && goals[i] == i && !done[i] {
                if first_left.is_none() {
                    first_left = Some(i);
                }
                if self.node_ready(i, goals, done, Ghost(taken)) {
                    return Some(i);
                }
            }
            i = i + 1;
        }
        first_left
    }

    /// The package names of the nodes of `order`.
    pub open spec fn names_of(&self, order: Seq<usize>) -> Seq<Seq<char>> {
        Seq::new(order.len(), |k: int| self.package_name(order[k] as int))
    }

    /// No package stands twice in a plan.
    pub proof fn lemma_plan_is_deduplicated(&self, order: Seq<usize>)
        requires
            self.is_plan(order),
            forall|k: int| 0 <= k < order.len() ==> (#[trigger] order[k]) < self.nodes@.len(),
        ensures
            order.no_duplicates(),
            distinct_names(self.names_of(order)),
    {
        assert forall|a: int, b: int| 0 <= a < b < order.len() implies order[a] != order[b]
            && self.package_name(order[a] as int) != self.package_name(order[b] as int) by {
            assert(self.is_next(order[b] as int, order.subrange(0, b)));
            assert(self.is_next(order[a] as int, order.subrange(0, a)));
            assert(order.subrange(0, b)[a] == order[a]);
            assert(order.subrange(0, b).contains(order[a]));
            let x = order[a] as int;
            let y = order[b] as int;
            if self.package_name(x) == self.package_name(y) {
                if x < y {
                    self.lemma_first_of(y, 0);
                    assert(self.same_package(x, y));
                } else {
                    self.lemma_first_of(x, 0);
                    assert(self.same_package(y, x));
                }
            }
        }
        assert forall|a: int, b: int|
            0 <= a < order.len() && 0 <= b < order.len() && a != b implies order[a]
            != order[b] by {
            if a < b {
                assert(order[a] != order[b]);
            } else {
                assert(order[b] != order[a]);
            }
        }
        assert forall|a: int, b: int| 0 <= a < b < self.names_of(order).len() implies self.names_of(
            order,
        )[a] != self.names_of(order)[b] by {
            assert(self.package_name(order[a] as int) != self.package_name(order[b] as int));
        }
    }

    /// Puts the plan together: the indices of the nodes that stand for the
    /// packages that are to be installed, in the order in which to install
    /// them.
    pub fn plan(&self) -> (order: Vec<usize>)
        requires
            self.wf(),
        ensures
            self.is_plan(order@),
            order@.no_duplicates(),
            distinct_names(self.names_of(order@)),
            forall|k: int| 0 <= k < order@.len() ==> self.installs(#[trigger] order@[k] as int),
    {
        let n: usize = self.nodes.len();
        let goals: Vec<usize> = self.goals();
        let mut done: Vec<bool> = cleared(n);
        let mut order: Vec<usize> = Vec::new();
        let mut more: bool = true;
        while more
            invariant
                self.wf(),
                n == self.nodes@.len(),
                goals@.len() == n,
                forall|c: int|
                    0 <= c < goals@.len() ==> (#[trigger] goals@[c]) == self.goal(c) && goals@[c]
                        <= c,
                done@.len() == n,
                forall|t: int| 0 <= t < n ==> done@[t] == order@.contains(t as usize),
                order@.no_duplicates(),
                order@.len() <= n,
                forall|k: int| 0 <= k < order@.len() ==> (#[trigger] order@[k]) < n,
                forall|k: int|
                    0 <= k < order@.len() ==> #[trigger] self.is_next(
                        order@[k] as int,
                        order@.subrange(0, k),
                    ),
                !more ==> forall|i: int| 0 <= i < n ==> !#[trigger] self.left(i, order@),
            decreases n - order@.len() + (if more { 1int } else { 0int }),
        {
            match self.next_pick(&goals, &done, Ghost(order@)) {
                None => {
                    more = false;
                },
                Some(chosen) => {
                    let ghost before = order@;
                    done.set(chosen, true);
                    order.push(chosen);
                    proof {
                        assert(before =~= order@.subrange(0, before.len() as int));
                        assert forall|a: int, b: int|
                            0 <= a < order@.len() && 0 <= b < order@.len() && a
                                != b implies order@[a] != order@[b] by {
                            if a < before.len() {
                                assert(before[a] == order@[a]);
                                assert(before.contains(before[a]));
                            }
                            if b < before.len() {
                                assert(before[b] == order@[b]);
                                assert(before.contains(before[b]));
                            }
                        }
                        lemma_distinct_below(order@, n as nat);
                        assert forall|t: int| 0 <= t < n implies done@[t] == order@.contains(
                            t as usize,
                        ) by {
                            if t == chosen {
                                assert(order@[before.len() as int] == chosen);
                            } else if before.contains(t as usize) {
                                let w = choose|w: int| 0 <= w < before.len() && before[w] == t as usize;
                                assert(order@[w] == t as usize);
                            } else if order@.contains(t as usize) {
                                let w = choose|w: int| 0 <= w < order@.len() && order@[w] == t as usize;
                                assert(before[w] == t as usize);
                            }
                        }
                        assert forall|k: int| 0 <= k < order@.len() implies #[trigger] self.is_next(
                            order@[k] as int,
                            order@.subrange(0, k),
                        ) by {
                            if k < before.len() {
                                assert(order@.subrange(0, k) =~= before.subrange(0, k));
                                assert(order@[k] == before[k]);
                            }
                        }
                    }
                },
            }
        }
        proof {
            assert forall|k: int| 0 <= k < order@.len() implies self.installs(
                #[trigger] order@[k] as int,
            ) by {
                assert(self.is_next(order@[k] as int, order@.subrange(0, k)));
            }
            self.lemma_plan_is_deduplicated(order@);
        }
        order
    }
}

} // verus!
