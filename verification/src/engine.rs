//! The steps of the resolution machine: choosing what to do about the node
//! under the cursor, and taking the driver's answer to a question.
//!
//! A node is dealt with in this order. A name that was met before is not
//! resolved again. Otherwise the local database is asked; then each sync
//! repository in priority order, the first hit winning; then the AUR, first
//! for a record under the node's name and then for packages that provide
//! it. A single provider is taken, several are reported as ambiguous, none
//! leaves the request unresolved. A provider whose name was settled before
//! is not looked up: the request is settled as that name was. A failed AUR
//! lookup leaves that request unresolved and nothing else.

use vstd::prelude::*;
use crate::cache::{after_lookup, lookup_answer, CacheView, EntryView, Lookup, LookupView};
use crate::depend::{meets, parsed_dependency, DependencySpec};
use crate::expand::{expansion, pkg_view};
use crate::names::{find_name, lemma_position, position};
use crate::node::{NodeState, OutcomeView, ResolutionOutcome, UnresolvedReason};
use crate::package::{texts, AurPackage, AurPackageView, Pkg, PkgView};
use crate::protocol::{find_record, record_named, Answer, AnswerView, Query, QueryView};
use crate::resolver::{outcome_fits, Resolver, Stage, StageView};

verus! {

/// What the machine did in one step.
#[derive(Debug)]
pub enum Step {
    /// It has a question; the answer is due next.
    Ask(Query),
    /// It settled a node without a question.
    Progress,
    /// Every request is settled.
    Finished,
    /// The arena cannot take the requests that follow from the node.
    ArenaFull,
}

pub enum StepView {
    Ask(QueryView),
    Progress,
    Finished,
    ArenaFull,
}

impl View for Step {
    type V = StepView;

    open spec fn view(&self) -> StepView {
        match self {
            Step::Ask(q) => StepView::Ask(q@),
            Step::Progress => StepView::Progress,
            Step::Finished => StepView::Finished,
            Step::ArenaFull => StepView::ArenaFull,
        }
    }
}

/// What the machine is to do next.
pub enum Decision {
    Finished,
    /// The node's name was met before, at this index.
    Share(usize),
    /// The node can be settled from what is known.
    Settle(OutcomeView, Option<PkgView>),
    /// A question is to be asked, at this stage.
    Ask(QueryView, StageView),
}

/// What an AUR record settles a dependency string as: resolved from the AUR
/// when the record's version meets the constraint, not found otherwise.
pub open spec fn aur_verdict(text: Seq<char>, record: AurPackageView) -> (
    OutcomeView,
    Option<PkgView>,
) {
    if parsed_dependency(text) matches Ok(dep) && meets(dep, record.version) {
        (OutcomeView::ResolvedAur, Some(PkgView::Aur { pkg: record }))
    } else {
        (OutcomeView::Unresolved(UnresolvedReason::NotFound), None)
    }
}

/// Settling with nothing found.
pub open spec fn unresolved(reason: UnresolvedReason) -> Decision {
    Decision::Settle(OutcomeView::Unresolved(reason), None)
}

impl Resolver {
    /// What is to be done about the node under the cursor.
    pub open spec fn decision(&self) -> Decision {
        let name = self.focus().name@;
        let text = self.focus_text();
        if self.cursor >= self.nodes@.len() {
            Decision::Finished
        } else {
            match self.stage@ {
                StageView::Start => {
                    let first = position(texts(self.names@), name);
                    if first != self.cursor {
                        Decision::Share(first as usize)
                    } else if parsed_dependency(text) is Err {
                        unresolved(UnresolvedReason::InvalidSpec)
                    } else {
                        Decision::Ask(QueryView::Local(text), StageView::Local)
                    }
                },
                StageView::Local => Decision::Ask(QueryView::Local(text), StageView::Local),
                StageView::Sync(i) => Decision::Ask(QueryView::Sync(i, text), StageView::Sync(i)),
                StageView::AurInfo => match lookup_answer(self.cache@, name) {
                    LookupView::Found(record) => Decision::Settle(
                        aur_verdict(text, record).0,
                        aur_verdict(text, record).1,
                    ),
                    LookupView::Missing => Decision::Ask(
                        QueryView::AurProvides(name),
                        StageView::AurProvides,
                    ),
                    LookupView::Failed => unresolved(UnresolvedReason::NetworkError),
                    _ => Decision::Ask(QueryView::AurInfo(name), StageView::AurInfo),
                },
                StageView::AurProvides => Decision::Ask(
                    QueryView::AurProvides(name),
                    StageView::AurProvides,
                ),
                StageView::AurProvider(p) => if self.settled(p) {
                    match self.nodes@[position(texts(self.names@), p)].state {
                        NodeState::Done { outcome, pkg } => Decision::Settle(
                            outcome@,
                            pkg_view(pkg),
                        ),
                        _ => unresolved(UnresolvedReason::NotFound),
                    }
                } else {
                    match lookup_answer(self.cache@, p) {
                        LookupView::Found(record) => Decision::Settle(
                            OutcomeView::ResolvedAur,
                            Some(PkgView::Aur { pkg: record }),
                        ),
                        LookupView::Missing => unresolved(UnresolvedReason::NotFound),
                        LookupView::Failed => unresolved(UnresolvedReason::NetworkError),
                        _ => Decision::Ask(QueryView::AurInfo(p), StageView::AurProvider(p)),
                    }
                },
            }
        }
    }

    /// Whether a node of the name `name` was settled before the node under
    /// the cursor.
    pub open spec fn settled(&self, name: Seq<char>) -> bool {
        0 <= position(texts(self.names@), name) < self.cursor
    }

    /// The cache after the step: the name that the cache was consulted for,
    /// if any, is known from then on.
    pub open spec fn cache_after_step(&self) -> CacheView {
        if self.cursor >= self.nodes@.len() {
            self.cache@
        } else {
            match self.stage@ {
                StageView::AurInfo => after_lookup(self.cache@, self.focus().name@),
                StageView::AurProvider(p) => if self.settled(p) {
                    self.cache@
                } else {
                    after_lookup(self.cache@, p)
                },
                _ => self.cache@,
            }
        }
    }

    /// The arena and the cursor are those of `before`.
    pub open spec fn same_arena(&self, before: Resolver) -> bool {
        &&& self.nodes@ == before.nodes@
        &&& self.cursor == before.cursor
        &&& self.sync_count == before.sync_count
        &&& self.roots == before.roots
    }

    /// The node under the cursor of `before` is settled with the given
    /// outcome and package, and the arena has grown by what follows from it.
    pub open spec fn settled_as(&self, before: Resolver, o: OutcomeView, pk: Option<PkgView>) -> bool {
        &&& self.nodes@[before.cursor as int].state matches NodeState::Done { outcome, pkg }
        &&& outcome@ == o
        &&& pkg_view(pkg) == pk
        &&& self.grown_from(before, expansion(o, pk))
    }

    /// Whether `self` is what a step leaves of `before`, and `step` what the
    /// step reports: a finished machine stays as it is; a node whose name was
    /// met before becomes a reference to the first node of that name; a node
    /// that can be settled is settled, unless the arena is full; and a
    /// question is handed out without any change to the arena.
    pub open spec fn advanced_from(&self, before: Resolver, step: StepView) -> bool {
        &&& self.cache@ == before.cache_after_step()
        &&& match before.decision() {
            Decision::Finished => step is Finished && self.same_arena(before) && self.stage
                == before.stage && !self.awaiting,
            Decision::Share(first) => {
                &&& step is Progress
                &&& self.nodes@[before.cursor as int].state == NodeState::Shared(first)
                &&& self.grown_from(before, Seq::empty())
            },
            Decision::Settle(o, pk) => if before.has_room(o, pk) {
                step is Progress && self.settled_as(before, o, pk)
            } else {
                step is ArenaFull && self.same_arena(before) && self.stage == before.stage
                    && !self.awaiting
            },
            Decision::Ask(q, st) => {
                &&& step == StepView::Ask(q)
                &&& self.stage@ == st
                &&& self.awaiting
                &&& self.same_arena(before)
            },
        }
    }

    /// A copy of the stage.
    fn stage_copy(&self) -> (r: Stage)
        ensures
            r == self.stage,
    {
        match &self.stage {
            Stage::Start => Stage::Start,
            Stage::Local => Stage::Local,
            Stage::Sync(i) => Stage::Sync(*i),
            Stage::AurInfo => Stage::AurInfo,
            Stage::AurProvides => Stage::AurProvides,
            Stage::AurProvider(p) => Stage::AurProvider(p.clone()),
        }
    }

    /// Settles the node under the cursor and tells what came of it.
    fn settle_step(&mut self, outcome: ResolutionOutcome, pkg: Option<Pkg>) -> (r: Step)
        requires
            old(self).wf(),
            old(self).cursor < old(self).nodes@.len(),
            position(texts(old(self).names@), old(self).focus().name@) == old(self).cursor,
            outcome_fits(outcome@, pkg_view(pkg)),
        ensures
            final(self).wf(),
            final(self).cache == old(self).cache,
            old(self).has_room(outcome@, pkg_view(pkg)) ==> r is Progress && final(self).settled_as(
                *old(self),
                outcome@,
                pkg_view(pkg),
            ),
            !old(self).has_room(outcome@, pkg_view(pkg)) ==> r is ArenaFull && *final(self) == *old(
                self,
            ),
    {
        if self.settle(outcome, pkg) {
            Step::Progress
        } else {
            Step::ArenaFull
        }
    }
}

/// The invariant does not depend on what the cache holds.
pub proof fn lemma_cache_only(a: Resolver, b: Resolver)
    requires
        a.wf(),
        b.cache.wf(),
        b.nodes == a.nodes,
        b.names == a.names,
        b.cursor == a.cursor,
        b.stage == a.stage,
        b.awaiting == a.awaiting,
        b.sync_count == a.sync_count,
        b.roots == a.roots,
    ensures
        b.wf(),
{
    assert forall|i: int| 0 <= i < b.nodes@.len() implies b.node_wf(i) by {
        assert(a.node_wf(i));
    }
}

impl Resolver {
    /// Hands out the question for `stage` and waits for its answer.
    fn ask(&mut self, stage: Stage, query: Query) -> (r: Step)
        requires
            old(self).wf(),
            !old(self).awaiting,
            old(self).cursor < old(self).nodes@.len(),
            position(texts(old(self).names@), old(self).focus().name@) == old(self).cursor,
            parsed_dependency(old(self).focus_text()) is Ok,
            !(stage is Start),
            stage matches Stage::Sync(i) ==> i < old(self).sync_count,
        ensures
            final(self).wf(),
            final(self).same_arena(*old(self)),
            final(self).cache == old(self).cache,
            final(self).awaiting,
            final(self).stage == stage,
            r == Step::Ask(query),
    {
        self.stage = stage;
        self.awaiting = true;
        proof {
            assert forall|i: int| 0 <= i < self.nodes@.len() implies self.node_wf(i) by {
                assert(old(self).node_wf(i));
            }
        }
        Step::Ask(query)
    }

    /// Does the next thing about the node under the cursor: refers it to an
    /// earlier node of the same name, settles it from what is known, or hands
    /// out the next question for it. With every node settled the machine has
    /// finished.
    pub fn advance(&mut self) -> (r: Step)
        requires
            old(self).wf(),
            !old(self).awaiting,
        ensures
            final(self).wf(),
            final(self).advanced_from(*old(self), r@),
    {
        if self.cursor >= self.nodes.len() {
            return Step::Finished;
        }
        let c: usize = self.cursor;
        proof {
            assert(self.node_wf(c as int));
            lemma_position(texts(self.names@), self.focus().name@);
            assert(texts(self.names@)[c as int] == self.focus().name@);
        }
        let text: String = self.nodes[c].request.clone();
        let name: String = self.nodes[c].name.clone();
        match self.stage_copy() {
            Stage::Start => {
                match find_name(&self.names, &name) {
                    Some(first) => {
                        if first != c {
                            self.share(first);
                            Step::Progress
                        } else {
                            match DependencySpec::parse(&text) {
                                Err(_) => self.settle_step(
                                    ResolutionOutcome::Unresolved(UnresolvedReason::InvalidSpec),
                                    None,
                                ),
                                Ok(_) => self.ask(Stage::Local, Query::Local(text)),
                            }
                        }
                    },
                    None => {
                        proof {
                            assert(false);
                        }
                        vstd::pervasive::unreached()
                    },
                }
            },
            Stage::Local => self.ask(Stage::Local, Query::Local(text)),
            Stage::Sync(i) => self.ask(Stage::Sync(i), Query::Sync(i, text)),
            Stage::AurInfo => {
                let found: Lookup = self.cache.get_or_fetch(&name);
                proof {
                    lemma_cache_only(*old(self), *self);
                }
                match found {
                    Lookup::Found(record) => {
                        let (outcome, pkg) = aur_settlement(&text, record);
                        self.settle_step(outcome, pkg)
                    },
                    Lookup::Missing => self.ask(Stage::AurProvides, Query::AurProvides(name)),
                    Lookup::Failed => self.settle_step(
                        ResolutionOutcome::Unresolved(UnresolvedReason::NetworkError),
                        None,
                    ),
                    _ => self.ask(Stage::AurInfo, Query::AurInfo(name)),
                }
            },
            Stage::AurProvides => self.ask(Stage::AurProvides, Query::AurProvides(name)),
            Stage::AurProvider(p) => {
                match find_name(&self.names, &p) {
                    Some(known) => {
                        if known < c {
                            proof {
                                assert(self.node_wf(known as int));
                                lemma_position(texts(self.names@), p@);
                                lemma_position(texts(self.names@), self.nodes@[known as int].name@);
                            }
                            match &self.nodes[known].state {
                                NodeState::Done { outcome, pkg } => {
                                    let same: ResolutionOutcome = outcome.duplicate();
                                    let copy: Option<Pkg> = crate::dep_tree::duplicate_pkg(pkg);
                                    return self.settle_step(same, copy);
                                },
                                _ => {
                                    proof {
                                        assert(false);
                                    }
                                    return vstd::pervasive::unreached();
                                },
                            }
                        }
                    },
                    None => {},
                }
                let found: Lookup = self.cache.get_or_fetch(&p);
                proof {
                    lemma_cache_only(*old(self), *self);
                }
                match found {
                    Lookup::Found(record) => self.settle_step(
                        ResolutionOutcome::ResolvedAur,
                        Some(Pkg::Aur { pkg: record }),
                    ),
                    Lookup::Missing => self.settle_step(
                        ResolutionOutcome::Unresolved(UnresolvedReason::NotFound),
                        None,
                    ),
                    Lookup::Failed => self.settle_step(
                        ResolutionOutcome::Unresolved(UnresolvedReason::NetworkError),
                        None,
                    ),
                    _ => {
                        let query = Query::AurInfo(p.clone());
                        self.ask(Stage::AurProvider(p), query)
                    },
                }
            },
        }
    }
}

/// What the machine makes of an answer.
pub enum Reaction {
    /// The node is settled.
    Settle(OutcomeView, Option<PkgView>),
    /// The node goes on to this stage.
    Goto(StageView),
}

/// What the AUR's answer to a request for the record of `name` leaves in the
/// cache: the record, that there is none, or that the lookup failed.
pub open spec fn fetched_entry(a: AnswerView, name: Seq<char>) -> EntryView {
    match a {
        AnswerView::Records(records) => match record_named(records, name) {
            Some(record) => EntryView::Found(record),
            None => EntryView::Missing,
        },
        _ => EntryView::Failed,
    }
}

impl Resolver {
    /// The stage that follows a sync repository, or the local database when
    /// `next` is 0, that had no satisfier: the repository of index `next` if
    /// there is one, the AUR otherwise.
    pub open spec fn stage_past(&self, next: int) -> StageView {
        if next < self.sync_count {
            StageView::Sync(next as usize)
        } else {
            StageView::AurInfo
        }
    }

    /// What the machine makes of the answer `a` to the question that is out.
    pub open spec fn reaction(&self, a: AnswerView) -> Reaction {
        let name = self.focus().name@;
        let text = self.focus_text();
        match self.stage@ {
            StageView::Sync(i) => match a {
                AnswerView::Package(Some(p)) => Reaction::Settle(
                    OutcomeView::ResolvedRepo,
                    Some(PkgView::Pacman { pkg: p }),
                ),
                _ => Reaction::Goto(self.stage_past(i + 1)),
            },
            StageView::AurInfo => match a {
                AnswerView::Records(records) => match record_named(records, name) {
                    Some(record) => Reaction::Settle(
                        aur_verdict(text, record).0,
                        aur_verdict(text, record).1,
                    ),
                    None => Reaction::Goto(StageView::AurProvides),
                },
                _ => Reaction::Settle(
                    OutcomeView::Unresolved(UnresolvedReason::NetworkError),
                    None,
                ),
            },
            StageView::AurProvides => match a {
                AnswerView::Names(names) => if names.len() == 0 {
                    Reaction::Settle(OutcomeView::Unresolved(UnresolvedReason::NotFound), None)
                } else if names.len() == 1 {
                    Reaction::Goto(StageView::AurProvider(names[0]))
                } else {
                    Reaction::Settle(OutcomeView::Ambiguous(names), None)
                },
                _ => Reaction::Settle(
                    OutcomeView::Unresolved(UnresolvedReason::NetworkError),
                    None,
                ),
            },
            StageView::AurProvider(p) => match a {
                AnswerView::Records(records) => match record_named(records, p) {
                    Some(record) => Reaction::Settle(
                        OutcomeView::ResolvedAur,
                        Some(PkgView::Aur { pkg: record }),
                    ),
                    None => Reaction::Settle(
                        OutcomeView::Unresolved(UnresolvedReason::NotFound),
                        None,
                    ),
                },
                _ => Reaction::Settle(
                    OutcomeView::Unresolved(UnresolvedReason::NetworkError),
                    None,
                ),
            },
            _ => match a {
                AnswerView::Package(Some(p)) => Reaction::Settle(
                    OutcomeView::AlreadySatisfiedLocally,
                    Some(PkgView::Pacman { pkg: p }),
                ),
                _ => Reaction::Goto(self.stage_past(0)),
            },
        }
    }

    /// The cache after the answer `a`: the answer to a request for a record
    /// is kept under the name that was asked for; no other answer is kept.
    pub open spec fn cache_after_answer(&self, a: AnswerView) -> CacheView {
        match self.stage@ {
            StageView::AurInfo => self.cache@.insert(
                self.focus().name@,
                fetched_entry(a, self.focus().name@),
            ),
            StageView::AurProvider(p) => self.cache@.insert(p, fetched_entry(a, p)),
            _ => self.cache@,
        }
    }

    /// Whether `self` is what the answer `a` leaves of `before`, and `taken`
    /// what taking it reports: the answer settles the node, unless the arena
    /// is full, or sends it on to another stage.
    pub open spec fn answered_from(&self, before: Resolver, a: AnswerView, taken: bool) -> bool {
        &&& self.cache@ == before.cache_after_answer(a)
        &&& match before.reaction(a) {
            Reaction::Settle(o, pk) => if before.has_room(o, pk) {
                taken && self.settled_as(before, o, pk)
            } else {
                !taken && self.same_arena(before) && self.stage == before.stage && self.awaiting
            },
            Reaction::Goto(st) => {
                &&& taken
                &&& self.same_arena(before)
                &&& self.stage@ == st
                &&& !self.awaiting
            },
        }
    }

    /// Moves the node under the cursor on to `stage`.
    fn goto(&mut self, stage: Stage) -> (r: bool)
        requires
            old(self).wf(),
            !(old(self).stage is Start),
            !(stage is Start),
            stage matches Stage::Sync(i) ==> i < old(self).sync_count,
        ensures
            final(self).wf(),
            final(self).same_arena(*old(self)),
            final(self).cache == old(self).cache,
            !final(self).awaiting,
            final(self).stage == stage,
            r,
    {
        self.stage = stage;
        self.awaiting = false;
        proof {
            assert forall|i: int| 0 <= i < self.nodes@.len() implies self.node_wf(i) by {
                assert(old(self).node_wf(i));
            }
        }
        true
    }

    /// Moves on after a database had no satisfier: to the sync repository of
    /// index `next` if there is one, to the AUR otherwise.
    fn go_past(&mut self, next: usize) -> (r: bool)
        requires
            old(self).wf(),
            !(old(self).stage is Start),
        ensures
            final(self).wf(),
            final(self).same_arena(*old(self)),
            final(self).cache == old(self).cache,
            !final(self).awaiting,
            final(self).stage@ == old(self).stage_past(next as int),
            r,
    {
        if next < self.sync_count {
            self.goto(Stage::Sync(next))
        } else {
            self.goto(Stage::AurInfo)
        }
    }

    /// Takes the driver's answer to the question that is out. A database
    /// answer with a package settles the node; without one the node goes on
    /// to the next source. An AUR answer is kept in the cache and settles the
    /// node or sends it on to the search for providers. An answer of a kind
    /// that the question did not ask for counts as no hit from a database and
    /// as a failed lookup from the AUR. The result is `false` when the arena
    /// cannot take the requests that follow; the node is then left as it was.
    pub fn answer(&mut self, a: Answer) -> (taken: bool)
        requires
            old(self).wf(),
            old(self).awaiting,
        ensures
            final(self).wf(),
            final(self).answered_from(*old(self), a@, taken),
    {
        let c: usize = self.cursor;
        proof {
            assert(self.node_wf(c as int));
        }
        let text: String = self.nodes[c].request.clone();
        let name: String = self.nodes[c].name.clone();
        match self.stage_copy() {
            Stage::Sync(i) => match a {
                Answer::Package(Some(p)) => self.settle(
                    ResolutionOutcome::ResolvedRepo,
                    Some(Pkg::Pacman { pkg: p }),
                ),
                _ => self.go_past(i + 1),
            },
            Stage::AurInfo => match a {
                Answer::Records(records) => match find_record(&records, &name) {
                    Some(record) => {
                        self.cache.store(&name, Some(record.duplicate()));
                        proof {
                            lemma_cache_only(*old(self), *self);
                        }
                        let (outcome, pkg) = aur_settlement(&text, record);
                        self.settle(outcome, pkg)
                    },
                    None => {
                        self.cache.store(&name, None);
                        proof {
                            lemma_cache_only(*old(self), *self);
                        }
                        self.goto(Stage::AurProvides)
                    },
                },
                _ => {
                    self.cache.fail(&name);
                    proof {
                        lemma_cache_only(*old(self), *self);
                    }
                    self.settle(
                        ResolutionOutcome::Unresolved(UnresolvedReason::NetworkError),
                        None,
                    )
                },
            },
            Stage::AurProvides => match a {
                Answer::Names(names) => {
                    if names.len() == 0 {
                        self.settle(
                            ResolutionOutcome::Unresolved(UnresolvedReason::NotFound),
                            None,
                        )
                    } else if names.len() == 1 {
                        self.goto(Stage::AurProvider(names[0].clone()))
                    } else {
                        self.settle(ResolutionOutcome::Ambiguous(names), None)
                    }
                },
                _ => self.settle(
                    ResolutionOutcome::Unresolved(UnresolvedReason::NetworkError),
                    None,
                ),
            },
            Stage::AurProvider(p) => match a {
                Answer::Records(records) => match find_record(&records, &p) {
                    Some(record) => {
                        self.cache.store(&p, Some(record.duplicate()));
                        proof {
                            lemma_cache_only(*old(self), *self);
                        }
                        self.settle(ResolutionOutcome::ResolvedAur, Some(Pkg::Aur { pkg: record }))
                    },
                    None => {
                        self.cache.store(&p, None);
                        proof {
                            lemma_cache_only(*old(self), *self);
                        }
                        self.settle(
                            ResolutionOutcome::Unresolved(UnresolvedReason::NotFound),
                            None,
                        )
                    },
                },
                _ => {
                    self.cache.fail(&p);
                    proof {
                        lemma_cache_only(*old(self), *self);
                    }
                    self.settle(
                        ResolutionOutcome::Unresolved(UnresolvedReason::NetworkError),
                        None,
                    )
                },
            },
            _ => match a {
                Answer::Package(Some(p)) => self.settle(
                    ResolutionOutcome::AlreadySatisfiedLocally,
                    Some(Pkg::Pacman { pkg: p }),
                ),
                _ => self.go_past(0),
            },
        }
    }
}

impl Resolver {
    /// Takes in records that were fetched from the AUR in one request for
    /// `names`, so that the run finds them in its cache: for each name its
    /// record, or that there is none.
    pub fn preload(&mut self, names: &Vec<String>, records: &Vec<AurPackage>)
        requires
            old(self).wf(),
        ensures
            final(self).wf(),
            final(self).same_arena(*old(self)),
            final(self).stage == old(self).stage,
            final(self).awaiting == old(self).awaiting,
            final(self).cache@ == crate::cache::after_answer(
                old(self).cache@,
                texts(names@),
                crate::protocol::records_of(records@),
                0,
            ),
    {
        self.cache.store_all(names, records);
        proof {
            lemma_cache_only(*old(self), *self);
        }
    }
}

/// Settles a dependency string against an AUR record of its name.
pub fn aur_settlement(text: &String, record: AurPackage) -> (r: (ResolutionOutcome, Option<Pkg>))
    ensures
        r.0@ == aur_verdict(text@, record@).0,
        pkg_view(r.1) == aur_verdict(text@, record@).1,
        outcome_fits(r.0@, pkg_view(r.1)),
{
    match DependencySpec::parse(text) {
        Ok(dep) => {
            if dep.satisfies(record.version.as_str()) {
                (ResolutionOutcome::ResolvedAur, Some(Pkg::Aur { pkg: record }))
            } else {
                (ResolutionOutcome::Unresolved(UnresolvedReason::NotFound), None)
            }
        },
        Err(_) => (ResolutionOutcome::Unresolved(UnresolvedReason::NotFound), None),
    }
}

} // verus!
