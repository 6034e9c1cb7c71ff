//! What holds of every run of the resolution machine, whatever the driver
//! answers.

use vstd::prelude::*;
use crate::cache::{CacheView};
use crate::engine::{Decision, Reaction, StepView};
use crate::expand::expansion;
use crate::names::{lemma_position};
use crate::node::{NodeState, OutcomeView};
use crate::package::{texts, PkgView, RepoPackageView};
use crate::protocol::{AnswerView, QueryView};
use crate::resolver::{arena_of, fresh, Resolver, StageView};
use crate::version::dependency_name;

verus! {

/// The package name that a question is about.
pub open spec fn query_name(q: QueryView) -> Seq<char> {
    match q {
        QueryView::Local(text) => dependency_name(text),
        QueryView::Sync(_, text) => dependency_name(text),
        QueryView::AurInfo(name) => name,
        QueryView::AurProvides(name) => name,
    }
}

/// Whether the cache holds the answer to a lookup of `name`.
pub open spec fn answered_in(m: CacheView, name: Seq<char>) -> bool {
    m.dom().contains(name) && !(m[name] is InFlight)
}

/// How far a stage is along the way of a node.
pub open spec fn stage_rank(stage: StageView, sync_count: int) -> int {
    match stage {
        StageView::Start => 0,
        StageView::Local => 1,
        StageView::Sync(i) => 2 + i,
        StageView::AurInfo => 2 + sync_count,
        StageView::AurProvides => 3 + sync_count,
        StageView::AurProvider(_) => 4 + sync_count,
    }
}

/// A request that an installed package meets is settled as satisfied
/// locally. No request follows from it, and the AUR cache stays as it was.
pub proof fn lemma_local_hit(r: Resolver, p: RepoPackageView)
    requires
        r.wf(),
        r.awaiting,
        r.stage is Local,
    ensures
        r.reaction(AnswerView::Package(Some(p))) == Reaction::Settle(
            OutcomeView::AlreadySatisfiedLocally,
            Some(PkgView::Pacman { pkg: p }),
        ),
        expansion(OutcomeView::AlreadySatisfiedLocally, Some(PkgView::Pacman { pkg: p })).len()
            == 0,
        r.has_room(OutcomeView::AlreadySatisfiedLocally, Some(PkgView::Pacman { pkg: p })),
        r.cache_after_answer(AnswerView::Package(Some(p))) == r.cache@,
{
    assert(r.nodes@.len() == r.nodes.len());
}

/// Once a name is settled, no question is asked about it again, to no
/// source: a later node of that name becomes a reference to the settled one,
/// and a request that the package of that name is the only one to provide is
/// settled as that name was.
pub proof fn lemma_settled_name_not_asked(r: Resolver, j: int)
    requires
        r.wf(),
        !r.awaiting,
        0 <= j < r.cursor,
    ensures
        r.decision() matches Decision::Ask(q, st) ==> query_name(q) != r.nodes@[j].name@,
        r.cursor < r.nodes@.len() && r.focus().name@ == r.nodes@[j].name@
            ==> r.decision() is Share && r.cache_after_step() == r.cache@,
{
    let settled = r.nodes@[j].name@;
    assert(r.node_wf(j));
    lemma_position(texts(r.names@), settled);
    assert(texts(r.names@)[j] == settled);
    if r.cursor < r.nodes@.len() {
        let c = r.cursor as int;
        assert(r.node_wf(c));
        lemma_position(texts(r.names@), r.focus().name@);
        assert(texts(r.names@)[c] == r.focus().name@);
    }
}

/// Sync repositories are asked in their order, and the first hit wins: the
/// repository of index 0 is asked once the local database had no satisfier,
/// each further one once the one before it had none, and a satisfier from
/// any of them settles the request at once.
pub proof fn lemma_sync_priority(r: Resolver, i: usize, p: RepoPackageView)
    requires
        r.wf(),
        r.awaiting,
    ensures
        r.stage is Local && r.sync_count > 0 ==> r.reaction(AnswerView::Package(None))
            == Reaction::Goto(StageView::Sync(0)),
        r.stage@ == StageView::Sync(i) ==> r.reaction(AnswerView::Package(Some(p)))
            == Reaction::Settle(OutcomeView::ResolvedRepo, Some(PkgView::Pacman { pkg: p })),
        r.stage@ == StageView::Sync(i) && i + 1 < r.sync_count ==> r.reaction(
            AnswerView::Package(None),
        ) == Reaction::Goto(StageView::Sync((i + 1) as usize)),
        r.stage@ == StageView::Sync(i) && i + 1 >= r.sync_count ==> r.reaction(
            AnswerView::Package(None),
        ) == Reaction::Goto(StageView::AurInfo),
{
}

/// Every package is settled once: two settled nodes never have the same
/// name.
pub proof fn lemma_settled_names_distinct(r: Resolver, i: int, j: int)
    requires
        r.wf(),
        0 <= i < r.nodes@.len(),
        0 <= j < r.nodes@.len(),
        i != j,
        r.nodes@[i].state is Done,
        r.nodes@[j].state is Done,
    ensures
        r.nodes@[i].name@ != r.nodes@[j].name@,
{
    assert(r.node_wf(i));
    assert(r.node_wf(j));
}

/// A node whose name was met before refers to the settled node of that name,
/// which stands before it, and has no children: a cycle of dependencies ends
/// there.
pub proof fn lemma_reference_ends_cycle(r: Resolver, i: int)
    requires
        r.wf(),
        0 <= i < r.nodes@.len(),
        r.nodes@[i].state is Shared,
    ensures
        ({
            let j = r.nodes@[i].state->Shared_0;
            &&& j < i
            &&& r.nodes@[j as int].state is Done
            &&& r.nodes@[j as int].name@ == r.nodes@[i].name@
            &&& r.nodes@[i].first_child == r.nodes@[i].end_child
        }),
{
    let j = r.nodes@[i].state->Shared_0 as int;
    assert(r.node_wf(i));
    lemma_position(texts(r.names@), r.nodes@[i].name@);
    assert(r.node_wf(j));
    lemma_position(texts(r.names@), r.nodes@[j].name@);
}

/// An answer that does not settle the node sends it on to a later stage, so
/// a node is settled after at most as many answers as there are stages.
pub proof fn lemma_answer_moves_on(r: Resolver, a: AnswerView)
    requires
        r.wf(),
        r.awaiting,
    ensures
        r.reaction(a) matches Reaction::Goto(st) ==> stage_rank(st, r.sync_count as int)
            > stage_rank(r.stage@, r.sync_count as int),
{
}

/// A request that nothing meets does not stop the run: the answer is taken,
/// the node is settled as unresolved without children, the cursor moves to
/// the next node, and every other node is as it was.
pub proof fn lemma_miss_goes_on(r: Resolver, a: AnswerView, after: Resolver, taken: bool)
    requires
        r.wf(),
        r.awaiting,
        r.reaction(a) matches Reaction::Settle(o, pk) && o is Unresolved,
        after.answered_from(r, a, taken),
    ensures
        taken,
        after.cursor == r.cursor + 1,
        after.nodes@.len() == r.nodes@.len(),
        after.nodes@[r.cursor as int].state matches NodeState::Done { outcome, pkg }
            && outcome@ is Unresolved,
        forall|k: int|
            0 <= k < r.nodes@.len() && k != r.cursor ==> after.nodes@[k] == r.nodes@[k],
{
    assert(r.nodes@.len() == r.nodes.len());
}

/// A name whose lookup was answered is not looked up again: no step asks the
/// AUR for its record.
pub proof fn lemma_no_refetch(r: Resolver, name: Seq<char>)
    requires
        r.wf(),
        !r.awaiting,
        answered_in(r.cache@, name),
    ensures
        !(r.decision() matches Decision::Ask(q, st) && q == QueryView::AurInfo(name)),
{
}

/// What the cache holds as answered stays answered through every step and
/// every answer, and the answer to a request for a record makes the name
/// that was asked for answered.
pub proof fn lemma_answers_are_kept(r: Resolver, a: AnswerView, name: Seq<char>)
    requires
        r.wf(),
    ensures
        answered_in(r.cache@, name) ==> answered_in(r.cache_after_step(), name),
        answered_in(r.cache@, name) ==> answered_in(r.cache_after_answer(a), name),
        r.stage is AurInfo ==> answered_in(r.cache_after_answer(a), r.focus().name@),
        r.stage@ matches StageView::AurProvider(p) ==> answered_in(r.cache_after_answer(a), p),
{
}

/// Two states with the same view have the same names in the same places.
proof fn lemma_same_names(a: Resolver, b: Resolver)
    requires
        a.wf(),
        b.wf(),
        a@ == b@,
    ensures
        a.nodes@.len() == b.nodes@.len(),
        texts(a.names@) == texts(b.names@),
        forall|i: int| 0 <= i < a.nodes@.len() ==> (#[trigger] a.nodes@[i])@ == b.nodes@[i]@,
        a.cursor < a.nodes@.len() ==> a.focus()@ == b.focus()@,
{
    assert(arena_of(a.nodes@).len() == arena_of(b.nodes@).len());
    assert forall|i: int| 0 <= i < a.nodes@.len() implies (#[trigger] a.nodes@[i])@
        == b.nodes@[i]@ by {
        assert(arena_of(a.nodes@)[i] == arena_of(b.nodes@)[i]);
    }
    assert forall|i: int| 0 <= i < a.nodes@.len() implies texts(a.names@)[i] == texts(
        b.names@,
    )[i] by {
        assert(a.node_wf(i));
        assert(b.node_wf(i));
        assert(a.nodes@[i]@ == b.nodes@[i]@);
    }
    assert(texts(a.names@) =~= texts(b.names@));
}

/// Two arenas that grew in the same way from states with the same view have
/// the same view.
proof fn lemma_same_growth(
    a: Resolver,
    b: Resolver,
    x: Resolver,
    y: Resolver,
    edges: Seq<crate::expand::Edge>,
)
    requires
        a.wf(),
        b.wf(),
        x.wf(),
        y.wf(),
        a@ == b@,
        a.cursor < a.nodes@.len(),
        x.grown_from(a, edges),
        y.grown_from(b, edges),
        x.nodes@[a.cursor as int].state@ == y.nodes@[a.cursor as int].state@,
        x.cache@ == y.cache@,
    ensures
        x@ == y@,
{
    lemma_same_names(a, b);
    let len = a.nodes@.len() as int;
    let c = a.cursor as int;
    assert forall|i: int| 0 <= i < x.nodes@.len() implies (#[trigger] x.nodes@[i])@
        == y.nodes@[i]@ by {
        if i < len {
            if i != c {
                assert(x.nodes@[i] == a.nodes@[i]);
                assert(y.nodes@[i] == b.nodes@[i]);
                assert(a.nodes@[i]@ == b.nodes@[i]@);
            } else {
                assert(a.nodes@[c]@ == b.nodes@[c]@);
            }
        } else {
            let k = i - len;
            assert(x.nodes@[len + k].request@ == edges[k].0);
            assert(y.nodes@[len + k].request@ == edges[k].0);
            assert(x.node_wf(i));
            assert(y.node_wf(i));
        }
    }
    assert(arena_of(x.nodes@) =~= arena_of(y.nodes@));
}

/// A step is determined by the state: from two states with the same view, a
/// step reports the same and leaves states that again have the same view.
pub proof fn lemma_advance_determined(
    a: Resolver,
    b: Resolver,
    x: Resolver,
    y: Resolver,
    sx: StepView,
    sy: StepView,
)
    requires
        a.wf(),
        b.wf(),
        x.wf(),
        y.wf(),
        a@ == b@,
        !a.awaiting,
        x.advanced_from(a, sx),
        y.advanced_from(b, sy),
    ensures
        sx == sy,
        x@ == y@,
{
    lemma_same_names(a, b);
    assert(a.nodes@.len() == a.nodes.len());
    assert(a.decision() == b.decision());
    assert(a.cache_after_step() == b.cache_after_step());
    match a.decision() {
        Decision::Finished => {
            assert(arena_of(x.nodes@) =~= arena_of(y.nodes@));
        },
        Decision::Share(first) => {
            lemma_same_growth(a, b, x, y, Seq::empty());
        },
        Decision::Settle(o, pk) => {
            assert(a.has_room(o, pk) == b.has_room(o, pk));
            if a.has_room(o, pk) {
                lemma_same_growth(a, b, x, y, expansion(o, pk));
            } else {
                assert(arena_of(x.nodes@) =~= arena_of(y.nodes@));
            }
        },
        Decision::Ask(q, st) => {
            assert(arena_of(x.nodes@) =~= arena_of(y.nodes@));
        },
    }
}

/// An answer is taken in one way only: from two states with the same view,
/// the same answer leaves states that again have the same view. With the law
/// for steps this makes a run a function of the targets and of the driver's
/// answers, so that resolving the same targets against the same databases
/// twice gives the same arena, the same forest and the same plan.
pub proof fn lemma_answer_determined(
    a: Resolver,
    b: Resolver,
    answer: AnswerView,
    x: Resolver,
    y: Resolver,
    tx: bool,
    ty: bool,
)
    requires
        a.wf(),
        b.wf(),
        x.wf(),
        y.wf(),
        a@ == b@,
        a.awaiting,
        x.answered_from(a, answer, tx),
        y.answered_from(b, answer, ty),
    ensures
        tx == ty,
        x@ == y@,
{
    lemma_same_names(a, b);
    assert(a.nodes@.len() == a.nodes.len());
    assert(a.reaction(answer) == b.reaction(answer));
    assert(a.cache_after_answer(answer) == b.cache_after_answer(answer));
    match a.reaction(answer) {
        Reaction::Settle(o, pk) => {
            assert(a.has_room(o, pk) == b.has_room(o, pk));
            if a.has_room(o, pk) {
                lemma_same_growth(a, b, x, y, expansion(o, pk));
            } else {
                assert(arena_of(x.nodes@) =~= arena_of(y.nodes@));
            }
        },
        Reaction::Goto(st) => {
            assert(arena_of(x.nodes@) =~= arena_of(y.nodes@));
        },
    }
}

/// A run starts in one way only: two machines made for the same targets and
/// the same number of sync repositories have the same view.
pub proof fn lemma_start_determined(
    a: Resolver,
    b: Resolver,
    targets: Seq<Seq<char>>,
    sync_count: usize,
)
    requires
        fresh(a, targets, sync_count),
        fresh(b, targets, sync_count),
    ensures
        a@ == b@,
{
    assert forall|i: int| 0 <= i < a.nodes@.len() implies (#[trigger] a.nodes@[i])@
        == b.nodes@[i]@ by {
        assert(a.node_wf(i));
        assert(b.node_wf(i));
        assert(a.nodes@[i].request@ == targets[i]);
        assert(b.nodes@[i].request@ == targets[i]);
    }
    assert(arena_of(a.nodes@) =~= arena_of(b.nodes@));
}

/// After the same nodes were taken, the node to take next is the same.
proof fn lemma_next_is_unique(r: Resolver, x: int, y: int, taken: Seq<usize>)
    requires
        r.is_next(x, taken),
        r.is_next(y, taken),
    ensures
        x == y,
{
    assert(r.left(x, taken) && r.left(y, taken));
    assert(r.installs(x) && r.installs(y));
    if x < y {
        assert(!r.ripe(x, taken));
        assert(!r.ready(x, taken));
        assert(!r.ripe(y, taken));
        assert(!r.ready(y, taken));
        assert(!r.left(x, taken));
    } else if y < x {
        assert(!r.ripe(y, taken));
        assert(!r.ready(y, taken));
        assert(!r.ripe(x, taken));
        assert(!r.ready(x, taken));
        assert(!r.left(y, taken));
    }
}

/// Two plans of one resolution agree on their first `k` entries.
proof fn lemma_plans_agree(r: Resolver, first: Seq<usize>, second: Seq<usize>, k: int)
    requires
        r.is_plan(first),
        r.is_plan(second),
        0 <= k <= first.len(),
        k <= second.len(),
    ensures
        first.subrange(0, k) == second.subrange(0, k),
    decreases k,
{
    if k > 0 {
        lemma_plans_agree(r, first, second, k - 1);
        let taken = first.subrange(0, k - 1);
        assert(r.is_next(first[k - 1] as int, first.subrange(0, k - 1)));
        assert(r.is_next(second[k - 1] as int, second.subrange(0, k - 1)));
        lemma_next_is_unique(r, first[k - 1] as int, second[k - 1] as int, taken);
        assert(first.subrange(0, k) =~= first.subrange(0, k - 1).push(first[k - 1]));
        assert(second.subrange(0, k) =~= second.subrange(0, k - 1).push(second[k - 1]));
    } else {
        assert(first.subrange(0, 0) =~= second.subrange(0, 0));
    }
}

/// A resolution has one plan: the order in which its packages are to be
/// installed is determined by the arena.
pub proof fn lemma_plan_is_unique(r: Resolver, first: Seq<usize>, second: Seq<usize>)
    requires
        r.is_plan(first),
        r.is_plan(second),
    ensures
        first == second,
{
    if first.len() <= second.len() {
        lemma_plans_agree(r, first, second, first.len() as int);
        assert(first.subrange(0, first.len() as int) =~= first);
        if first.len() < second.len() {
            let y = second[first.len() as int] as int;
            assert(r.is_next(y, second.subrange(0, first.len() as int)));
            assert(r.left(y, first));
        }
        assert(second.subrange(0, second.len() as int) =~= second);
    } else {
        lemma_plans_agree(r, second, first, second.len() as int);
        assert(second.subrange(0, second.len() as int) =~= second);
        let y = first[second.len() as int] as int;
        assert(r.is_next(y, first.subrange(0, second.len() as int)));
        assert(r.left(y, second));
    }
}

} // verus!
