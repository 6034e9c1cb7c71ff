use rah::dep_tree::DepTree;
use rah::depend::DependencySpec;
use rah::engine::Step;
use rah::node::{DepType, NodeState, ResolutionOutcome, UnresolvedReason};
use rah::package::{AurPackage, Pkg, RepoPackage};
use rah::protocol::{Answer, Query};
use rah::resolver::Resolver;

struct World {
    local: Vec<RepoPackage>,
    syncs: Vec<Vec<RepoPackage>>,
    aur: Vec<AurPackage>,
    down: Vec<String>,
    info_calls: Vec<String>,
    provides_calls: Vec<String>,
    sync_calls: Vec<(usize, String)>,
}

fn world() -> World {
    World {
        local: vec![],
        syncs: vec![],
        aur: vec![],
        down: vec![],
        info_calls: vec![],
        provides_calls: vec![],
        sync_calls: vec![],
    }
}

fn repo(name: &str, version: &str, depends: &[&str], provides: &[&str]) -> RepoPackage {
    let mut p = RepoPackage::named(name, version);
    p.depends = depends.iter().map(|s| s.to_string()).collect();
    p.provides = provides.iter().map(|s| s.to_string()).collect();
    p
}

fn aur(name: &str, version: &str, depends: &[&str], make: &[&str]) -> AurPackage {
    let mut p = AurPackage::named(name, version);
    p.depends = depends.iter().map(|s| s.to_string()).collect();
    p.make_depends = make.iter().map(|s| s.to_string()).collect();
    p
}

fn satisfier(db: &[RepoPackage], text: &str) -> Option<RepoPackage> {
    let dep = DependencySpec::parse(&text.to_string()).ok()?;
    db.iter()
        .find(|p| {
            (p.name == dep.name && dep.satisfies(&p.version))
                || p.provides.iter().any(|v| *v == dep.name)
        })
        .map(|p| p.duplicate())
}

fn reply(w: &mut World, q: &Query) -> Answer {
    match q {
        Query::Local(text) => Answer::Package(satisfier(&w.local, text)),
        Query::Sync(i, text) => {
            w.sync_calls.push((*i, text.clone()));
            Answer::Package(satisfier(&w.syncs[*i], text))
        }
        Query::AurInfo(name) => {
            w.info_calls.push(name.clone());
            if w.down.contains(name) {
                return Answer::NetworkError;
            }
            Answer::Records(
                w.aur.iter().filter(|p| p.name == *name).map(|p| p.duplicate()).collect(),
            )
        }
        Query::AurProvides(name) => {
            w.provides_calls.push(name.clone());
            Answer::Names(
                w.aur
                    .iter()
                    .filter(|p| p.provides.iter().any(|v| v == name))
                    .map(|p| p.name.clone())
                    .collect(),
            )
        }
    }
}

fn run(targets: &[&str], w: &mut World) -> Resolver {
    let targets: Vec<String> = targets.iter().map(|s| s.to_string()).collect();
    let mut r = Resolver::new(&targets, w.syncs.len());
    for _ in 0..10_000 {
        match r.advance() {
            Step::Finished => return r,
            Step::Progress => {}
            Step::ArenaFull => panic!("arena full"),
            Step::Ask(q) => {
                let a = reply(w, &q);
                assert!(r.answer(a));
            }
        }
    }
    panic!("the run did not end");
}

fn outcome_of<'a>(r: &'a Resolver, request: &str) -> &'a ResolutionOutcome {
    for n in &r.nodes {
        if n.request == request {
            if let NodeState::Done { outcome, .. } = &n.state {
                return outcome;
            }
        }
    }
    panic!("no settled node for {}", request);
}

fn plan_names(r: &Resolver) -> Vec<String> {
    r.plan_by_name().names
}

#[test]
fn concrete_scenario_make_dependency_comes_first() {
    let mut w = world();
    w.local = vec![repo("git", "2.40", &[], &[]), repo("pacman", "6.0", &[], &[])];
    w.syncs = vec![vec![repo("go", "1.21", &[], &[])]];
    let mut a = aur("pkgA", "1.0", &["git", "pacman"], &["go"]);
    a.opt_depends = vec!["fancy: nicer output".to_string()];
    w.aur = vec![a];
    let r = run(&["pkgA"], &mut w);
    assert_eq!(plan_names(&r), vec!["go".to_string(), "pkgA".to_string()]);
    assert!(matches!(outcome_of(&r, "pkgA"), ResolutionOutcome::ResolvedAur));
    assert!(matches!(outcome_of(&r, "git"), ResolutionOutcome::AlreadySatisfiedLocally));
    assert!(matches!(outcome_of(&r, "pacman"), ResolutionOutcome::AlreadySatisfiedLocally));
    assert!(matches!(outcome_of(&r, "go"), ResolutionOutcome::ResolvedRepo));
    assert_eq!(w.info_calls, vec!["pkgA".to_string()]);
    assert!(r.nodes.iter().all(|n| n.request != "fancy: nicer output"));
    let plan = r.finish().expect("everything resolves");
    assert_eq!(plan.names, vec!["go".to_string(), "pkgA".to_string()]);
    let forest = DepTree::build_all(&r);
    assert_eq!(forest.len(), 1);
    let kinds: Vec<DepType> = forest[0].leaves.iter().map(|l| l.dep_type).collect();
    assert_eq!(kinds, vec![DepType::Dep, DepType::Dep, DepType::MakeDep]);
    let asked: Vec<&str> = forest[0].leaves.iter().map(|l| l.request.as_str()).collect();
    assert_eq!(asked, vec!["git", "pacman", "go"]);
}

#[test]
fn resolving_twice_gives_the_same_forest() {
    let build = || {
        let mut w = world();
        w.local = vec![repo("glibc", "2.38", &[], &[])];
        w.syncs = vec![
            vec![repo("b", "1", &["glibc", "c"], &[])],
            vec![repo("c", "2", &["glibc"], &[])],
        ];
        w.aur = vec![aur("a", "1", &["b", "c>=2"], &["missing"])];
        let r = run(&["a", "c"], &mut w);
        (format!("{:?}", DepTree::build_all(&r)), plan_names(&r))
    };
    let first = build();
    let second = build();
    assert_eq!(first.0, second.0);
    assert_eq!(first.1, second.1);
    assert_eq!(first.1, vec!["c".to_string(), "b".to_string(), "a".to_string()]);
}

#[test]
fn locally_satisfied_is_never_looked_up_in_the_aur() {
    let mut w = world();
    w.local = vec![repo("foo", "1.0", &[], &[])];
    w.syncs = vec![vec![repo("foo", "2.0", &[], &[])]];
    w.aur = vec![aur("foo", "3.0", &[], &[])];
    let r = run(&["foo"], &mut w);
    assert!(matches!(outcome_of(&r, "foo"), ResolutionOutcome::AlreadySatisfiedLocally));
    assert!(w.info_calls.is_empty());
    assert!(w.provides_calls.is_empty());
    assert!(w.sync_calls.is_empty());
    assert!(plan_names(&r).is_empty());
    assert_eq!(r.cache.names.len(), 0);
}

#[test]
fn first_registered_sync_repo_wins() {
    let mut w = world();
    w.syncs = vec![
        vec![repo("foo", "1.0-core", &[], &[])],
        vec![repo("foo", "1.0-extra", &[], &[])],
    ];
    let r = run(&["foo"], &mut w);
    assert!(matches!(outcome_of(&r, "foo"), ResolutionOutcome::ResolvedRepo));
    match &r.nodes[0].state {
        NodeState::Done { pkg: Some(Pkg::Pacman { pkg }), .. } => {
            assert_eq!(pkg.version, "1.0-core")
        }
        other => panic!("unexpected {:?}", other),
    }
    assert_eq!(w.sync_calls, vec![(0usize, "foo".to_string())]);
}

#[test]
fn later_sync_repo_is_asked_when_the_first_has_nothing() {
    let mut w = world();
    w.syncs = vec![vec![], vec![repo("bar", "1", &[], &["foo"])]];
    let r = run(&["foo"], &mut w);
    assert!(matches!(outcome_of(&r, "foo"), ResolutionOutcome::ResolvedRepo));
    assert_eq!(w.sync_calls, vec![(0usize, "foo".to_string()), (1usize, "foo".to_string())]);
    assert_eq!(plan_names(&r), vec!["bar".to_string()]);
}

#[test]
fn cycle_ends_and_each_package_appears_once() {
    let mut w = world();
    w.aur = vec![aur("A", "1", &["B"], &[]), aur("B", "1", &["A"], &[])];
    let r = run(&["A"], &mut w);
    assert_eq!(r.nodes.len(), 3);
    assert!(matches!(r.nodes[0].state, NodeState::Done { .. }));
    assert!(matches!(r.nodes[1].state, NodeState::Done { .. }));
    assert!(matches!(r.nodes[2].state, NodeState::Shared(0)));
    let mut names = plan_names(&r);
    assert_eq!(names, vec!["A".to_string(), "B".to_string()]);
    names.sort();
    names.dedup();
    assert_eq!(names.len(), 2);
    let forest = DepTree::build_all(&r);
    let b = &forest[0].leaves[0];
    assert!(!b.shared);
    assert!(b.leaves[0].shared);
    assert!(b.leaves[0].leaves.is_empty());
    assert!(matches!(b.leaves[0].outcome, ResolutionOutcome::ResolvedAur));
    assert_eq!(w.info_calls, vec!["A".to_string(), "B".to_string()]);
}

#[test]
fn one_miss_does_not_stop_the_run() {
    let mut w = world();
    w.syncs = vec![vec![repo("x", "1", &[], &[])]];
    w.aur = vec![aur("y", "1", &["z"], &[])];
    let r = run(&["x", "y"], &mut w);
    assert!(matches!(outcome_of(&r, "x"), ResolutionOutcome::ResolvedRepo));
    assert!(matches!(outcome_of(&r, "y"), ResolutionOutcome::ResolvedAur));
    assert!(matches!(
        outcome_of(&r, "z"),
        ResolutionOutcome::Unresolved(UnresolvedReason::NotFound)
    ));
    let err = r.finish().unwrap_err();
    assert_eq!(err.unresolved, vec!["z".to_string()]);
    assert!(err.ambiguous.is_empty());
    let forest = DepTree::build_all(&r);
    assert_eq!(forest.len(), 2);
    assert!(matches!(forest[0].outcome, ResolutionOutcome::ResolvedRepo));
    assert_eq!(plan_names(&r), vec!["x".to_string(), "y".to_string()]);
}

#[test]
fn shared_aur_dependency_is_fetched_once() {
    let mut w = world();
    w.aur = vec![
        aur("p", "1", &["libfoo"], &[]),
        aur("q", "1", &["libfoo"], &[]),
        aur("libfoo", "1", &[], &[]),
    ];
    let r = run(&["p", "q"], &mut w);
    let count = w.info_calls.iter().filter(|n| *n == "libfoo").count();
    assert_eq!(count, 1);
    assert_eq!(
        plan_names(&r),
        vec!["libfoo".to_string(), "p".to_string(), "q".to_string()]
    );
    assert!(matches!(r.nodes[3].state, NodeState::Shared(2)));
}

#[test]
fn network_fault_marks_only_that_request() {
    let mut w = world();
    w.aur = vec![aur("a", "1", &["b", "c"], &[]), aur("c", "1", &[], &[])];
    w.down = vec!["b".to_string()];
    let r = run(&["a"], &mut w);
    assert!(matches!(
        outcome_of(&r, "b"),
        ResolutionOutcome::Unresolved(UnresolvedReason::NetworkError)
    ));
    assert!(matches!(outcome_of(&r, "c"), ResolutionOutcome::ResolvedAur));
    assert_eq!(r.finish().unwrap_err().unresolved, vec!["b".to_string()]);
}

#[test]
fn several_providers_are_ambiguous() {
    let mut w = world();
    let mut one = aur("impl-one", "1", &[], &[]);
    one.provides = vec!["virt".to_string()];
    let mut two = aur("impl-two", "1", &[], &[]);
    two.provides = vec!["virt".to_string()];
    w.aur = vec![one, two];
    let r = run(&["virt"], &mut w);
    match outcome_of(&r, "virt") {
        ResolutionOutcome::Ambiguous(c) => {
            assert_eq!(c, &vec!["impl-one".to_string(), "impl-two".to_string()])
        }
        other => panic!("unexpected {:?}", other),
    }
    let err = r.finish().unwrap_err();
    assert!(err.unresolved.is_empty());
    assert_eq!(err.ambiguous, vec!["virt".to_string()]);
}

#[test]
fn single_provider_is_taken() {
    let mut w = world();
    let mut one = aur("impl-one", "1", &["dep"], &[]);
    one.provides = vec!["virt".to_string()];
    w.aur = vec![one];
    w.local = vec![repo("dep", "1", &[], &[])];
    let r = run(&["virt"], &mut w);
    assert!(matches!(outcome_of(&r, "virt"), ResolutionOutcome::ResolvedAur));
    assert_eq!(plan_names(&r), vec!["impl-one".to_string()]);
    assert_eq!(w.info_calls, vec!["virt".to_string(), "impl-one".to_string()]);
    assert_eq!(w.provides_calls, vec!["virt".to_string()]);
}

#[test]
fn malformed_request_is_settled_without_a_question() {
    let mut w = world();
    w.aur = vec![aur("a", "1", &["b>="], &[])];
    let r = run(&["a"], &mut w);
    assert!(matches!(
        outcome_of(&r, "b>="),
        ResolutionOutcome::Unresolved(UnresolvedReason::InvalidSpec)
    ));
    assert_eq!(w.info_calls, vec!["a".to_string()]);
}

#[test]
fn aur_version_must_meet_the_constraint() {
    let mut w = world();
    w.aur = vec![aur("a", "1", &["b>=2"], &[]), aur("b", "1.5", &[], &[])];
    let r = run(&["a"], &mut w);
    assert!(matches!(
        outcome_of(&r, "b>=2"),
        ResolutionOutcome::Unresolved(UnresolvedReason::NotFound)
    ));
    let mut w = world();
    w.aur = vec![aur("a", "1", &["b>=2"], &[]), aur("b", "2.1", &[], &[])];
    let r = run(&["a"], &mut w);
    assert!(matches!(outcome_of(&r, "b>=2"), ResolutionOutcome::ResolvedAur));
    assert_eq!(plan_names(&r), vec!["b".to_string(), "a".to_string()]);
}

#[test]
fn no_targets_finish_at_once() {
    let mut w = world();
    let r = run(&[], &mut w);
    assert!(r.nodes.is_empty());
    assert!(plan_names(&r).is_empty());
    assert!(r.finish().unwrap().names.is_empty());
    assert!(DepTree::build_all(&r).is_empty());
}

#[test]
fn preloaded_records_are_not_fetched_again() {
    let mut w = world();
    w.aur = vec![aur("a", "1", &["b"], &[]), aur("b", "1", &[], &[])];
    let targets = vec!["a".to_string(), "gone".to_string()];
    let mut r = Resolver::new(&targets, 0);
    r.preload(&targets, &vec![aur("a", "1", &["b"], &[])]);
    loop {
        match r.advance() {
            Step::Finished => break,
            Step::Progress => {}
            Step::ArenaFull => panic!("arena full"),
            Step::Ask(q) => {
                let a = reply(&mut w, &q);
                assert!(r.answer(a));
            }
        }
    }
    assert_eq!(w.info_calls, vec!["b".to_string()]);
    assert_eq!(w.provides_calls, vec!["gone".to_string()]);
    assert_eq!(plan_names(&r), vec!["b".to_string(), "a".to_string()]);
    assert!(matches!(
        outcome_of(&r, "gone"),
        ResolutionOutcome::Unresolved(UnresolvedReason::NotFound)
    ));
}

#[test]
fn a_package_that_meets_two_requests_is_planned_once() {
    let mut w = world();
    w.syncs = vec![vec![
        repo("bash", "5.2", &["glibc"], &["sh"]),
        repo("glibc", "2.38", &[], &[]),
    ]];
    w.aur = vec![aur("tool", "1", &["sh", "bash>=5"], &["bash"])];
    let r = run(&["tool"], &mut w);
    assert!(matches!(outcome_of(&r, "sh"), ResolutionOutcome::ResolvedRepo));
    assert!(matches!(outcome_of(&r, "bash>=5"), ResolutionOutcome::ResolvedRepo));
    assert_eq!(
        plan_names(&r),
        vec!["glibc".to_string(), "bash".to_string(), "tool".to_string()]
    );
    let plan = r.plan();
    assert_eq!(plan, vec![4usize, 1usize, 0usize]);
}

#[test]
fn cycle_through_a_provided_name_still_ends() {
    let mut w = world();
    let mut b = aur("b", "1", &["a"], &[]);
    b.provides = vec!["virt".to_string()];
    w.aur = vec![aur("a", "1", &["virt"], &[]), b];
    let r = run(&["a"], &mut w);
    assert_eq!(plan_names(&r), vec!["a".to_string(), "b".to_string()]);
    assert!(r.finish().is_ok());
}

#[test]
fn provider_that_was_settled_is_not_looked_up() {
    let mut w = world();
    let mut b = aur("b", "1", &[], &[]);
    b.provides = vec!["virt".to_string()];
    w.aur = vec![b];
    let r = run(&["b", "virt"], &mut w);
    assert_eq!(w.info_calls, vec!["b".to_string(), "virt".to_string()]);
    assert_eq!(w.provides_calls, vec!["virt".to_string()]);
    assert!(matches!(outcome_of(&r, "virt"), ResolutionOutcome::ResolvedAur));
    assert_eq!(plan_names(&r), vec!["b".to_string()]);

    let mut w = world();
    w.local = vec![repo("b", "1", &[], &[])];
    let mut b = aur("b", "1", &[], &[]);
    b.provides = vec!["virt".to_string()];
    w.aur = vec![b];
    let r = run(&["b", "virt"], &mut w);
    assert_eq!(w.info_calls, vec!["virt".to_string()]);
    assert!(matches!(outcome_of(&r, "virt"), ResolutionOutcome::AlreadySatisfiedLocally));
    assert!(plan_names(&r).is_empty());
}
