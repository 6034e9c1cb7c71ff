use rah::cache::{AurCache, Lookup};
use rah::package::{AurPackage, Pkg, PkgError, RepoPackage};

fn names(v: &[&str]) -> Vec<String> {
    v.iter().map(|s| s.to_string()).collect()
}

#[test]
fn repo_package_accessors() {
    let mut p = RepoPackage::named("bash", "5.2-1");
    p.depends = names(&["glibc", "readline>=8"]);
    p.provides = names(&["sh"]);
    p.opt_depends = names(&["bash-completion: for tab completion"]);
    let pkg = Pkg::from(p);
    assert_eq!(pkg.name(), "bash");
    assert_eq!(pkg.version(), "5.2-1");
    assert_eq!(pkg.depends(), names(&["glibc", "readline>=8"]));
    assert_eq!(pkg.provides(), names(&["sh"]));
    assert_eq!(pkg.opt_depends(), names(&["bash-completion: for tab completion"]));
    assert_eq!(pkg.make_depends(), Err(PkgError::NotApplicable));
    assert_eq!(pkg.check_depends(), Err(PkgError::NotApplicable));
    assert!(!pkg.is_aur());
}

#[test]
fn aur_package_accessors() {
    let mut p = AurPackage::named("paru", "2.0-1");
    p.depends = names(&["git"]);
    p.make_depends = names(&["cargo"]);
    p.check_depends = names(&["python"]);
    p.opt_depends = names(&["bat: colours"]);
    p.provides = names(&["aur-helper"]);
    let pkg = Pkg::from(p);
    assert_eq!(pkg.name(), "paru");
    assert_eq!(pkg.version(), "2.0-1");
    assert_eq!(pkg.depends(), names(&["git"]));
    assert_eq!(pkg.make_depends(), Ok(names(&["cargo"])));
    assert_eq!(pkg.check_depends(), Ok(names(&["python"])));
    assert_eq!(pkg.opt_depends(), names(&["bat: colours"]));
    assert_eq!(pkg.provides(), names(&["aur-helper"]));
    assert!(pkg.is_aur());
    let copy = pkg.duplicate();
    assert_eq!(copy.name(), "paru");
    assert_eq!(copy.make_depends(), Ok(names(&["cargo"])));
}

#[test]
fn cache_asks_for_each_name_once() {
    let mut cache = AurCache::new();
    let libfoo = "libfoo".to_string();
    let other = "other".to_string();
    assert!(!cache.knows(&libfoo));
    assert!(matches!(cache.get_or_fetch(&libfoo), Lookup::Fetch));
    assert!(cache.knows(&libfoo));
    assert!(matches!(cache.get_or_fetch(&libfoo), Lookup::Pending));
    assert!(matches!(cache.get_or_fetch(&other), Lookup::Fetch));
    cache.store(&libfoo, Some(AurPackage::named("libfoo", "1.2")));
    match cache.get_or_fetch(&libfoo) {
        Lookup::Found(p) => assert_eq!(p.version, "1.2"),
        other => panic!("unexpected {:?}", other),
    }
    cache.store(&other, None);
    assert!(matches!(cache.get_or_fetch(&other), Lookup::Missing));
    let third = "third".to_string();
    cache.fail(&third);
    assert!(matches!(cache.get_or_fetch(&third), Lookup::Failed));
    assert!(matches!(cache.get_or_fetch(&libfoo), Lookup::Found(_)));
    assert_eq!(cache.names.len(), 3);
}

#[test]
fn batch_asks_for_unknown_names_once() {
    let mut cache = AurCache::new();
    cache.store(&"known".to_string(), None);
    let asked = cache.batch(&names(&["a", "known", "b", "a", "b", "c"]));
    assert_eq!(asked, names(&["a", "b", "c"]));
    assert!(cache.batch(&names(&["a", "b", "c", "known"])).is_empty());
    assert!(matches!(cache.get_or_fetch(&"a".to_string()), Lookup::Pending));
    cache.store_all(
        &names(&["a", "b", "c"]),
        &vec![AurPackage::named("c", "3"), AurPackage::named("a", "1")],
    );
    match cache.get_or_fetch(&"a".to_string()) {
        Lookup::Found(p) => assert_eq!(p.version, "1"),
        other => panic!("unexpected {:?}", other),
    }
    assert!(matches!(cache.get_or_fetch(&"b".to_string()), Lookup::Missing));
    assert!(matches!(cache.get_or_fetch(&"c".to_string()), Lookup::Found(_)));
    assert!(matches!(cache.get_or_fetch(&"known".to_string()), Lookup::Missing));
}
