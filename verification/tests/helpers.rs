use rah::helpers::{
    check_deps, check_deps_arguments, check_exec_context, check_root, pacman_sync_pattern,
    require_root, split_pacman_aur, CheckError, ContextError, SplitError, UNSATISFIED,
};
use rah::text::{contains_text, split_on};

fn names(v: &[&str]) -> Vec<String> {
    v.iter().map(|s| s.to_string()).collect()
}

#[test]
fn root_is_required() {
    assert_eq!(check_root(0, true), Ok(()));
    assert_eq!(check_root(1000, true), Err(ContextError::NotRoot));
    assert_eq!(check_root(1000, false), Err(ContextError::UnknownUser(1000)));
    assert_eq!(check_root(0, false), Err(ContextError::UnknownUser(0)));
}

#[test]
fn require_root_judges_the_current_user() {
    let uid = users::get_current_uid();
    let known = users::get_user_by_uid(uid).is_some();
    assert_eq!(require_root(), check_root(uid, known));
}

#[test]
fn exec_context_wants_arch() {
    assert_eq!(check_exec_context(Some("NAME=\"Arch Linux\"\nID=arch\n")), Ok(()));
    assert_eq!(check_exec_context(Some("ID=manjaro\nID_LIKE=arch\n")), Ok(()));
    assert_eq!(check_exec_context(Some("ID=debian\n")), Err(ContextError::NotArch));
    assert_eq!(check_exec_context(Some("")), Err(ContextError::NotArch));
    assert_eq!(check_exec_context(Some("ARCH")), Err(ContextError::NotArch));
    assert_eq!(check_exec_context(None), Err(ContextError::NotArch));
}

#[test]
fn text_search() {
    assert!(contains_text("abcarch", "arch"));
    assert!(contains_text("arch", "arch"));
    assert!(contains_text("anything", ""));
    assert!(contains_text("", ""));
    assert!(!contains_text("arc", "arch"));
    assert!(!contains_text("", "a"));
    assert!(contains_text("aarch", "arch"));
    assert!(!contains_text("ar ch", "arch"));
}

#[test]
fn fields_skip_empty_stretches() {
    assert_eq!(split_on("a\nb\n", '\n'), names(&["a", "b"]));
    assert_eq!(split_on("\n\na\n\n\nbc", '\n'), names(&["a", "bc"]));
    assert_eq!(split_on("", '\n'), Vec::<String>::new());
    assert_eq!(split_on("\n", '\n'), Vec::<String>::new());
    assert_eq!(split_on("core/linux", '/'), names(&["core", "linux"]));
}

#[test]
fn dependency_test_arguments() {
    assert_eq!(check_deps_arguments(&names(&["glibc", "foo>=2"])), names(&["-T", "glibc", "foo>=2"]));
    assert_eq!(check_deps_arguments(&vec![]), names(&["-T"]));
}

#[test]
fn dependency_test_outcomes() {
    assert_eq!(check_deps(Some(0), "ignored\n", "").unwrap(), Vec::<String>::new());
    assert_eq!(UNSATISFIED, 127);
    assert_eq!(
        check_deps(Some(127), "foo\nbar>=2\n", "").unwrap(),
        names(&["foo", "bar>=2"])
    );
    match check_deps(Some(1), "foo\n", "error: database locked") {
        Err(CheckError::Tool(text)) => assert_eq!(text, "error: database locked"),
        other => panic!("unexpected {:?}", other),
    }
    assert!(matches!(check_deps(None, "", "killed"), Err(CheckError::Tool(_))));
}

#[test]
fn sync_pattern_lists_each_name() {
    assert_eq!(pacman_sync_pattern(&names(&["a", "b"])), "(^$|^a$|^b$)");
    assert_eq!(pacman_sync_pattern(&names(&["linux"])), "(^$|^linux$)");
    assert_eq!(pacman_sync_pattern(&vec![]), "(^$)");
}

#[test]
fn split_by_sync_search() {
    let r = split_pacman_aur(names(&["git", "paru", "go"]), Some(0), "go\ngit\n").unwrap();
    assert_eq!(r.0, Some(names(&["git", "go"])));
    assert_eq!(r.1, Some(names(&["paru"])));
    let r = split_pacman_aur(names(&["git"]), Some(0), "git\n").unwrap();
    assert_eq!(r, (Some(names(&["git"])), None));
    let r = split_pacman_aur(names(&["paru", "yay"]), Some(1), "").unwrap();
    assert_eq!(r, (None, Some(names(&["paru", "yay"]))));
    let r = split_pacman_aur(names(&["paru"]), Some(1), "paru\n").unwrap();
    assert_eq!(r, (None, Some(names(&["paru"]))));
    let r = split_pacman_aur(vec![], Some(0), "").unwrap();
    assert_eq!(r, (None, None));
    assert_eq!(split_pacman_aur(names(&["git"]), None, "git\n"), Err(SplitError::Killed));
}
