//! Checks made before a run, and what the system package manager's answers
//! mean: who runs the program, on which distribution, which dependencies are
//! unmet, and which packages the sync repositories hold.

use vstd::prelude::*;
use vstd::string::StringExecFns;
use crate::names::{chosen, pick_names};
use crate::package::{texts};
use crate::text::{contains_seq, contains_text, lines, split_on};

verus! {

/// Why the program cannot run here.
#[derive(Clone, Copy, Debug, PartialEq, Eq, Structural)]
pub enum ContextError {
    /// The user id of the process belongs to no user.
    UnknownUser(u32),
    /// The program is not run as root.
    NotRoot,
    /// The system does not look like an Arch-based distribution.
    NotArch,
}

/// The user id of the process, from `users::get_current_uid`. It depends on
/// who runs the program, so nothing is claimed of it.
#[verifier::external_body]
fn current_uid() -> (uid: u32) {
    users::get_current_uid()
}

/// Whether `users::get_user_by_uid` finds a user for `uid`. It depends on
/// the system's user database, so nothing is claimed of it.
#[verifier::external_body]
fn user_exists(uid: u32) -> (known: bool) {
    users::get_user_by_uid(uid).is_some()
}

/// Whether a process with user id `uid`, which belongs to a user or not, may
/// go on: the user must be known, and must be root.
pub open spec fn root_verdict(uid: u32, known: bool) -> Result<(), ContextError> {
    if !known {
        Err(ContextError::UnknownUser(uid))
    } else if uid != 0 {
        Err(ContextError::NotRoot)
    } else {
        Ok(())
    }
}

/// Decides whether a process with user id `uid` may go on.
pub fn check_root(uid: u32, known: bool) -> (r: Result<(), ContextError>)
    ensures
        r == root_verdict(uid, known),
{
    if !known {
        Err(ContextError::UnknownUser(uid))
    } else if uid != 0 {
        Err(ContextError::NotRoot)
    } else {
        Ok(())
    }
}

/// Fails unless the program is run by root. The result is the verdict on
/// the user id of the process, whatever that id is.
pub fn require_root() -> (r: Result<(), ContextError>)
    ensures
        exists|uid: u32, known: bool| r == #[trigger] root_verdict(uid, known),
{
    let uid: u32 = current_uid();
    let known: bool = user_exists(uid);
    let r = check_root(uid, known);
    proof {
        assert(r == root_verdict(uid, known));
    }
    r
}

/// Whether the content of the system's release file, if the file could be
/// read, names an Arch-based distribution.
pub open spec fn is_arch(os_release: Option<&str>) -> bool {
    match os_release {
        Some(data) => contains_seq(data@, "arch"@),
        None => false,
    }
}

/// Fails unless the system looks like an Arch-based distribution. Takes the
/// content of the system's release file, `None` when it could not be read.
pub fn check_exec_context(os_release: Option<&str>) -> (r: Result<(), ContextError>)
    ensures
        r == (if is_arch(os_release) {
            Ok::<(), ContextError>(())
        } else {
            Err::<(), ContextError>(ContextError::NotArch)
        }),
{
    match os_release {
        Some(data) => {
            if contains_text(data, "arch") {
                Ok(())
            } else {
                Err(ContextError::NotArch)
            }
        },
        None => Err(ContextError::NotArch),
    }
}

/// The exit code by which the package manager's dependency test says that
/// some dependencies are unmet.
pub const UNSATISFIED: i32 = 127;

/// The dependency test failed in itself.
#[derive(Debug)]
pub enum CheckError {
    /// The tool ended with another exit code, or with none; this is what it
    /// wrote to its error stream.
    Tool(String),
}

/// What the outcome of the dependency test means: with exit code 0 nothing
/// is unmet; with the exit code `UNSATISFIED` the unmet dependencies are the
/// non-empty lines of the output; anything else is a failure that carries
/// the tool's diagnostic text.
pub open spec fn unmet_dependencies(exit_code: Option<i32>, stdout: Seq<char>, stderr: Seq<char>) -> Result<
    Seq<Seq<char>>,
    Seq<char>,
> {
    if exit_code == Some(0i32) {
        Ok(Seq::empty())
    } else if exit_code == Some(UNSATISFIED) {
        Ok(lines(stdout))
    } else {
        Err(stderr)
    }
}

/// The arguments with which to run the package manager for a dependency
/// test of `names`: `-T` and then the names.
pub fn check_deps_arguments(names: &Vec<String>) -> (r: Vec<String>)
    ensures
        texts(r@) == seq!["-T"@] + texts(names@),
{
    let mut r: Vec<String> = Vec::new();
    r.push(String::from_str("-T"));
    let mut i: usize = 0;
    while i < names.len()
        invariant
            0 <= i <= names@.len(),
            r@.len() == i + 1,
            r@[0]@ == "-T"@,
            forall|k: int| 1 <= k <= i ==> (#[trigger] r@[k])@ == names@[k - 1]@,
        decreases names@.len() - i,
    {
        r.push(names[i].clone());
        i = i + 1;
    }
    proof {
        let want = seq!["-T"@] + texts(names@);
        assert forall|k: int| 0 <= k < want.len() implies texts(r@)[k] == want[k] by {
            if k > 0 {
                assert(r@[k]@ == names@[k - 1]@);
            }
        }
        assert(texts(r@) =~= want);
    }
    r
}

/// Reads the outcome of the package manager's dependency test.
pub fn check_deps(exit_code: Option<i32>, stdout: &str, stderr: &str) -> (r: Result<
    Vec<String>,
    CheckError,
>)
    ensures
        match r {
            Ok(unmet) => unmet_dependencies(exit_code, stdout@, stderr@) == Ok::<
                Seq<Seq<char>>,
                Seq<char>,
            >(texts(unmet@)),
            Err(CheckError::Tool(text)) => unmet_dependencies(exit_code, stdout@, stderr@) == Err::<
                Seq<Seq<char>>,
                Seq<char>,
            >(text@),
        },
{
    match exit_code {
        Some(code) => {
            if code == 0 {
                let none: Vec<String> = Vec::new();
                proof {
                    assert(texts(none@) =~= Seq::<Seq<char>>::empty());
                }
                return Ok(none);
            }
            if code == UNSATISFIED {
                return Ok(split_on(stdout, '\n'));
            }
            Err(CheckError::Tool(String::from_str(stderr)))
        },
        None => Err(CheckError::Tool(String::from_str(stderr))),
    }
}

/// The alternatives of the search pattern for the names from index `from`
/// on: each name is preceded by `$|^`.
pub open spec fn alternatives(names: Seq<Seq<char>>, from: int) -> Seq<char>
    decreases names.len() - from,
{
    if from < 0 || from >= names.len() {
        Seq::empty()
    } else {
        "$|^"@ + names[from] + alternatives(names, from + 1)
    }
}

/// The pattern by which the sync repositories are searched for packages of
/// exactly these names: `(^$|^a$|^b$)` for the names `a` and `b`.
pub open spec fn sync_pattern(names: Seq<Seq<char>>) -> Seq<char> {
    "(^"@ + alternatives(names, 0) + "$)"@
}

/// Builds the pattern by which the sync repositories are searched for
/// packages of exactly these names.
pub fn pacman_sync_pattern(pkgs: &Vec<String>) -> (r: String)
    ensures
        r@ == sync_pattern(texts(pkgs@)),
{
    let ghost names = texts(pkgs@);
    let mut r: String = String::from_str("(^");
    let mut i: usize = 0;
    proof {
        assert("(^"@ + alternatives(names, 0) =~= r@ + alternatives(names, 0));
    }
    while i < pkgs.len()
        invariant
            0 <= i <= pkgs@.len(),
            names == texts(pkgs@),
            r@ + alternatives(names, i as int) == "(^"@ + alternatives(names, 0),
        decreases pkgs@.len() - i,
    {
        let ghost before = r@;
        r.append("$|^");
        r.append(pkgs[i].as_str());
        proof {
            assert(names[i as int] == pkgs@[i as int]@);
            assert(r@ + alternatives(names, i + 1) =~= before + ("$|^"@ + names[i as int]
                + alternatives(names, i + 1)));
        }
        i = i + 1;
    }
    proof {
        assert(r@ + Seq::<char>::empty() =~= r@);
    }
    r.append("$)");
    r
}

/// The sync search was ended by a signal, so that it has no exit code.
#[derive(Clone, Copy, Debug, PartialEq, Eq, Structural)]
pub enum SplitError {
    Killed,
}

/// The names that the sync search found: the non-empty lines of its output
/// when it ended with exit code 0, none otherwise.
pub open spec fn sync_hits(exit_code: Option<i32>, output: Seq<char>) -> Seq<Seq<char>> {
    if exit_code == Some(0i32) {
        lines(output)
    } else {
        Seq::empty()
    }
}

/// A list that is `None` exactly when `want` is empty and holds `want`
/// otherwise.
pub open spec fn holds_or_none(got: Option<Vec<String>>, want: Seq<Seq<char>>) -> bool {
    match got {
        Some(v) => want.len() > 0 && texts(v@) == want,
        None => want.len() == 0,
    }
}

/// The names, or `None` when there are none.
fn some_names(names: Vec<String>) -> (r: Option<Vec<String>>)
    ensures
        holds_or_none(r, texts(names@)),
{
    proof {
        assert(texts(names@).len() == names@.len());
    }
    if names.len() == 0 {
        None
    } else {
        Some(names)
    }
}

/// Tells which of `pkgs` the sync repositories hold and which are left for
/// the AUR, from the outcome of a sync search for them: its exit code,
/// `None` when a signal ended it, and its output. The first list holds the
/// names that the search found, the second the others, each in the order of
/// `pkgs` and `None` when empty.
pub fn split_pacman_aur(pkgs: Vec<String>, exit_code: Option<i32>, output: &str) -> (r: Result<
    (Option<Vec<String>>, Option<Vec<String>>),
    SplitError,
>)
    ensures
        r is Err <==> exit_code is None,
        r matches Err(e) ==> e == SplitError::Killed,
        r matches Ok(lists) ==> {
            &&& holds_or_none(
                lists.0,
                chosen(texts(pkgs@), sync_hits(exit_code, output@), true, 0),
            )
            &&& holds_or_none(
                lists.1,
                chosen(texts(pkgs@), sync_hits(exit_code, output@), false, 0),
            )
        },
{
    match exit_code {
        None => Err(SplitError::Killed),
        Some(code) => {
            let found: Vec<String> = if code == 0 {
                split_on(output, '\n')
            } else {
                let none: Vec<String> = Vec::new();
                proof {
                    assert(texts(none@) =~= Seq::<Seq<char>>::empty());
                }
                none
            };
            let pacman = some_names(pick_names(&pkgs, &found, true));
            let aur = some_names(pick_names(&pkgs, &found, false));
            Ok((pacman, aur))
        },
    }
}

} // verus!
