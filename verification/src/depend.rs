//! A parsed dependency: a package name with an optional version constraint.

use vstd::prelude::*;
use vstd::string::StrSliceExecFns;
use crate::constraint::{
    admits, comparator_admits, comparator_of, parse_operator, Comparator,
};

use crate::version::{
    compare_versions, dependency_name, dependency_operator, dependency_version, has_constraint,
    is_operator_char, lemma_operator_index, operator_index, operator_width, parse_dependency,
    version_order,
};

verus! {

/// Why a dependency string is refused.
#[derive(Clone, Copy, Debug, PartialEq, Eq, Structural)]
pub enum VersionParseError {
    /// Nothing stands before the operator, or the string is empty.
    EmptyName,
    /// An operator is there, but no version follows it.
    EmptyVersion,
}

/// An operator together with the version it compares against.
#[derive(Debug)]
pub struct VersionConstraint {
    pub comparator: Comparator,
    pub version: String,
}

/// A dependency: a name, and a constraint on the version when one is given.
#[derive(Debug)]
pub struct DependencySpec {
    pub name: String,
    pub constraint: Option<VersionConstraint>,
}

/// The mathematical view of a dependency.
pub struct DependencyView {
    pub name: Seq<char>,
    pub constraint: Option<(Comparator, Seq<char>)>,
}

impl View for VersionConstraint {
    type V = (Comparator, Seq<char>);

    open spec fn view(&self) -> (Comparator, Seq<char>) {
        (self.comparator, self.version@)
    }
}

impl View for DependencySpec {
    type V = DependencyView;

    open spec fn view(&self) -> DependencyView {
        DependencyView {
            name: self.name@,
            constraint: match self.constraint {
                Some(c) => Some(c@),
                None => None,
            },
        }
    }
}

/// The operator of a constrained dependency string.
pub open spec fn dependency_comparator(s: Seq<char>) -> Comparator {
    let at = operator_index(s, 0);
    let wide = operator_width(s, at) == 2;
    if s[at] == '=' {
        Comparator::Equal
    } else if s[at] == '<' {
        if wide {
            Comparator::LessEqual
        } else {
            Comparator::Less
        }
    } else {
        if wide {
            Comparator::GreaterEqual
        } else {
            Comparator::Greater
        }
    }
}

/// What a dependency string parses to.
pub open spec fn parsed_dependency(s: Seq<char>) -> Result<DependencyView, VersionParseError> {
    if dependency_name(s).len() == 0 {
        Err(VersionParseError::EmptyName)
    } else if !has_constraint(s) {
        Ok(DependencyView { name: dependency_name(s), constraint: None })
    } else if dependency_version(s).len() == 0 {
        Err(VersionParseError::EmptyVersion)
    } else {
        Ok(
            DependencyView {
                name: dependency_name(s),
                constraint: Some((dependency_comparator(s), dependency_version(s))),
            },
        )
    }
}

/// Whether a candidate version meets a dependency's constraint. A
/// dependency without constraint is met by every version.
pub open spec fn meets(dep: DependencyView, candidate: Seq<char>) -> bool {
    match dep.constraint {
        None => true,
        Some((c, required)) => admits(c, version_order(candidate, required)),
    }
}

/// The operator text that `parse_dependency` cuts out is always one of the
/// six operators.
pub proof fn lemma_operator_text(s: Seq<char>)
    requires
        has_constraint(s),
    ensures
        comparator_of(dependency_operator(s)) == Some(dependency_comparator(s)),
{
    lemma_operator_index(s, 0);
    let at = operator_index(s, 0);
    let op = dependency_operator(s);
    if operator_width(s, at) == 2 {
        assert(op =~= seq![s[at], '=']);
        assert(seq!['<', '='][0] == '<' && seq!['>', '='][0] == '>' && seq!['=', '='][0] == '=');
        assert(seq!['<'].len() == 1 && seq!['>'].len() == 1 && seq!['='].len() == 1);
    } else {
        assert(op =~= seq![s[at]]);
        assert(seq!['<'][0] == '<' && seq!['>'][0] == '>' && seq!['='][0] == '=');
        assert(seq!['<', '='].len() == 2 && seq!['>', '='].len() == 2 && seq!['=', '='].len()
            == 2);
    }
}

impl DependencySpec {
    /// Parses a dependency string such as `foo`, `foo=1.0` or `foo>=1.2.3`.
    /// Fails when the name is empty and when an operator is followed by no
    /// version.
    pub fn parse(spec: &String) -> (r: Result<DependencySpec, VersionParseError>)
        ensures
            match r {
                Ok(dep) => parsed_dependency(spec@) == Ok::<DependencyView, VersionParseError>(
                    dep@,
                ),
                Err(e) => parsed_dependency(spec@) == Err::<DependencyView, VersionParseError>(e),
            },
    {
        let (name, constraint) = parse_dependency(spec);
        if name.unicode_len() == 0 {
            return Err(VersionParseError::EmptyName);
        }
        match constraint {
            None => Ok(DependencySpec { name: name.to_owned(), constraint: None }),
            Some((op, version)) => {
                if version.unicode_len() == 0 {
                    return Err(VersionParseError::EmptyVersion);
                }
                proof {
                    lemma_operator_text(spec@);
                }
                match parse_operator(op) {
                    Some(comparator) => Ok(
                        DependencySpec {
                            name: name.to_owned(),
                            constraint: Some(
                                VersionConstraint { comparator, version: version.to_owned() },
                            ),
                        },
                    ),
                    None => {
                        proof {
                            assert(false);
                        }
                        vstd::pervasive::unreached()
                    },
                }
            },
        }
    }

    /// Tells whether `candidate_version` meets this dependency's constraint.
    pub fn satisfies(&self, candidate_version: &str) -> (r: bool)
        ensures
            r == meets(self@, candidate_version@),
    {
        match &self.constraint {
            None => true,
            Some(c) => comparator_admits(
                c.comparator,
                compare_versions(candidate_version, c.version.as_str()),
            ),
        }
    }
}

/// No character of `s` starts an operator.
pub open spec fn operator_free(s: Seq<char>) -> bool {
    forall|i: int| 0 <= i < s.len() ==> !is_operator_char(#[trigger] s[i])
}

proof fn lemma_operator_index_skips(s: Seq<char>, from: int, to: int)
    requires
        0 <= from <= to <= s.len(),
        forall|i: int| from <= i < to ==> !is_operator_char(#[trigger] s[i]),
    ensures
        operator_index(s, from) == operator_index(s, to),
    decreases to - from,
{
    if from < to {
        lemma_operator_index_skips(s, from + 1, to);
    }
}

/// A name alone parses to an unconstrained dependency on that name.
pub proof fn lemma_parse_name_alone(name: Seq<char>)
    requires
        name.len() > 0,
        operator_free(name),
    ensures
        parsed_dependency(name) == Ok::<DependencyView, VersionParseError>(
            DependencyView { name, constraint: None },
        ),
{
    lemma_operator_index_skips(name, 0, name.len() as int);
    assert(name.subrange(0, name.len() as int) =~= name);
}

/// Parsing recovers what a dependency string was put together from: for a
/// name free of operator characters, one of the six operators and a version,
/// the string `name operator version` parses to exactly that name, that
/// operator and that version. After a one-character operator the version
/// must not begin with `=`, which would be read as part of the operator.
pub proof fn lemma_parse_recovers(name: Seq<char>, op: Seq<char>, version: Seq<char>)
    requires
        name.len() > 0,
        operator_free(name),
        comparator_of(op) is Some,
        version.len() > 0,
        op.len() == 1 ==> version[0] != '=',
    ensures
        parsed_dependency(name + op + version) == Ok::<DependencyView, VersionParseError>(
            DependencyView { name, constraint: Some((comparator_of(op)->0, version)) },
        ),
{
    let s = name + op + version;
    let n = name.len() as int;
    assert(seq!['='].len() == 1 && seq!['<'].len() == 1 && seq!['>'].len() == 1);
    assert(seq!['=', '='].len() == 2 && seq!['<', '='].len() == 2 && seq!['>', '='].len() == 2);
    assert(seq!['='][0] == '=' && seq!['<'][0] == '<' && seq!['>'][0] == '>');
    assert(seq!['=', '='][0] == '=' && seq!['<', '='][0] == '<' && seq!['>', '='][0] == '>');
    assert(seq!['=', '='][1] == '=' && seq!['<', '='][1] == '=' && seq!['>', '='][1] == '=');
    assert(op.len() == 1 || op.len() == 2);
    assert(is_operator_char(op[0]));
    assert(op.len() == 2 ==> op[1] == '=');
    assert forall|i: int| 0 <= i < n implies !is_operator_char(#[trigger] s[i]) by {
        assert(s[i] == name[i]);
    }
    lemma_operator_index_skips(s, 0, n);
    assert(s[n] == op[0]);
    assert(operator_index(s, 0) == n);
    assert(s[n + 1] == if op.len() == 2 {
        op[1]
    } else {
        version[0]
    });
    assert(operator_width(s, n) == op.len());
    assert(dependency_name(s) =~= name);
    assert(dependency_operator(s) =~= op);
    assert(dependency_version(s) =~= version);
    lemma_operator_text(s);
}

} // verus!
