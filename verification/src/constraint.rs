//! Version constraints: the comparison operators of a dependency string and
//! the test of a candidate version against them.

use vstd::prelude::*;
use vstd::string::StrSliceExecFns;
use crate::order::VersionOrder;
use crate::version::{compare_versions, version_order};

verus! {

/// A comparison operator of a dependency string.
#[derive(Clone, Copy, Debug, PartialEq, Eq, Structural)]
pub enum Comparator {
    /// `=` or `==`
    Equal,
    /// `<`
    Less,
    /// `<=`
    LessEqual,
    /// `>`
    Greater,
    /// `>=`
    GreaterEqual,
}

/// The operator that a piece of text denotes, if it denotes one.
pub open spec fn comparator_of(op: Seq<char>) -> Option<Comparator> {
    if op == seq!['='] || op == seq!['=', '='] {
        Some(Comparator::Equal)
    } else if op == seq!['<'] {
        Some(Comparator::Less)
    } else if op == seq!['<', '='] {
        Some(Comparator::LessEqual)
    } else if op == seq!['>'] {
        Some(Comparator::Greater)
    } else if op == seq!['>', '='] {
        Some(Comparator::GreaterEqual)
    } else {
        None
    }
}

/// Whether a candidate that stands in `order` to the required version meets
/// the operator.
pub open spec fn admits(c: Comparator, order: VersionOrder) -> bool {
    match c {
        Comparator::Equal => order == VersionOrder::Same,
        Comparator::Less => order == VersionOrder::Older,
        Comparator::LessEqual => order != VersionOrder::Newer,
        Comparator::Greater => order == VersionOrder::Newer,
        Comparator::GreaterEqual => order != VersionOrder::Older,
    }
}

/// Whether version `ver` meets the requirement `req_ord req_ver`; `None`
/// when `req_ord` is no operator.
pub open spec fn requirement_met(req_ord: Seq<char>, req_ver: Seq<char>, ver: Seq<char>) -> Option<
    bool,
> {
    match comparator_of(req_ord) {
        Some(c) => Some(admits(c, version_order(ver, req_ver))),
        None => None,
    }
}

/// Reads an operator.
pub fn parse_operator(op: &str) -> (r: Option<Comparator>)
    ensures
        r == comparator_of(op@),
{
    let len: usize = op.unicode_len();
    if len == 1 {
        let c: char = op.get_char(0);
        proof {
            assert(op@ =~= seq![c]);
            assert(seq![c][0] == c);
        }
        if c == '=' {
            Some(Comparator::Equal)
        } else if c == '<' {
            Some(Comparator::Less)
        } else if c == '>' {
            Some(Comparator::Greater)
        } else {
            proof {
                assert(seq!['='][0] == '=' && seq!['<'][0] == '<' && seq!['>'][0] == '>');
            }
            None
        }
    } else if len == 2 {
        let c: char = op.get_char(0);
        let d: char = op.get_char(1);
        proof {
            assert(op@ =~= seq![c, d]);
            assert(seq!['=', '='][0] == '=' && seq!['=', '='][1] == '=');
            assert(seq!['<', '='][0] == '<' && seq!['<', '='][1] == '=');
            assert(seq!['>', '='][0] == '>' && seq!['>', '='][1] == '=');
        }
        if d != '=' {
            None
        } else if c == '=' {
            Some(Comparator::Equal)
        } else if c == '<' {
            Some(Comparator::LessEqual)
        } else if c == '>' {
            Some(Comparator::GreaterEqual)
        } else {
            None
        }
    } else {
        proof {
            assert(seq!['='].len() == 1 && seq!['<'].len() == 1 && seq!['>'].len() == 1);
            assert(seq!['=', '='].len() == 2 && seq!['<', '='].len() == 2 && seq!['>', '='].len()
                == 2);
        }
        None
    }
}

/// Tells whether a comparison result meets an operator.
pub fn comparator_admits(c: Comparator, order: VersionOrder) -> (r: bool)
    ensures
        r == admits(c, order),
{
    match c {
        Comparator::Equal => order == VersionOrder::Same,
        Comparator::Less => order == VersionOrder::Older,
        Comparator::LessEqual => order != VersionOrder::Newer,
        Comparator::Greater => order == VersionOrder::Newer,
        Comparator::GreaterEqual => order != VersionOrder::Older,
    }
}

/// Tests version `ver` against the requirement made of the operator
/// `req_ord` and the version `req_ver`. Returns `None` when `req_ord` is not
/// one of `=`, `==`, `<`, `<=`, `>`, `>=`.
pub fn check_version_requirement(req_ord: &str, req_ver: &str, ver: &str) -> (r: Option<bool>)
    ensures
        r == requirement_met(req_ord@, req_ver@, ver@),
{
    match parse_operator(req_ord) {
        Some(c) => Some(comparator_admits(c, compare_versions(ver, req_ver))),
        None => None,
    }
}

} // verus!
