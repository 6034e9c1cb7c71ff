//! What passes between the resolution machine and whoever drives it: the
//! questions that the machine hands out and the answers that it takes.

use vstd::prelude::*;
use crate::names::position;
use crate::package::{texts, AurPackage, AurPackageView, RepoPackage, RepoPackageView};

verus! {

/// A question for the driver.
#[derive(Debug)]
pub enum Query {
    /// Which installed package meets this dependency string?
    Local(String),
    /// Which package of the sync repository with this index meets this
    /// dependency string?
    Sync(usize, String),
    /// What record does the AUR hold under this name?
    AurInfo(String),
    /// Which AUR packages provide this name?
    AurProvides(String),
}

pub enum QueryView {
    Local(Seq<char>),
    Sync(usize, Seq<char>),
    AurInfo(Seq<char>),
    AurProvides(Seq<char>),
}

impl View for Query {
    type V = QueryView;

    open spec fn view(&self) -> QueryView {
        match self {
            Query::Local(s) => QueryView::Local(s@),
            Query::Sync(i, s) => QueryView::Sync(*i, s@),
            Query::AurInfo(s) => QueryView::AurInfo(s@),
            Query::AurProvides(s) => QueryView::AurProvides(s@),
        }
    }
}

/// The driver's answer to a question.
#[derive(Debug)]
pub enum Answer {
    /// The satisfier that a database found, if it found one.
    Package(Option<RepoPackage>),
    /// The records that the AUR returned.
    Records(Vec<AurPackage>),
    /// The names of the packages that the AUR returned.
    Names(Vec<String>),
    /// The lookup failed.
    NetworkError,
}

pub enum AnswerView {
    Package(Option<RepoPackageView>),
    Records(Seq<AurPackageView>),
    Names(Seq<Seq<char>>),
    NetworkError,
}

/// What a list of records holds.
pub open spec fn records_of(v: Seq<AurPackage>) -> Seq<AurPackageView> {
    Seq::new(v.len(), |i: int| v[i]@)
}

/// The names of a list of records.
pub open spec fn record_names(v: Seq<AurPackageView>) -> Seq<Seq<char>> {
    Seq::new(v.len(), |i: int| v[i].name)
}

impl View for Answer {
    type V = AnswerView;

    open spec fn view(&self) -> AnswerView {
        match self {
            Answer::Package(Some(p)) => AnswerView::Package(Some(p@)),
            Answer::Package(None) => AnswerView::Package(None),
            Answer::Records(v) => AnswerView::Records(records_of(v@)),
            Answer::Names(v) => AnswerView::Names(texts(v@)),
            Answer::NetworkError => AnswerView::NetworkError,
        }
    }
}

/// The first of `records` that goes by `name`, if there is one.
pub open spec fn record_named(records: Seq<AurPackageView>, name: Seq<char>) -> Option<
    AurPackageView,
> {
    let at = position(record_names(records), name);
    if at >= 0 {
        Some(records[at])
    } else {
        None
    }
}

/// Picks the first of `records` that goes by `name`.
pub fn find_record(records: &Vec<AurPackage>, name: &String) -> (r: Option<AurPackage>)
    ensures
        match r {
            Some(p) => record_named(records_of(records@), name@) == Some(p@),
            None => record_named(records_of(records@), name@) is None,
        },
{
    let ghost names = record_names(records_of(records@));
    let mut i: usize = 0;
    while i < records.len()
        invariant
            0 <= i <= records.len(),
            names == record_names(records_of(records@)),
            position(names, name@) == crate::names::position_from(names, name@, i as int),
        decreases records.len() - i,
    {
        proof {
            assert(names[i as int] == records@[i as int].name@);
        }
        if records[i].name == *name {
            return Some(records[i].duplicate());
        }
        i = i + 1;
    }
    None
}

} // verus!
