//! What the sync commands show and check: which requested packages the AUR
//! does not have, and the text of search results and of package details.

use std::fmt::Write;
use chrono::TimeZone;
use vstd::prelude::*;
use vstd::string::StringExecFns;
use crate::colors::{BLUE, BOLD, CLEAR, GREEN, GREY, RED, WHITE, YELLOW_L};
use crate::names::{chosen, pick_names};
use crate::package::{opt_text, texts, AurPackage, AurPackageView};
use crate::protocol::{record_names, records_of};
use crate::render::{
    decimal, decimal_text, join, joined, list_or, listed_or, text_or, value_or,
};

verus! {

/// Where the AUR is.
pub const AUR_URL: &'static str = "https://aur.archlinux.org/";

/// The pattern for a day.
pub const DAY: &'static str = "%Y/%m/%d";

/// The pattern for a minute of a day.
pub const MINUTE: &'static str = "%Y-%m-%d %H: %M (UTC)";

/// The requested packages are not all in the AUR.
#[derive(Debug)]
pub enum SyncError {
    /// The message names the packages that were not found.
    NotFound(String),
}

/// The names, each followed by a blank.
pub open spec fn spaced(names: Seq<Seq<char>>, from: int) -> Seq<char>
    decreases names.len() - from,
{
    if from < 0 || from >= names.len() {
        Seq::empty()
    } else {
        names[from] + " "@ + spaced(names, from + 1)
    }
}

/// The message that names the packages that were not found.
pub open spec fn not_found_text(missing: Seq<Seq<char>>) -> Seq<char> {
    "Package(s) not found : "@ + spaced(missing, 0)
}

/// The names of the records.
pub fn names_of_records(hits: &Vec<AurPackage>) -> (r: Vec<String>)
    ensures
        texts(r@) == record_names(records_of(hits@)),
{
    let mut r: Vec<String> = Vec::new();
    let mut i: usize = 0;
    while i < hits.len()
        invariant
            0 <= i <= hits@.len(),
            r@.len() == i,
            forall|j: int| 0 <= j < i ==> (#[trigger] r@[j])@ == hits@[j].name@,
        decreases hits@.len() - i,
    {
        r.push(hits[i].name.clone());
        i = i + 1;
    }
    proof {
        assert(texts(r@) =~= record_names(records_of(hits@)));
    }
    r
}

/// Writes the message that names the packages that were not found.
pub fn not_found_message(missing: &Vec<String>) -> (r: String)
    ensures
        r@ == not_found_text(texts(missing@)),
{
    let ghost names = texts(missing@);
    let mut r: String = String::from_str("Package(s) not found : ");
    let mut i: usize = 0;
    proof {
        assert(r@ + spaced(names, 0) =~= not_found_text(names));
    }
    while i < missing.len()
        invariant
            0 <= i <= missing@.len(),
            names == texts(missing@),
            r@ + spaced(names, i as int) == not_found_text(names),
        decreases missing@.len() - i,
    {
        let ghost before = r@;
        r.append(missing[i].as_str());
        r.append(" ");
        proof {
            assert(names[i as int] == missing@[i as int]@);
            assert(r@ + spaced(names, i + 1) =~= before + (names[i as int] + " "@ + spaced(
                names,
                i + 1,
            )));
        }
        i = i + 1;
    }
    proof {
        assert(r@ + Seq::<char>::empty() =~= r@);
    }
    r
}

/// Checks that the AUR answered with as many records as packages were asked
/// for. If not, the error names every requested package that is not among
/// the records, in the order of the request.
pub fn sync(packages: &Vec<String>, hits: &Vec<AurPackage>) -> (r: Result<(), SyncError>)
    ensures
        r is Ok <==> hits@.len() == packages@.len(),
        r matches Err(SyncError::NotFound(message)) ==> message@ == not_found_text(
            chosen(texts(packages@), record_names(records_of(hits@)), false, 0),
        ),
{
    if hits.len() == packages.len() {
        return Ok(());
    }
    let found: Vec<String> = names_of_records(hits);
    let missing: Vec<String> = pick_names(packages, &found, false);
    Err(SyncError::NotFound(not_found_message(&missing)))
}

/// The moment `seconds` after the start of 1970, in UTC, written after
/// `pattern`; `None` where the moment is out of range or the pattern is not
/// one.
pub uninterp spec fn utc_text(seconds: i64, pattern: Seq<char>) -> Option<Seq<char>>;

/// Formats the moment that `chrono::Utc.timestamp_opt(seconds, 0)` gives
/// with `chrono::DateTime::format`. The text is a function of the seconds
/// and of the pattern; it is `None` where chrono has no such moment or
/// refuses the pattern.
#[verifier::external_body]
fn utc_format(seconds: i64, pattern: &str) -> (r: Option<String>)
    ensures
        opt_text(r) == utc_text(seconds, pattern@),
{
    let moment = chrono::Utc.timestamp_opt(seconds, 0).single()?;
    let mut text = String::new();
    write!(text, "{}", moment.format(pattern)).ok()?;
    Some(text)
}

/// The date as it is shown: the formatted moment, or `unknown date` where
/// there is none.
pub open spec fn date_text(seconds: i64, pattern: Seq<char>) -> Seq<char> {
    match utc_text(seconds, pattern) {
        Some(text) => text,
        None => "unknown date"@,
    }
}

/// Writes the date as it is shown.
pub fn date_of(seconds: i64, pattern: &str) -> (r: String)
    ensures
        r@ == date_text(seconds, pattern@),
{
    match utc_format(seconds, pattern) {
        Some(text) => text,
        None => String::from_str("unknown date"),
    }
}

/// `s` when `count` is not 1, nothing otherwise.
pub open spec fn plural(count: nat) -> Seq<char> {
    if count != 1 {
        "s"@
    } else {
        Seq::empty()
    }
}

/// The headline of a list of results: `:: Found` and then `what`, the
/// count and `package` or `packages`.
pub open spec fn headline(what: Seq<char>, count: nat) -> Seq<char> {
    BOLD@ + BLUE@ + ":: "@ + WHITE@ + "Found "@ + what + decimal(count) + " package"@ + plural(
        count,
    ) + CLEAR@
}

/// Writes the headline of a list of results.
pub fn found_header(what: &str, count: usize) -> (r: String)
    ensures
        r@ == headline(what@, count as nat),
{
    let mut r: String = String::from_str(BOLD);
    r.append(BLUE);
    r.append(":: ");
    r.append(WHITE);
    r.append("Found ");
    r.append(what);
    r.append(decimal_text(count as u64).as_str());
    r.append(" package");
    if count != 1 {
        r.append("s");
    }
    r.append(CLEAR);
    proof {
        assert(r@ =~= headline(what@, count as nat));
    }
    r
}

/// The warning that a search takes its first argument only.
pub open spec fn search_warning_text() -> Seq<char> {
    BOLD@ + YELLOW_L@ + "warning"@ + CLEAR@
        + " : search will only account for the first argument passed."@
}

/// The warning to show before a search for `count` arguments: one is due
/// when there are more arguments than one.
pub fn search_warning(count: usize) -> (r: Option<String>)
    ensures
        r is Some <==> count > 1,
        r matches Some(text) ==> text@ == search_warning_text(),
{
    if count > 1 {
        let mut r: String = String::from_str(BOLD);
        r.append(YELLOW_L);
        r.append("warning");
        r.append(CLEAR);
        r.append(" : search will only account for the first argument passed.");
        Some(r)
    } else {
        None
    }
}

/// The flag of a package that is out of date since `since` and was last
/// updated at `updated`.
pub open spec fn out_of_date_flag(since: Seq<char>, updated: Seq<char>) -> Seq<char> {
    RED@ + " [out of date since "@ + since + ", last update "@ + updated + "]"@ + CLEAR@
}

/// One search result: name and version, the flag where the package is out
/// of date, and the description on a line of its own.
pub open spec fn search_text(p: AurPackageView, since: Seq<char>, updated: Seq<char>) -> Seq<
    char,
> {
    BOLD@ + p.name + " "@ + GREEN@ + p.version + (if p.out_of_date is Some {
        out_of_date_flag(since, updated)
    } else {
        Seq::empty()
    }) + "\n"@ + CLEAR@ + "    "@ + value_or(p.description, "No description."@)
}

/// Writes one search result; `since` and `updated` are the dates to show
/// where the package is out of date.
pub fn search_entry(pkg: &AurPackage, since: &str, updated: &str) -> (r: String)
    ensures
        r@ == search_text(pkg@, since@, updated@),
{
    let mut r: String = String::from_str(BOLD);
    r.append(pkg.name.as_str());
    r.append(" ");
    r.append(GREEN);
    r.append(pkg.version.as_str());
    if pkg.out_of_date.is_some() {
        r.append(RED);
        r.append(" [out of date since ");
        r.append(since);
        r.append(", last update ");
        r.append(updated);
        r.append("]");
        r.append(CLEAR);
    }
    r.append("\n");
    r.append(CLEAR);
    r.append("    ");
    r.append(text_or(&pkg.description, "No description.").as_str());
    proof {
        assert(r@ =~= search_text(pkg@, since@, updated@));
    }
    r
}

/// The search result for `p` with its dates formatted by day.
pub open spec fn search_line(p: AurPackageView) -> Seq<char> {
    match p.out_of_date {
        Some(flagged) => search_text(p, date_text(flagged, DAY@), date_text(p.last_modified, DAY@)),
        None => search_text(p, Seq::empty(), Seq::empty()),
    }
}

/// The lines of a search: the headline and then one result for each package.
pub open spec fn search_lines(hits: Seq<AurPackageView>) -> Seq<Seq<char>> {
    seq![headline(Seq::empty(), hits.len())] + Seq::new(hits.len(), |i: int| search_line(hits[i]))
}

/// Writes the lines of a search.
pub fn search(hits: &Vec<AurPackage>) -> (r: Vec<String>)
    ensures
        texts(r@) == search_lines(records_of(hits@)),
{
    let mut r: Vec<String> = Vec::new();
    proof {
        reveal_strlit("");
        assert(""@ =~= Seq::<char>::empty());
    }
    r.push(found_header("", hits.len()));
    let mut i: usize = 0;
    while i < hits.len()
        invariant
            0 <= i <= hits@.len(),
            r@.len() == i + 1,
            r@[0]@ == headline(Seq::empty(), hits@.len()),
            forall|k: int| 1 <= k <= i ==> (#[trigger] r@[k])@ == search_line(hits@[k - 1]@),
        decreases hits@.len() - i,
    {
        proof {
            reveal_strlit("");
            assert(""@ =~= Seq::<char>::empty());
        }
        let line: String = match hits[i].out_of_date {
            Some(flagged) => {
                let since: String = date_of(flagged, DAY);
                let updated: String = date_of(hits[i].last_modified, DAY);
                search_entry(&hits[i], since.as_str(), updated.as_str())
            },
            None => search_entry(&hits[i], "", ""),
        };
        r.push(line);
        i = i + 1;
    }
    proof {
        let want = search_lines(records_of(hits@));
        assert forall|k: int| 0 <= k < want.len() implies texts(r@)[k] == want[k] by {
            if k > 0 {
                assert(r@[k]@ == search_line(hits@[k - 1]@));
            }
        }
        assert(texts(r@) =~= want);
    }
    r
}

/// A line of package details: the label in bold, then the value.
pub open spec fn labelled(label: Seq<char>, value: Seq<char>) -> Seq<char> {
    BOLD@ + label + CLEAR@ + value
}

/// Writes a line of package details.
pub fn label(name: &str, value: &str) -> (r: String)
    ensures
        r@ == labelled(name@, value@),
{
    let mut r: String = String::from_str(BOLD);
    r.append(name);
    r.append(CLEAR);
    r.append(value);
    r
}

/// The line that tells whether the package is flagged out of date, and
/// since when.
pub open spec fn out_of_date_line(flagged: Option<Seq<char>>) -> Seq<char> {
    match flagged {
        Some(since) => BOLD@ + "Out of date \t\t: "@ + RED@ + "Flagged out of date since "@ + since
            + CLEAR@,
        None => BOLD@ + "Out of date \t\t: "@ + CLEAR@ + GREY@ + "Not flagged out of date"@
            + CLEAR@,
    }
}

/// The upstream address, or a grey note that there is none.
pub open spec fn upstream_text(url: Option<Seq<char>>) -> Seq<char> {
    match url {
        Some(u) => u,
        None => GREY@ + "No upstream URL."@,
    }
}

/// The details of a package, line by line; `flagged`, `first` and `last`
/// are the dates to show for the flag, the first submission and the last
/// update. An empty line ends the details.
pub open spec fn info_text(
    p: AurPackageView,
    flagged: Option<Seq<char>>,
    first: Seq<char>,
    last: Seq<char>,
) -> Seq<Seq<char>> {
    seq![
        labelled("Name \t\t\t: "@, p.name),
        labelled("Version \t\t: "@, p.version),
        labelled("Package base \t\t: "@, p.package_base),
        labelled("Votes \t\t\t: "@, decimal(p.num_votes as nat)),
        labelled("Popularity \t\t: "@, p.popularity),
        labelled("Description \t\t: "@, value_or(p.description, "No description."@)),
        labelled("Submitter \t\t: "@, value_or(p.submitter, "No submitter."@)),
        labelled("Maintainer \t\t: "@, value_or(p.maintainer, "No maintainer."@)),
        labelled("Co-maintainers \t\t: "@, listed_or(p.co_maintainers, "No co-maintainers."@)),
        out_of_date_line(flagged),
        labelled("First submitted \t: "@, first),
        labelled("Last updated \t\t: "@, last),
        labelled("Git clone URL \t\t: "@, AUR_URL@ + p.package_base + ".git"@),
        labelled("Upstream URL \t\t: "@, upstream_text(p.url)),
        labelled("Tarball URL \t\t: "@, AUR_URL@ + p.url_path),
        labelled("Licenses \t\t: "@, joined(p.license, ", "@)),
        labelled("Groups \t\t\t: "@, listed_or(p.groups, "No groups."@)),
        labelled("Provides \t\t: "@, listed_or(p.provides, "No provides."@)),
        labelled("Depends \t\t: "@, listed_or(p.depends, "No dependencies."@)),
        labelled(
            "Opt. dependencies \t: "@,
            listed_or(p.opt_depends, "No optionnal dependencies."@),
        ),
        labelled("Make dependencies \t: "@, listed_or(p.make_depends, "No make dependencies."@)),
        labelled(
            "Check dependencies \t: "@,
            listed_or(p.check_depends, "No check dependencies."@),
        ),
        labelled("Conflicts \t\t: "@, listed_or(p.conflicts, "No conflicts."@)),
        labelled("Replaces \t\t: "@, listed_or(p.replaces, "No replaces."@)),
        labelled("Keywords\t\t: "@, listed_or(p.keywords, "No keywords."@)),
        Seq::empty(),
    ]
}

/// Writes the line that tells whether the package is flagged out of date.
pub fn out_of_date_entry(flagged: &Option<String>) -> (r: String)
    ensures
        r@ == out_of_date_line(opt_text(*flagged)),
{
    let mut r: String = String::from_str(BOLD);
    r.append("Out of date \t\t: ");
    match flagged {
        Some(since) => {
            r.append(RED);
            r.append("Flagged out of date since ");
            r.append(since.as_str());
            r.append(CLEAR);
        },
        None => {
            r.append(CLEAR);
            r.append(GREY);
            r.append("Not flagged out of date");
            r.append(CLEAR);
        },
    }
    r
}

/// Writes the details of a package, line by line.
pub fn info_entry(pkg: &AurPackage, flagged: &Option<String>, first: &str, last: &str) -> (r: Vec<
    String,
>)
    ensures
        texts(r@) == info_text(pkg@, opt_text(*flagged), first@, last@),
{
    let mut clone_url: String = String::from_str(AUR_URL);
    clone_url.append(pkg.package_base.as_str());
    clone_url.append(".git");
    let mut tarball: String = String::from_str(AUR_URL);
    tarball.append(pkg.url_path.as_str());
    let upstream: String = match &pkg.url {
        Some(u) => u.clone(),
        None => {
            let mut none: String = String::from_str(GREY);
            none.append("No upstream URL.");
            none
        },
    };
    let mut r: Vec<String> = Vec::new();
    r.push(label("Name \t\t\t: ", pkg.name.as_str()));
    r.push(label("Version \t\t: ", pkg.version.as_str()));
    r.push(label("Package base \t\t: ", pkg.package_base.as_str()));
    r.push(label("Votes \t\t\t: ", decimal_text(pkg.num_votes as u64).as_str()));
    r.push(label("Popularity \t\t: ", pkg.popularity.as_str()));
    r.push(label("Description \t\t: ", text_or(&pkg.description, "No description.").as_str()));
    r.push(label("Submitter \t\t: ", text_or(&pkg.submitter, "No submitter.").as_str()));
    r.push(label("Maintainer \t\t: ", text_or(&pkg.maintainer, "No maintainer.").as_str()));
    r.push(
        label(
            "Co-maintainers \t\t: ",
            list_or(&pkg.co_maintainers, "No co-maintainers.").as_str(),
        ),
    );
    r.push(out_of_date_entry(flagged));
    r.push(label("First submitted \t: ", first));
    r.push(label("Last updated \t\t: ", last));
    r.push(label("Git clone URL \t\t: ", clone_url.as_str()));
    r.push(label("Upstream URL \t\t: ", upstream.as_str()));
    r.push(label("Tarball URL \t\t: ", tarball.as_str()));
    r.push(label("Licenses \t\t: ", join(&pkg.license, ", ").as_str()));
    r.push(label("Groups \t\t\t: ", list_or(&pkg.groups, "No groups.").as_str()));
    r.push(label("Provides \t\t: ", list_or(&pkg.provides, "No provides.").as_str()));
    r.push(label("Depends \t\t: ", list_or(&pkg.depends, "No dependencies.").as_str()));
    r.push(
        label(
            "Opt. dependencies \t: ",
            list_or(&pkg.opt_depends, "No optionnal dependencies.").as_str(),
        ),
    );
    r.push(
        label(
            "Make dependencies \t: ",
            list_or(&pkg.make_depends, "No make dependencies.").as_str(),
        ),
    );
    r.push(
        label(
            "Check dependencies \t: ",
            list_or(&pkg.check_depends, "No check dependencies.").as_str(),
        ),
    );
    r.push(label("Conflicts \t\t: ", list_or(&pkg.conflicts, "No conflicts.").as_str()));
    r.push(label("Replaces \t\t: ", list_or(&pkg.replaces, "No replaces.").as_str()));
    r.push(label("Keywords\t\t: ", list_or(&pkg.keywords, "No keywords.").as_str()));
    r.push(String::new());
    proof {
        assert(texts(r@) =~= info_text(pkg@, opt_text(*flagged), first@, last@));
    }
    r
}

/// The dates of a package as its details show them, formatted by minute.
pub open spec fn info_block(p: AurPackageView) -> Seq<Seq<char>> {
    info_text(
        p,
        match p.out_of_date {
            Some(flagged) => Some(date_text(flagged, MINUTE@)),
            None => None,
        },
        date_text(p.first_submitted, MINUTE@),
        date_text(p.last_modified, MINUTE@),
    )
}

/// The lines that show the details of the packages from index `from` on.
pub open spec fn info_blocks(hits: Seq<AurPackageView>, from: int) -> Seq<Seq<char>>
    decreases hits.len() - from,
{
    if from < 0 || from >= hits.len() {
        Seq::empty()
    } else {
        info_block(hits[from]) + info_blocks(hits, from + 1)
    }
}

/// The lines that show the details of packages: the headline and then the
/// details of each package.
pub open spec fn info_lines(hits: Seq<AurPackageView>) -> Seq<Seq<char>> {
    seq![headline("info for "@, hits.len())] + info_blocks(hits, 0)
}

/// Appends copies of the strings of `from` to `to`.
fn extend(to: &mut Vec<String>, from: &Vec<String>)
    ensures
        texts(final(to)@) == texts(old(to)@) + texts(from@),
{
    let ghost start = texts(to@);
    let mut i: usize = 0;
    proof {
        assert(texts(from@).subrange(0, 0) =~= Seq::<Seq<char>>::empty());
        assert(start + Seq::<Seq<char>>::empty() =~= start);
    }
    while i < from.len()
        invariant
            0 <= i <= from@.len(),
            texts(to@) == start + texts(from@).subrange(0, i as int),
        decreases from@.len() - i,
    {
        let ghost before = texts(to@);
        to.push(from[i].clone());
        proof {
            let all = texts(from@);
            assert(texts(to@) =~= before.push(from@[i as int]@));
            assert(start + all.subrange(0, i + 1) =~= (start + all.subrange(0, i as int)).push(
                all[i as int],
            ));
        }
        i = i + 1;
    }
    proof {
        assert(texts(from@).subrange(0, from@.len() as int) =~= texts(from@));
    }
}

/// Writes the lines that show the details of packages.
pub fn info(hits: &Vec<AurPackage>) -> (r: Vec<String>)
    ensures
        texts(r@) == info_lines(records_of(hits@)),
{
    let ghost all = records_of(hits@);
    let mut r: Vec<String> = Vec::new();
    r.push(found_header("info for ", hits.len()));
    let mut i: usize = 0;
    proof {
        assert(texts(r@) =~= seq![headline("info for "@, hits@.len())]);
        assert(texts(r@) + info_blocks(all, 0) =~= info_lines(all));
    }
    while i < hits.len()
        invariant
            0 <= i <= hits@.len(),
            all == records_of(hits@),
            texts(r@) + info_blocks(all, i as int) == info_lines(all),
        decreases hits@.len() - i,
    {
        let flagged: Option<String> = match hits[i].out_of_date {
            Some(at) => Some(date_of(at, MINUTE)),
            None => None,
        };
        let first: String = date_of(hits[i].first_submitted, MINUTE);
        let last: String = date_of(hits[i].last_modified, MINUTE);
        let block: Vec<String> = info_entry(&hits[i], &flagged, first.as_str(), last.as_str());
        let ghost before = texts(r@);
        extend(&mut r, &block);
        proof {
            assert(all[i as int] == hits@[i as int]@);
            assert(texts(block@) == info_block(all[i as int]));
            assert((before + texts(block@)) + info_blocks(all, i + 1) =~= before + (texts(block@)
                + info_blocks(all, i + 1)));
        }
        i = i + 1;
    }
    proof {
        assert(texts(r@) + Seq::<Seq<char>>::empty() =~= texts(r@));
    }
    r
}

} // verus!
