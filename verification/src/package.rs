//! Packages from the two origins the resolver knows: binary packages of the
//! local or a sync database, and source packages of the AUR. `Pkg` joins
//! them under one set of accessors.

use vstd::prelude::*;
use vstd::string::StringExecFns;

verus! {

/// The texts that a list of strings holds.
pub open spec fn texts(v: Seq<String>) -> Seq<Seq<char>> {
    Seq::new(v.len(), |i: int| v[i]@)
}

/// The text of an optional string.
pub open spec fn opt_text(o: Option<String>) -> Option<Seq<char>> {
    match o {
        Some(s) => Some(s@),
        None => None,
    }
}

/// Copies a list of strings.
pub fn clone_strings(v: &Vec<String>) -> (r: Vec<String>)
    ensures
        texts(r@) == texts(v@),
        r@.len() == v@.len(),
{
    let mut r: Vec<String> = Vec::new();
    let mut i: usize = 0;
    while i < v.len()
        invariant
            0 <= i <= v.len(),
            r@.len() == i,
            forall|j: int| 0 <= j < i ==> (#[trigger] r@[j])@ == v@[j]@,
        decreases v.len() - i,
    {
        r.push(v[i].clone());
        i = i + 1;
    }
    proof {
        assert(texts(r@) =~= texts(v@));
    }
    r
}

/// Copies an optional string.
pub fn clone_opt_string(o: &Option<String>) -> (r: Option<String>)
    ensures
        opt_text(r) == opt_text(*o),
{
    match o {
        Some(s) => Some(s.clone()),
        None => None,
    }
}

/// A package of the local or of a sync database, as far as resolution reads
/// it.
#[derive(Debug)]
pub struct RepoPackage {
    pub name: String,
    pub version: String,
    pub depends: Vec<String>,
    pub opt_depends: Vec<String>,
    pub provides: Vec<String>,
}

pub struct RepoPackageView {
    pub name: Seq<char>,
    pub version: Seq<char>,
    pub depends: Seq<Seq<char>>,
    pub opt_depends: Seq<Seq<char>>,
    pub provides: Seq<Seq<char>>,
}

impl View for RepoPackage {
    type V = RepoPackageView;

    open spec fn view(&self) -> RepoPackageView {
        RepoPackageView {
            name: self.name@,
            version: self.version@,
            depends: texts(self.depends@),
            opt_depends: texts(self.opt_depends@),
            provides: texts(self.provides@),
        }
    }
}

impl RepoPackage {
    /// A package of the given name and version that depends on nothing and
    /// provides nothing.
    pub fn named(name: &str, version: &str) -> (r: RepoPackage)
        ensures
            r@ == (RepoPackageView {
                name: name@,
                version: version@,
                depends: Seq::empty(),
                opt_depends: Seq::empty(),
                provides: Seq::empty(),
            }),
    {
        let r = RepoPackage {
            name: String::from_str(name),
            version: String::from_str(version),
            depends: Vec::new(),
            opt_depends: Vec::new(),
            provides: Vec::new(),
        };
        proof {
            assert(texts(r.depends@) =~= Seq::empty());
            assert(texts(r.opt_depends@) =~= Seq::empty());
            assert(texts(r.provides@) =~= Seq::empty());
        }
        r
    }

    /// A copy of this package.
    pub fn duplicate(&self) -> (r: RepoPackage)
        ensures
            r@ == self@,
    {
        RepoPackage {
            name: self.name.clone(),
            version: self.version.clone(),
            depends: clone_strings(&self.depends),
            opt_depends: clone_strings(&self.opt_depends),
            provides: clone_strings(&self.provides),
        }
    }
}

/// A record of the AUR. The popularity is kept as the text it is shown as.
#[derive(Debug)]
pub struct AurPackage {
    pub id: u32,
    pub name: String,
    pub package_base_id: u32,
    pub package_base: String,
    pub version: String,
    pub description: Option<String>,
    pub url: Option<String>,
    pub num_votes: u32,
    pub popularity: String,
    pub out_of_date: Option<i64>,
    pub maintainer: Option<String>,
    pub submitter: Option<String>,
    pub first_submitted: i64,
    pub last_modified: i64,
    pub url_path: String,
    pub groups: Vec<String>,
    pub depends: Vec<String>,
    pub make_depends: Vec<String>,
    pub opt_depends: Vec<String>,
    pub check_depends: Vec<String>,
    pub conflicts: Vec<String>,
    pub replaces: Vec<String>,
    pub provides: Vec<String>,
    pub license: Vec<String>,
    pub keywords: Vec<String>,
    pub co_maintainers: Vec<String>,
}

pub struct AurPackageView {
    pub id: u32,
    pub name: Seq<char>,
    pub package_base_id: u32,
    pub package_base: Seq<char>,
    pub version: Seq<char>,
    pub description: Option<Seq<char>>,
    pub url: Option<Seq<char>>,
    pub num_votes: u32,
    pub popularity: Seq<char>,
    pub out_of_date: Option<i64>,
    pub maintainer: Option<Seq<char>>,
    pub submitter: Option<Seq<char>>,
    pub first_submitted: i64,
    pub last_modified: i64,
    pub url_path: Seq<char>,
    pub groups: Seq<Seq<char>>,
    pub depends: Seq<Seq<char>>,
    pub make_depends: Seq<Seq<char>>,
    pub opt_depends: Seq<Seq<char>>,
    pub check_depends: Seq<Seq<char>>,
    pub conflicts: Seq<Seq<char>>,
    pub replaces: Seq<Seq<char>>,
    pub provides: Seq<Seq<char>>,
    pub license: Seq<Seq<char>>,
    pub keywords: Seq<Seq<char>>,
    pub co_maintainers: Seq<Seq<char>>,
}

impl View for AurPackage {
    type V = AurPackageView;

    open spec fn view(&self) -> AurPackageView {
        AurPackageView {
            id: self.id,
            name: self.name@,
            package_base_id: self.package_base_id,
            package_base: self.package_base@,
            version: self.version@,
            description: opt_text(self.description),
            url: opt_text(self.url),
            num_votes: self.num_votes,
            popularity: self.popularity@,
            out_of_date: self.out_of_date,
            maintainer: opt_text(self.maintainer),
            submitter: opt_text(self.submitter),
            first_submitted: self.first_submitted,
            last_modified: self.last_modified,
            url_path: self.url_path@,
            groups: texts(self.groups@),
            depends: texts(self.depends@),
            make_depends: texts(self.make_depends@),
            opt_depends: texts(self.opt_depends@),
            check_depends: texts(self.check_depends@),
            conflicts: texts(self.conflicts@),
            replaces: texts(self.replaces@),
            provides: texts(self.provides@),
            license: texts(self.license@),
            keywords: texts(self.keywords@),
            co_maintainers: texts(self.co_maintainers@),
        }
    }
}

impl AurPackage {
    /// A record of the given name and version with every other field empty
    /// or zero. The package base is the name.
    pub fn named(name: &str, version: &str) -> (r: AurPackage)
        ensures
            r.name@ == name@,
            r.version@ == version@,
            r.package_base@ == name@,
            r.id == 0 && r.package_base_id == 0 && r.num_votes == 0,
            r.first_submitted == 0 && r.last_modified == 0,
            r.out_of_date is None,
            r.description is None && r.url is None && r.maintainer is None && r.submitter is None,
            r.popularity@.len() == 0 && r.url_path@.len() == 0,
            r.groups@.len() == 0 && r.depends@.len() == 0 && r.make_depends@.len() == 0,
            r.opt_depends@.len() == 0 && r.check_depends@.len() == 0 && r.conflicts@.len() == 0,
            r.replaces@.len() == 0 && r.provides@.len() == 0 && r.license@.len() == 0,
            r.keywords@.len() == 0 && r.co_maintainers@.len() == 0,
    {
        AurPackage {
            id: 0,
            name: String::from_str(name),
            package_base_id: 0,
            package_base: String::from_str(name),
            version: String::from_str(version),
            description: None,
            url: None,
            num_votes: 0,
            popularity: String::new(),
            out_of_date: None,
            maintainer: None,
            submitter: None,
            first_submitted: 0,
            last_modified: 0,
            url_path: String::new(),
            groups: Vec::new(),
            depends: Vec::new(),
            make_depends: Vec::new(),
            opt_depends: Vec::new(),
            check_depends: Vec::new(),
            conflicts: Vec::new(),
            replaces: Vec::new(),
            provides: Vec::new(),
            license: Vec::new(),
            keywords: Vec::new(),
            co_maintainers: Vec::new(),
        }
    }

    /// A copy of this record.
    pub fn duplicate(&self) -> (r: AurPackage)
        ensures
            r@ == self@,
    {
        AurPackage {
            id: self.id,
            name: self.name.clone(),
            package_base_id: self.package_base_id,
            package_base: self.package_base.clone(),
            version: self.version.clone(),
            description: clone_opt_string(&self.description),
            url: clone_opt_string(&self.url),
            num_votes: self.num_votes,
            popularity: self.popularity.clone(),
            out_of_date: self.out_of_date,
            maintainer: clone_opt_string(&self.maintainer),
            submitter: clone_opt_string(&self.submitter),
            first_submitted: self.first_submitted,
            last_modified: self.last_modified,
            url_path: self.url_path.clone(),
            groups: clone_strings(&self.groups),
            depends: clone_strings(&self.depends),
            make_depends: clone_strings(&self.make_depends),
            opt_depends: clone_strings(&self.opt_depends),
            check_depends: clone_strings(&self.check_depends),
            conflicts: clone_strings(&self.conflicts),
            replaces: clone_strings(&self.replaces),
            provides: clone_strings(&self.provides),
            license: clone_strings(&self.license),
            keywords: clone_strings(&self.keywords),
            co_maintainers: clone_strings(&self.co_maintainers),
        }
    }
}

/// Why an accessor has nothing to return.
#[derive(Clone, Copy, Debug, PartialEq, Eq, Structural)]
pub enum PkgError {
    /// Repository packages carry no build-time metadata.
    NotApplicable,
}

/// A package of either origin.
#[derive(Debug)]
#[allow(inconsistent_fields)]
pub enum Pkg {
    Pacman { pkg: RepoPackage },
    Aur { pkg: AurPackage },
}

#[allow(inconsistent_fields)]
pub enum PkgView {
    Pacman { pkg: RepoPackageView },
    Aur { pkg: AurPackageView },
}

impl View for Pkg {
    type V = PkgView;

    open spec fn view(&self) -> PkgView {
        match self {
            Pkg::Pacman { pkg } => PkgView::Pacman { pkg: pkg@ },
            Pkg::Aur { pkg } => PkgView::Aur { pkg: pkg@ },
        }
    }
}

impl PkgView {
    pub open spec fn name(self) -> Seq<char> {
        match self {
            PkgView::Pacman { pkg } => pkg.name,
            PkgView::Aur { pkg } => pkg.name,
        }
    }

    pub open spec fn version(self) -> Seq<char> {
        match self {
            PkgView::Pacman { pkg } => pkg.version,
            PkgView::Aur { pkg } => pkg.version,
        }
    }

    pub open spec fn depends(self) -> Seq<Seq<char>> {
        match self {
            PkgView::Pacman { pkg } => pkg.depends,
            PkgView::Aur { pkg } => pkg.depends,
        }
    }

    pub open spec fn make_depends(self) -> Result<Seq<Seq<char>>, PkgError> {
        match self {
            PkgView::Pacman { pkg } => Err(PkgError::NotApplicable),
            PkgView::Aur { pkg } => Ok(pkg.make_depends),
        }
    }

    pub open spec fn check_depends(self) -> Result<Seq<Seq<char>>, PkgError> {
        match self {
            PkgView::Pacman { pkg } => Err(PkgError::NotApplicable),
            PkgView::Aur { pkg } => Ok(pkg.check_depends),
        }
    }

    pub open spec fn opt_depends(self) -> Seq<Seq<char>> {
        match self {
            PkgView::Pacman { pkg } => pkg.opt_depends,
            PkgView::Aur { pkg } => pkg.opt_depends,
        }
    }

    pub open spec fn provides(self) -> Seq<Seq<char>> {
        match self {
            PkgView::Pacman { pkg } => pkg.provides,
            PkgView::Aur { pkg } => pkg.provides,
        }
    }
}

/// A list of strings as a result with the given texts.
pub open spec fn holds_texts(r: Result<Vec<String>, PkgError>, want: Result<Seq<Seq<char>>, PkgError>) -> bool {
    match (r, want) {
        (Ok(v), Ok(t)) => texts(v@) == t,
        (Err(e), Err(f)) => e == f,
        _ => false,
    }
}

impl Pkg {
    /// The package's name.
    pub fn name(&self) -> (r: String)
        ensures
            r@ == self@.name(),
    {
        match self {
            Pkg::Pacman { pkg } => pkg.name.clone(),
            Pkg::Aur { pkg } => pkg.name.clone(),
        }
    }

    /// The package's version.
    pub fn version(&self) -> (r: String)
        ensures
            r@ == self@.version(),
    {
        match self {
            Pkg::Pacman { pkg } => pkg.version.clone(),
            Pkg::Aur { pkg } => pkg.version.clone(),
        }
    }

    /// The dependency strings needed at run time.
    pub fn depends(&self) -> (r: Vec<String>)
        ensures
            texts(r@) == self@.depends(),
    {
        match self {
            Pkg::Pacman { pkg } => clone_strings(&pkg.depends),
            Pkg::Aur { pkg } => clone_strings(&pkg.depends),
        }
    }

    /// The dependency strings needed to build the package. A repository
    /// package has none to give.
    pub fn make_depends(&self) -> (r: Result<Vec<String>, PkgError>)
        ensures
            holds_texts(r, self@.make_depends()),
    {
        match self {
            Pkg::Pacman { .. } => Err(PkgError::NotApplicable),
            Pkg::Aur { pkg } => Ok(clone_strings(&pkg.make_depends)),
        }
    }

    /// The dependency strings needed to run the package's tests while
    /// building. A repository package has none to give.
    pub fn check_depends(&self) -> (r: Result<Vec<String>, PkgError>)
        ensures
            holds_texts(r, self@.check_depends()),
    {
        match self {
            Pkg::Pacman { .. } => Err(PkgError::NotApplicable),
            Pkg::Aur { pkg } => Ok(clone_strings(&pkg.check_depends)),
        }
    }

    /// The optional dependency strings.
    pub fn opt_depends(&self) -> (r: Vec<String>)
        ensures
            texts(r@) == self@.opt_depends(),
    {
        match self {
            Pkg::Pacman { pkg } => clone_strings(&pkg.opt_depends),
            Pkg::Aur { pkg } => clone_strings(&pkg.opt_depends),
        }
    }

    /// The virtual names the package provides.
    pub fn provides(&self) -> (r: Vec<String>)
        ensures
            texts(r@) == self@.provides(),
    {
        match self {
            Pkg::Pacman { pkg } => clone_strings(&pkg.provides),
            Pkg::Aur { pkg } => clone_strings(&pkg.provides),
        }
    }

    /// Tells whether the package comes from the AUR.
    pub fn is_aur(&self) -> (r: bool)
        ensures
            r == (self@ is Aur),
    {
        match self {
            Pkg::Pacman { .. } => false,
            Pkg::Aur { .. } => true,
        }
    }

    /// A copy of this package.
    pub fn duplicate(&self) -> (r: Pkg)
        ensures
            r@ == self@,
    {
        match self {
            Pkg::Pacman { pkg } => Pkg::Pacman { pkg: pkg.duplicate() },
            Pkg::Aur { pkg } => Pkg::Aur { pkg: pkg.duplicate() },
        }
    }
}

impl From<AurPackage> for Pkg {
    fn from(pkg: AurPackage) -> (r: Pkg) {
        Pkg::Aur { pkg }
    }
}

impl vstd::std_specs::convert::FromSpecImpl<AurPackage> for Pkg {
    open spec fn obeys_from_spec() -> bool {
        true
    }

    open spec fn from_spec(pkg: AurPackage) -> Pkg {
        Pkg::Aur { pkg }
    }
}

impl From<RepoPackage> for Pkg {
    fn from(pkg: RepoPackage) -> (r: Pkg) {
        Pkg::Pacman { pkg }
    }
}

impl vstd::std_specs::convert::FromSpecImpl<RepoPackage> for Pkg {
    open spec fn obeys_from_spec() -> bool {
        true
    }

    open spec fn from_spec(pkg: RepoPackage) -> Pkg {
        Pkg::Pacman { pkg }
    }
}

} // verus!
