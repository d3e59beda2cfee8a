//! The package manifest: a name, a version, and two dependency tables.

use vstd::prelude::*;

verus! {

/// The declared version of a dependency. Manifests allow any structured
/// value there; only plain text can name a version.
pub enum VersionSpec {
    Text(String),
    Other,
}

impl VersionSpec {
    /// The version as text, or `None` for a value that is not text.
    pub open spec fn text(&self) -> Option<Seq<char>> {
        match self {
            VersionSpec::Text(s) => Some(s@),
            VersionSpec::Other => None,
        }
    }

    /// Coerces the declared value to text, failing on anything else.
    pub fn as_text(&self) -> (r: Option<&String>)
        ensures
            match r {
                Some(s) => self.text() == Some(s@),
                None => self.text() is None,
            },
    {
        match self {
            VersionSpec::Text(s) => Some(s),
            VersionSpec::Other => None,
        }
    }
}

/// One entry of a dependency table, viewed as its name and textual version.
pub open spec fn entry_view(e: (String, VersionSpec)) -> (Seq<char>, Option<Seq<char>>) {
    (e.0@, e.1.text())
}

/// A dependency table, in the order in which its entries are listed.
pub open spec fn entries_view(v: Seq<(String, VersionSpec)>) -> Seq<(Seq<char>, Option<Seq<char>>)> {
    v.map_values(|e: (String, VersionSpec)| entry_view(e))
}

/// What a package is, in mathematical terms.
pub ghost struct PackageView {
    pub name: Seq<char>,
    pub version: Seq<char>,
    pub dependencies: Seq<(Seq<char>, Option<Seq<char>>)>,
    pub dev_dependencies: Seq<(Seq<char>, Option<Seq<char>>)>,
}

/// A package manifest. The dependency tables keep the order in which their
/// entries were listed; that order decides the order of the graph's nodes.
pub struct Package {
    pub name: String,
    pub version: String,
    pub dependencies: Vec<(String, VersionSpec)>,
    pub dev_dependencies: Vec<(String, VersionSpec)>,
}

impl View for Package {
    type V = PackageView;

    open spec fn view(&self) -> PackageView {
        PackageView {
            name: self.name@,
            version: self.version@,
            dependencies: entries_view(self.dependencies@),
            dev_dependencies: entries_view(self.dev_dependencies@),
        }
    }
}

impl Package {
    /// A package with empty name and version and no dependencies.
    pub fn new() -> (r: Package)
        ensures
            r@.name.len() == 0,
            r@.version.len() == 0,
            r@.dependencies.len() == 0,
            r@.dev_dependencies.len() == 0,
    {
        Package {
            name: String::new(),
            version: String::new(),
            dependencies: Vec::new(),
            dev_dependencies: Vec::new(),
        }
    }

    /// A package with the given name and version and no dependencies.
    pub fn new_with_data(name: &str, version: &str) -> (r: Package)
        ensures
            r@.name == name@,
            r@.version == version@,
            r@.dependencies.len() == 0,
            r@.dev_dependencies.len() == 0,
    {
        Package {
            name: name.to_owned(),
            version: version.to_owned(),
            dependencies: Vec::new(),
            dev_dependencies: Vec::new(),
        }
    }
}

} // verus!
