//! The unified project model served from the store: the project kinds, the
//! sort orders a query can ask for, and the filter set applied to the
//! unified view.

use vstd::prelude::*;
use vstd::string::StringExecFns;

use crate::text::{eq_ignore_ascii_case, spec_eq_ignore_ascii_case};

verus! {

/// The kind of project in the unified view.
#[derive(Debug, Clone, Copy, PartialEq, Eq, Structural)]
pub enum ProjectKind {
    Crate,
    Npm,
    Repo,
}

/// The kind a string names, compared ignoring ASCII case; nothing for any
/// other string.
pub open spec fn spec_parse_project_kind(s: Seq<char>) -> Option<ProjectKind> {
    if spec_eq_ignore_ascii_case(s, "crate"@) {
        Some(ProjectKind::Crate)
    } else if spec_eq_ignore_ascii_case(s, "npm"@) {
        Some(ProjectKind::Npm)
    } else if spec_eq_ignore_ascii_case(s, "repo"@) {
        Some(ProjectKind::Repo)
    } else {
        None
    }
}

impl ProjectKind {
    /// The kind's canonical lower-case label.
    pub open spec fn spec_label(self) -> Seq<char> {
        match self {
            ProjectKind::Crate => "crate"@,
            ProjectKind::Npm => "npm"@,
            ProjectKind::Repo => "repo"@,
        }
    }

    /// Renders the kind's canonical lower-case label.
    pub fn to_string(&self) -> (r: String)
        ensures
            r@ == self.spec_label(),
    {
        match self {
            ProjectKind::Crate => String::from_str("crate"),
            ProjectKind::Npm => String::from_str("npm"),
            ProjectKind::Repo => String::from_str("repo"),
        }
    }

    /// Parses a kind from its label, ignoring case; any other string is
    /// rejected with a message naming it.
    pub fn parse(s: &str) -> (r: Result<ProjectKind, String>)
        ensures
            match r {
                Ok(k) => spec_parse_project_kind(s@) == Some(k),
                Err(m) => spec_parse_project_kind(s@) is None && m@ == "unknown project kind: "@
                    + s@,
            },
    {
        if eq_ignore_ascii_case(s, "crate") {
            Ok(ProjectKind::Crate)
        } else if eq_ignore_ascii_case(s, "npm") {
            Ok(ProjectKind::Npm)
        } else if eq_ignore_ascii_case(s, "repo") {
            Ok(ProjectKind::Repo)
        } else {
            let mut m = String::from_str("unknown project kind: ");
            m.append(s);
            Err(m)
        }
    }
}

impl core::str::FromStr for ProjectKind {
    type Err = String;

    fn from_str(s: &str) -> Result<ProjectKind, String> {
        ProjectKind::parse(s)
    }
}

/// The order a project query sorts by.
#[derive(Debug, Clone, Copy, PartialEq, Eq, Structural)]
pub enum SortOrder {
    Popularity,
    Name,
    Updated,
}

/// The sort order a string names, compared ignoring ASCII case; nothing for
/// any other string.
pub open spec fn spec_parse_sort_order(s: Seq<char>) -> Option<SortOrder> {
    if spec_eq_ignore_ascii_case(s, "popularity"@) {
        Some(SortOrder::Popularity)
    } else if spec_eq_ignore_ascii_case(s, "name"@) {
        Some(SortOrder::Name)
    } else if spec_eq_ignore_ascii_case(s, "updated"@) {
        Some(SortOrder::Updated)
    } else {
        None
    }
}

impl SortOrder {
    /// Parses a sort order from its label, ignoring case; any other string
    /// is rejected with a message naming it.
    pub fn parse(s: &str) -> (r: Result<SortOrder, String>)
        ensures
            match r {
                Ok(k) => spec_parse_sort_order(s@) == Some(k),
                Err(m) => spec_parse_sort_order(s@) is None && m@ == "unknown sort order: "@ + s@,
            },
    {
        if eq_ignore_ascii_case(s, "popularity") {
            Ok(SortOrder::Popularity)
        } else if eq_ignore_ascii_case(s, "name") {
            Ok(SortOrder::Name)
        } else if eq_ignore_ascii_case(s, "updated") {
            Ok(SortOrder::Updated)
        } else {
            let mut m = String::from_str("unknown sort order: ");
            m.append(s);
            Err(m)
        }
    }
}

impl core::str::FromStr for SortOrder {
    type Err = String;

    fn from_str(s: &str) -> Result<SortOrder, String> {
        SortOrder::parse(s)
    }
}

impl Default for SortOrder {
    /// Queries sort by popularity unless asked otherwise.
    fn default() -> (r: Self)
        ensures
            r == SortOrder::Popularity,
    {
        SortOrder::Popularity
    }
}

/// The filters a project query applies: each one optional, absent means
/// unfiltered.
#[derive(Debug)]
pub struct ProjectFilters {
    pub kind: Option<ProjectKind>,
    pub language: Option<String>,
    pub topic: Option<String>,
    pub sort: Option<SortOrder>,
}

impl Default for ProjectFilters {
    /// No filter at all.
    fn default() -> (r: Self)
        ensures
            r.kind is None,
            r.language is None,
            r.topic is None,
            r.sort is None,
    {
        ProjectFilters { kind: None, language: None, topic: None, sort: None }
    }
}

/// One project of the unified view, whatever its kind: the shape the
/// read side serves.
#[derive(Debug)]
pub struct ProjectView {
    pub id: u64,
    pub kind: ProjectKind,
    pub name: String,
    pub description: Option<String>,
    pub url: String,
    pub language: Option<String>,
    pub topics: Vec<String>,
    pub popularity: i32,
    pub version: Option<String>,
    pub commit_count: Option<i32>,
    pub updated_at: Option<i64>,
    pub synced_at: i64,
}

} // verus!
