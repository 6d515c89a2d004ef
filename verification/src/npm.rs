//! The npm-registry adapter: a single maintainer search lists the user's
//! packages, then one request per package fetches a trailing-week download
//! count (a missing or failed count defaults to 0 rather than aborting the
//! whole package). Scoped package names of the `@scope/name` convention
//! yield their scope; the repository link falls back to a forge-looking
//! homepage link.

use vstd::prelude::*;
use vstd::string::StringExecFns;

use crate::entities::{NpmPackageSummary, NpmPackageView};
use crate::text::{
    clone_opt_string, clone_string_vec, contains_substr, find_char_first, spec_contains,
    spec_find, spec_strip_leading, strip_leading, substring_string,
};

verus! {

/// The mathematical model of one package's outbound links.
#[verifier::ext_equal]
pub struct PackageLinksView {
    pub npm: Option<Seq<char>>,
    pub homepage: Option<Seq<char>>,
    pub repository: Option<Seq<char>>,
}

/// One package's outbound links as the search endpoint returns them.
#[derive(Debug)]
pub struct PackageLinks {
    pub npm: Option<String>,
    pub homepage: Option<String>,
    pub repository: Option<String>,
}

impl View for PackageLinks {
    type V = PackageLinksView;

    open spec fn view(&self) -> PackageLinksView {
        PackageLinksView {
            npm: self.npm.deep_view(),
            homepage: self.homepage.deep_view(),
            repository: self.repository.deep_view(),
        }
    }
}

impl DeepView for PackageLinks {
    type V = PackageLinksView;

    open spec fn deep_view(&self) -> PackageLinksView {
        self.view()
    }
}

/// The mathematical model of one package record from the search endpoint.
#[verifier::ext_equal]
pub struct PackageInfoView {
    pub name: Seq<char>,
    pub version: Option<Seq<char>>,
    pub description: Option<Seq<char>>,
    pub keywords: Option<Seq<Seq<char>>>,
    pub links: Option<PackageLinksView>,
}

/// One package record as decoded from the search endpoint.
#[derive(Debug)]
pub struct PackageInfo {
    pub name: String,
    pub version: Option<String>,
    pub description: Option<String>,
    pub keywords: Option<Vec<String>>,
    pub links: Option<PackageLinks>,
}

impl View for PackageInfo {
    type V = PackageInfoView;

    open spec fn view(&self) -> PackageInfoView {
        PackageInfoView {
            name: self.name@,
            version: self.version.deep_view(),
            description: self.description.deep_view(),
            keywords: self.keywords.deep_view(),
            links: self.links.deep_view(),
        }
    }
}

impl DeepView for PackageInfo {
    type V = PackageInfoView;

    open spec fn deep_view(&self) -> PackageInfoView {
        self.view()
    }
}

/// The scope and bare name a package name of the `@scope/name` convention
/// splits into: the part between the leading at signs and the first slash,
/// and what follows that slash. A name without the convention has no scope
/// and stays whole.
pub open spec fn spec_scope_split(name: Seq<char>) -> (Option<Seq<char>>, Seq<char>) {
    if name.len() > 0 && name[0] == '@' && spec_find(name, '/') != -1 {
        let i = spec_find(name, '/');
        (Some(spec_strip_leading(name.take(i), '@')), name.subrange(i + 1, name.len() as int))
    } else {
        (None, name)
    }
}

/// Splits a package name into its scope, if the `@scope/name` convention
/// applies, and its bare name.
pub fn parse_scope(name: &str) -> (r: (Option<String>, String))
    ensures
        r.0.deep_view() == spec_scope_split(name@).0,
        r.1@ == spec_scope_split(name@).1,
{
    let len = name.unicode_len();
    if len > 0 && name.get_char(0) == '@' {
        if let Some(i) = find_char_first(name, '/') {
            let head = substring_string(name, 0, i);
            let scope = strip_leading(head.as_str(), '@');
            let rest = substring_string(name, i + 1, len);
            proof {
                assert(name@.take(spec_find(name@, '/')) =~= name@.subrange(
                    0,
                    spec_find(name@, '/'),
                ));
            }
            return (Some(scope), rest);
        }
    }
    (None, name.to_owned())
}

/// The repository link one package carries: its declared repository link, or
/// its homepage link when that points at a known forge host.
pub open spec fn spec_repo_link(links: Option<PackageLinksView>) -> Option<Seq<char>> {
    match links {
        None => None,
        Some(l) => match l.repository {
            Some(r) => Some(r),
            None => match l.homepage {
                Some(h) => if spec_contains(h, "github.com"@) || spec_contains(h, "gitlab.com"@) {
                    Some(h)
                } else {
                    None
                },
                None => None,
            },
        },
    }
}

/// Extracts the repository link of one package record.
pub fn repo_link(links: &Option<PackageLinks>) -> (r: Option<String>)
    ensures
        r.deep_view() == spec_repo_link(links.deep_view()),
{
    match links {
        None => None,
        Some(l) => match &l.repository {
            Some(r) => Some(r.clone()),
            None => match &l.homepage {
                Some(h) => {
                    if contains_substr(h.as_str(), "github.com") || contains_substr(
                        h.as_str(),
                        "gitlab.com",
                    ) {
                        Some(h.clone())
                    } else {
                        None
                    }
                },
                None => None,
            },
        },
    }
}

/// The trailing-week download count one package's count response yields: the
/// fetched value, saturated to the stored range, and 0 when the request
/// failed or returned nothing.
pub open spec fn spec_downloads_or_default(r: Option<u64>) -> int {
    match r {
        Some(v) => if v > i32::MAX {
            i32::MAX as int
        } else {
            v as int
        },
        None => 0,
    }
}

/// Resolves one package's download-count outcome: a missing or failed count
/// defaults to 0.
pub fn downloads_or_default(r: Option<u64>) -> (d: i32)
    ensures
        d == spec_downloads_or_default(r),
        d >= 0,
{
    match r {
        Some(v) => if v > i32::MAX as u64 {
            i32::MAX
        } else {
            v as i32
        },
        None => 0,
    }
}

/// The normalization of one package record with its resolved download count:
/// the registry page URL is derived from the name, the scope from the
/// `@scope/name` convention, and a missing keyword list defaults to empty.
pub open spec fn spec_package_normalized(p: PackageInfoView, downloads: int) -> NpmPackageView {
    NpmPackageView {
        name: p.name,
        scope: spec_scope_split(p.name).0,
        description: p.description,
        repository_url: spec_repo_link(p.links),
        npm_url: "https://www.npmjs.com/package/"@ + p.name,
        downloads_weekly: downloads,
        version: p.version,
        keywords: match p.keywords {
            Some(k) => k,
            None => Seq::empty(),
        },
    }
}

/// Normalizes one package record into the common fetched-package shape.
pub fn to_package_summary(p: &PackageInfo, downloads: i32) -> (f: NpmPackageSummary)
    ensures
        f@ == spec_package_normalized(p@, downloads as int),
{
    let (scope, _bare) = parse_scope(p.name.as_str());
    let mut url = String::from_str("https://www.npmjs.com/package/");
    url.append(p.name.as_str());
    let f = NpmPackageSummary {
        name: p.name.clone(),
        scope,
        description: clone_opt_string(&p.description),
        repository_url: repo_link(&p.links),
        npm_url: url,
        downloads_weekly: downloads,
        version: clone_opt_string(&p.version),
        keywords: match &p.keywords {
            Some(k) => clone_string_vec(k),
            None => Vec::new(),
        },
    };
    proof {
        assert(f@ =~= spec_package_normalized(p@, downloads as int));
    }
    f
}

/// The fetched packages the search records and their resolved download
/// counts yield, in order.
pub open spec fn spec_collected_packages(pkgs: Seq<PackageInfoView>, downloads: Seq<i32>) -> Seq<
    NpmPackageView,
> {
    Seq::new(pkgs.len(), |i: int| spec_package_normalized(pkgs[i], downloads[i] as int))
}

/// The npm-registry adapter's configuration: the user whose packages are
/// listed.
pub struct NpmRegistry {
    pub username: String,
}

impl NpmRegistry {
    /// Builds the adapter for one user.
    pub fn new(username: String) -> (s: Self)
        ensures
            s.username == username,
    {
        NpmRegistry { username }
    }

    /// The maintainer-search URL listing the user's packages.
    pub fn search_url(&self) -> (u: String)
        ensures
            u@ == "https://registry.npmjs.org/-/v1/search?text=maintainer:"@ + self.username@
                + "&size=250"@,
    {
        let mut u = String::from_str("https://registry.npmjs.org/-/v1/search?text=maintainer:");
        u.append(self.username.as_str());
        u.append("&size=250");
        u
    }

    /// The trailing-week download-count URL for one package.
    pub fn downloads_url(&self, package_name: &str) -> (u: String)
        ensures
            u@ == "https://api.npmjs.org/downloads/point/last-week/"@ + package_name@,
    {
        let mut u = String::from_str("https://api.npmjs.org/downloads/point/last-week/");
        u.append(package_name);
        u
    }

    /// Normalizes the search records with their resolved per-package download
    /// counts, in order.
    pub fn fetch_packages(&self, pkgs: &Vec<PackageInfo>, downloads: &Vec<i32>) -> (out: Vec<
        NpmPackageSummary,
    >)
        requires
            downloads@.len() == pkgs@.len(),
        ensures
            out.deep_view() == spec_collected_packages(pkgs.deep_view(), downloads@),
    {
        let ghost pv = pkgs.deep_view();
        let mut out: Vec<NpmPackageSummary> = Vec::new();
        let mut j: usize = 0;
        while j < pkgs.len()
            invariant
                0 <= j <= pkgs.len(),
                pv == pkgs.deep_view(),
                pv.len() == pkgs.len(),
                downloads@.len() == pkgs@.len(),
                out.deep_view().len() == j,
                forall|i: int| 0 <= i < j ==> #[trigger] out.deep_view()[i]
                    == spec_package_normalized(pv[i], downloads@[i] as int),
            decreases pkgs.len() - j,
        {
            let f = to_package_summary(&pkgs[j], downloads[j]);
            let ghost prev = out.deep_view();
            out.push(f);
            proof {
                assert(out.deep_view()[j as int] == spec_package_normalized(
                    pv[j as int],
                    downloads@[j as int] as int,
                ));
                assert(forall|i: int| 0 <= i < j ==> #[trigger] out.deep_view()[i] == prev[i]);
            }
            j = j + 1;
        }
        proof {
            assert(out.deep_view() =~= spec_collected_packages(pv, downloads@));
        }
        out
    }
}

} // verus!
