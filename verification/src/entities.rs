//! The common fetched-entity shapes that every source adapter normalizes into.
//!
//! All timestamps are UTC epoch seconds. Entities are transient value objects,
//! rebuilt on every synchronization pass; durable identifiers are assigned
//! only by the persistence gateway.

use vstd::prelude::*;

use crate::text::{clone_opt_string, clone_string_vec};

verus! {

/// The view of an optional epoch-second timestamp.
pub open spec fn opt_int(o: Option<i64>) -> Option<int> {
    match o {
        Some(t) => Some(t as int),
        None => None,
    }
}

/// The mathematical model of a fetched repository.
#[verifier::ext_equal]
pub struct RepoView {
    pub forge: Seq<char>,
    pub forge_id: Seq<char>,
    pub name: Seq<char>,
    pub description: Option<Seq<char>>,
    pub url: Seq<char>,
    pub language: Option<Seq<char>>,
    pub stars: int,
    pub topics: Seq<Seq<char>>,
    pub updated_at: Option<int>,
}

/// Repository data fetched from a forge, before persistence.
/// Identity for upsert is `(forge, forge_id)`.
#[derive(Debug)]
pub struct FetchedRepository {
    pub forge: String,
    pub forge_id: String,
    pub name: String,
    pub description: Option<String>,
    pub url: String,
    pub language: Option<String>,
    pub stars: i32,
    pub topics: Vec<String>,
    pub updated_at: Option<i64>,
}

impl View for FetchedRepository {
    type V = RepoView;

    open spec fn view(&self) -> RepoView {
        RepoView {
            forge: self.forge@,
            forge_id: self.forge_id@,
            name: self.name@,
            description: self.description.deep_view(),
            url: self.url@,
            language: self.language.deep_view(),
            stars: self.stars as int,
            topics: self.topics.deep_view(),
            updated_at: opt_int(self.updated_at),
        }
    }
}

impl DeepView for FetchedRepository {
    type V = RepoView;

    open spec fn deep_view(&self) -> RepoView {
        self.view()
    }
}

impl Clone for FetchedRepository {
    fn clone(&self) -> (r: Self)
        ensures
            r@ == self@,
    {
        let r = FetchedRepository {
            forge: self.forge.clone(),
            forge_id: self.forge_id.clone(),
            name: self.name.clone(),
            description: clone_opt_string(&self.description),
            url: self.url.clone(),
            language: clone_opt_string(&self.language),
            stars: self.stars,
            topics: clone_string_vec(&self.topics),
            updated_at: self.updated_at,
        };
        proof {
            assert(r@ =~= self@);
        }
        r
    }
}

impl FetchedRepository {
    /// The invariant every fetched repository must carry: non-empty natural
    /// identity and a non-negative star count.
    pub open spec fn wf(self) -> bool {
        self.forge@.len() > 0 && self.forge_id@.len() > 0 && self.stars >= 0
    }
}

/// The mathematical model of a fetched crate.
#[verifier::ext_equal]
pub struct CrateView {
    pub name: Seq<char>,
    pub description: Option<Seq<char>>,
    pub repository_url: Option<Seq<char>>,
    pub crates_io_url: Seq<char>,
    pub documentation_url: Option<Seq<char>>,
    pub downloads: int,
    pub version: Option<Seq<char>>,
    pub keywords: Seq<Seq<char>>,
    pub categories: Seq<Seq<char>>,
}

/// Package data fetched from the crate registry, before persistence.
/// Identity for upsert is `name`.
#[derive(Debug)]
pub struct FetchedCrate {
    pub name: String,
    pub description: Option<String>,
    pub repository_url: Option<String>,
    pub crates_io_url: String,
    pub documentation_url: Option<String>,
    pub downloads: i32,
    pub version: Option<String>,
    pub keywords: Vec<String>,
    pub categories: Vec<String>,
}

impl View for FetchedCrate {
    type V = CrateView;

    open spec fn view(&self) -> CrateView {
        CrateView {
            name: self.name@,
            description: self.description.deep_view(),
            repository_url: self.repository_url.deep_view(),
            crates_io_url: self.crates_io_url@,
            documentation_url: self.documentation_url.deep_view(),
            downloads: self.downloads as int,
            version: self.version.deep_view(),
            keywords: self.keywords.deep_view(),
            categories: self.categories.deep_view(),
        }
    }
}

impl DeepView for FetchedCrate {
    type V = CrateView;

    open spec fn deep_view(&self) -> CrateView {
        self.view()
    }
}

impl Clone for FetchedCrate {
    fn clone(&self) -> (r: Self)
        ensures
            r@ == self@,
    {
        let r = FetchedCrate {
            name: self.name.clone(),
            description: clone_opt_string(&self.description),
            repository_url: clone_opt_string(&self.repository_url),
            crates_io_url: self.crates_io_url.clone(),
            documentation_url: clone_opt_string(&self.documentation_url),
            downloads: self.downloads,
            version: clone_opt_string(&self.version),
            keywords: clone_string_vec(&self.keywords),
            categories: clone_string_vec(&self.categories),
        };
        proof {
            assert(r@ =~= self@);
        }
        r
    }
}

impl FetchedCrate {
    /// The invariant every fetched crate must carry: a non-empty name and a
    /// non-negative download count.
    pub open spec fn wf(self) -> bool {
        self.name@.len() > 0 && self.downloads >= 0
    }
}

/// The mathematical model of a fetched npm package.
#[verifier::ext_equal]
pub struct NpmPackageView {
    pub name: Seq<char>,
    pub scope: Option<Seq<char>>,
    pub description: Option<Seq<char>>,
    pub repository_url: Option<Seq<char>>,
    pub npm_url: Seq<char>,
    pub downloads_weekly: int,
    pub version: Option<Seq<char>>,
    pub keywords: Seq<Seq<char>>,
}

/// Package data fetched from the npm registry, before persistence.
/// Identity for upsert is `name`.
#[derive(Debug)]
pub struct NpmPackageSummary {
    pub name: String,
    pub scope: Option<String>,
    pub description: Option<String>,
    pub repository_url: Option<String>,
    pub npm_url: String,
    pub downloads_weekly: i32,
    pub version: Option<String>,
    pub keywords: Vec<String>,
}

impl View for NpmPackageSummary {
    type V = NpmPackageView;

    open spec fn view(&self) -> NpmPackageView {
        NpmPackageView {
            name: self.name@,
            scope: self.scope.deep_view(),
            description: self.description.deep_view(),
            repository_url: self.repository_url.deep_view(),
            npm_url: self.npm_url@,
            downloads_weekly: self.downloads_weekly as int,
            version: self.version.deep_view(),
            keywords: self.keywords.deep_view(),
        }
    }
}

impl DeepView for NpmPackageSummary {
    type V = NpmPackageView;

    open spec fn deep_view(&self) -> NpmPackageView {
        self.view()
    }
}

impl Clone for NpmPackageSummary {
    fn clone(&self) -> (r: Self)
        ensures
            r@ == self@,
    {
        let r = NpmPackageSummary {
            name: self.name.clone(),
            scope: clone_opt_string(&self.scope),
            description: clone_opt_string(&self.description),
            repository_url: clone_opt_string(&self.repository_url),
            npm_url: self.npm_url.clone(),
            downloads_weekly: self.downloads_weekly,
            version: clone_opt_string(&self.version),
            keywords: clone_string_vec(&self.keywords),
        };
        proof {
            assert(r@ =~= self@);
        }
        r
    }
}

impl NpmPackageSummary {
    /// The invariant every fetched package must carry: a non-empty name and a
    /// non-negative download count.
    pub open spec fn wf(self) -> bool {
        self.name@.len() > 0 && self.downloads_weekly >= 0
    }
}

/// The mathematical model of a fetched contribution.
#[verifier::ext_equal]
pub struct ContributionView {
    pub forge: Seq<char>,
    pub repo_owner: Seq<char>,
    pub repo_name: Seq<char>,
    pub repo_url: Seq<char>,
    pub contribution_type: Seq<char>,
    pub title: Option<Seq<char>>,
    pub url: Seq<char>,
    pub merged_at: Option<int>,
}

/// An external contribution (merged pull or merge request), before
/// persistence. Identity for upsert is `(forge, repo_owner, repo_name, url)`.
#[derive(Debug)]
pub struct FetchedContribution {
    pub forge: String,
    pub repo_owner: String,
    pub repo_name: String,
    pub repo_url: String,
    pub contribution_type: String,
    pub title: Option<String>,
    pub url: String,
    pub merged_at: Option<i64>,
}

impl View for FetchedContribution {
    type V = ContributionView;

    open spec fn view(&self) -> ContributionView {
        ContributionView {
            forge: self.forge@,
            repo_owner: self.repo_owner@,
            repo_name: self.repo_name@,
            repo_url: self.repo_url@,
            contribution_type: self.contribution_type@,
            title: self.title.deep_view(),
            url: self.url@,
            merged_at: opt_int(self.merged_at),
        }
    }
}

impl DeepView for FetchedContribution {
    type V = ContributionView;

    open spec fn deep_view(&self) -> ContributionView {
        self.view()
    }
}

impl Clone for FetchedContribution {
    fn clone(&self) -> (r: Self)
        ensures
            r@ == self@,
    {
        let r = FetchedContribution {
            forge: self.forge.clone(),
            repo_owner: self.repo_owner.clone(),
            repo_name: self.repo_name.clone(),
            repo_url: self.repo_url.clone(),
            contribution_type: self.contribution_type.clone(),
            title: clone_opt_string(&self.title),
            url: self.url.clone(),
            merged_at: self.merged_at,
        };
        proof {
            assert(r@ =~= self@);
        }
        r
    }
}

impl FetchedContribution {
    /// The invariant every fetched contribution must carry: a non-empty
    /// natural identity.
    pub open spec fn wf(self) -> bool {
        self.forge@.len() > 0 && self.repo_owner@.len() > 0 && self.repo_name@.len() > 0
            && self.url@.len() > 0
    }
}

} // verus!
