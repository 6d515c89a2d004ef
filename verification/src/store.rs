//! The persistence gateway's contract, realized as an in-memory store: each
//! entity kind is upserted by its natural identity — calling twice with the
//! same identity and different field values updates in place and returns the
//! same durable id — and repositories can be batch-looked-up by URL to
//! resolve cross-references.

use vstd::prelude::*;

use crate::entities::{
    ContributionView, CrateView, FetchedContribution, FetchedCrate, FetchedRepository,
    NpmPackageSummary, NpmPackageView, RepoView,
};
use crate::pagination::{lemma_filter_map_option_push, spec_filter_map};

verus! {

/// The mathematical model of a stored repository.
#[verifier::ext_equal]
pub struct RepositoryView {
    pub id: int,
    pub entity: RepoView,
    pub synced_at: int,
}

/// A stored repository: the fetched entity under its durable id, with the
/// time it was last synchronized.
#[derive(Debug)]
pub struct Repository {
    pub id: u64,
    pub entity: FetchedRepository,
    pub synced_at: i64,
}

impl View for Repository {
    type V = RepositoryView;

    open spec fn view(&self) -> RepositoryView {
        RepositoryView { id: self.id as int, entity: self.entity@, synced_at: self.synced_at as int }
    }
}

impl DeepView for Repository {
    type V = RepositoryView;

    open spec fn deep_view(&self) -> RepositoryView {
        self.view()
    }
}

impl Clone for Repository {
    fn clone(&self) -> (r: Self)
        ensures
            r@ == self@,
    {
        let r = Repository {
            id: self.id,
            entity: self.entity.clone(),
            synced_at: self.synced_at,
        };
        proof {
            assert(r@ =~= self@);
        }
        r
    }
}

/// The mathematical model of a stored crate.
#[verifier::ext_equal]
pub struct CrateRecordView {
    pub id: int,
    pub entity: CrateView,
    pub repository_id: Option<int>,
    pub synced_at: int,
}

/// A stored crate: the fetched entity under its durable id, the optional
/// cross-reference into the repositories it was resolved against, and the
/// time it was last synchronized.
#[derive(Debug)]
pub struct Crate {
    pub id: u64,
    pub entity: FetchedCrate,
    pub repository_id: Option<u64>,
    pub synced_at: i64,
}

/// The view of an optional durable id.
pub open spec fn opt_id_int(o: Option<u64>) -> Option<int> {
    match o {
        Some(v) => Some(v as int),
        None => None,
    }
}

impl View for Crate {
    type V = CrateRecordView;

    open spec fn view(&self) -> CrateRecordView {
        CrateRecordView {
            id: self.id as int,
            entity: self.entity@,
            repository_id: opt_id_int(self.repository_id),
            synced_at: self.synced_at as int,
        }
    }
}

impl DeepView for Crate {
    type V = CrateRecordView;

    open spec fn deep_view(&self) -> CrateRecordView {
        self.view()
    }
}

/// The mathematical model of a stored npm package.
#[verifier::ext_equal]
pub struct NpmRecordView {
    pub id: int,
    pub entity: NpmPackageView,
    pub repository_id: Option<int>,
    pub synced_at: int,
}

/// A stored npm package: the fetched entity under its durable id, the
/// optional cross-reference into the repositories it was resolved against,
/// and the time it was last synchronized.
#[derive(Debug)]
pub struct NpmPackage {
    pub id: u64,
    pub entity: NpmPackageSummary,
    pub repository_id: Option<u64>,
    pub synced_at: i64,
}

impl View for NpmPackage {
    type V = NpmRecordView;

    open spec fn view(&self) -> NpmRecordView {
        NpmRecordView {
            id: self.id as int,
            entity: self.entity@,
            repository_id: opt_id_int(self.repository_id),
            synced_at: self.synced_at as int,
        }
    }
}

impl DeepView for NpmPackage {
    type V = NpmRecordView;

    open spec fn deep_view(&self) -> NpmRecordView {
        self.view()
    }
}

/// The mathematical model of a stored contribution.
#[verifier::ext_equal]
pub struct ContributionRecordView {
    pub id: int,
    pub entity: ContributionView,
    pub synced_at: int,
}

/// A stored contribution: the fetched entity under its durable id, with the
/// time it was last synchronized.
#[derive(Debug)]
pub struct Contribution {
    pub id: u64,
    pub entity: FetchedContribution,
    pub synced_at: i64,
}

impl View for Contribution {
    type V = ContributionRecordView;

    open spec fn view(&self) -> ContributionRecordView {
        ContributionRecordView {
            id: self.id as int,
            entity: self.entity@,
            synced_at: self.synced_at as int,
        }
    }
}

impl DeepView for Contribution {
    type V = ContributionRecordView;

    open spec fn deep_view(&self) -> ContributionRecordView {
        self.view()
    }
}

/// Whether a stored repository carries the given natural identity.
pub open spec fn repo_identity_is(r: RepositoryView, forge: Seq<char>, forge_id: Seq<char>) -> bool {
    r.entity.forge == forge && r.entity.forge_id == forge_id
}

/// The position of the first stored repository with the given natural
/// identity, or -1 when none has it.
pub open spec fn spec_repo_index(repos: Seq<RepositoryView>, forge: Seq<char>, forge_id: Seq<char>) -> int
    decreases repos.len(),
{
    if repos.len() == 0 {
        -1
    } else if repo_identity_is(repos[0], forge, forge_id) {
        0
    } else {
        let r = spec_repo_index(repos.drop_first(), forge, forge_id);
        if r == -1 {
            -1
        } else {
            r + 1
        }
    }
}

/// What the first matching position means: the record there carries the
/// identity, none before it does, and -1 means no record does.
pub proof fn lemma_spec_repo_index(repos: Seq<RepositoryView>, forge: Seq<char>, forge_id: Seq<char>)
    ensures
        spec_repo_index(repos, forge, forge_id) == -1 ==> forall|j: int|
            0 <= j < repos.len() ==> !repo_identity_is(#[trigger] repos[j], forge, forge_id),
        spec_repo_index(repos, forge, forge_id) != -1 ==> {
            let r = spec_repo_index(repos, forge, forge_id);
            0 <= r < repos.len() && repo_identity_is(repos[r], forge, forge_id) && forall|j: int|
                0 <= j < r ==> !repo_identity_is(#[trigger] repos[j], forge, forge_id)
        },
    decreases repos.len(),
{
    if repos.len() > 0 && !repo_identity_is(repos[0], forge, forge_id) {
        lemma_spec_repo_index(repos.drop_first(), forge, forge_id);
        let d = repos.drop_first();
        if spec_repo_index(repos, forge, forge_id) == -1 {
            assert forall|j: int|
                0 <= j < repos.len() implies !repo_identity_is(
                #[trigger] repos[j],
                forge,
                forge_id,
            ) by {
                if j > 0 {
                    assert(d[j - 1] == repos[j]);
                }
            }
        } else {
            let r = spec_repo_index(repos, forge, forge_id);
            assert(repos[r] == d[r - 1]);
            assert forall|j: int| 0 <= j < r implies !repo_identity_is(
                #[trigger] repos[j],
                forge,
                forge_id,
            ) by {
                if j > 0 {
                    assert(d[j - 1] == repos[j]);
                }
            }
        }
    }
}

/// Whether a stored crate carries the given natural identity.
pub open spec fn crate_identity_is(c: CrateRecordView, name: Seq<char>) -> bool {
    c.entity.name == name
}

/// The position of the first stored crate with the given name, or -1 when
/// none has it.
pub open spec fn spec_crate_index(crates: Seq<CrateRecordView>, name: Seq<char>) -> int
    decreases crates.len(),
{
    if crates.len() == 0 {
        -1
    } else if crate_identity_is(crates[0], name) {
        0
    } else {
        let r = spec_crate_index(crates.drop_first(), name);
        if r == -1 {
            -1
        } else {
            r + 1
        }
    }
}

/// What the first matching position means for crates.
pub proof fn lemma_spec_crate_index(crates: Seq<CrateRecordView>, name: Seq<char>)
    ensures
        spec_crate_index(crates, name) == -1 ==> forall|j: int|
            0 <= j < crates.len() ==> !crate_identity_is(#[trigger] crates[j], name),
        spec_crate_index(crates, name) != -1 ==> {
            let r = spec_crate_index(crates, name);
            0 <= r < crates.len() && crate_identity_is(crates[r], name) && forall|j: int|
                0 <= j < r ==> !crate_identity_is(#[trigger] crates[j], name)
        },
    decreases crates.len(),
{
    if crates.len() > 0 && !crate_identity_is(crates[0], name) {
        lemma_spec_crate_index(crates.drop_first(), name);
        let d = crates.drop_first();
        if spec_crate_index(crates, name) == -1 {
            assert forall|j: int| 0 <= j < crates.len() implies !crate_identity_is(
                #[trigger] crates[j],
                name,
            ) by {
                if j > 0 {
                    assert(d[j - 1] == crates[j]);
                }
            }
        } else {
            let r = spec_crate_index(crates, name);
            assert(crates[r] == d[r - 1]);
            assert forall|j: int| 0 <= j < r implies !crate_identity_is(
                #[trigger] crates[j],
                name,
            ) by {
                if j > 0 {
                    assert(d[j - 1] == crates[j]);
                }
            }
        }
    }
}

/// Whether a stored npm package carries the given natural identity.
pub open spec fn npm_identity_is(p: NpmRecordView, name: Seq<char>) -> bool {
    p.entity.name == name
}

/// The position of the first stored npm package with the given name, or -1
/// when none has it.
pub open spec fn spec_npm_index(pkgs: Seq<NpmRecordView>, name: Seq<char>) -> int
    decreases pkgs.len(),
{
    if pkgs.len() == 0 {
        -1
    } else if npm_identity_is(pkgs[0], name) {
        0
    } else {
        let r = spec_npm_index(pkgs.drop_first(), name);
        if r == -1 {
            -1
        } else {
            r + 1
        }
    }
}

/// What the first matching position means for npm packages.
pub proof fn lemma_spec_npm_index(pkgs: Seq<NpmRecordView>, name: Seq<char>)
    ensures
        spec_npm_index(pkgs, name) == -1 ==> forall|j: int|
            0 <= j < pkgs.len() ==> !npm_identity_is(#[trigger] pkgs[j], name),
        spec_npm_index(pkgs, name) != -1 ==> {
            let r = spec_npm_index(pkgs, name);
            0 <= r < pkgs.len() && npm_identity_is(pkgs[r], name) && forall|j: int|
                0 <= j < r ==> !npm_identity_is(#[trigger] pkgs[j], name)
        },
    decreases pkgs.len(),
{
    if pkgs.len() > 0 && !npm_identity_is(pkgs[0], name) {
        lemma_spec_npm_index(pkgs.drop_first(), name);
        let d = pkgs.drop_first();
        if spec_npm_index(pkgs, name) == -1 {
            assert forall|j: int| 0 <= j < pkgs.len() implies !npm_identity_is(
                #[trigger] pkgs[j],
                name,
            ) by {
                if j > 0 {
                    assert(d[j - 1] == pkgs[j]);
                }
            }
        } else {
            let r = spec_npm_index(pkgs, name);
            assert(pkgs[r] == d[r - 1]);
            assert forall|j: int| 0 <= j < r implies !npm_identity_is(#[trigger] pkgs[j], name) by {
                if j > 0 {
                    assert(d[j - 1] == pkgs[j]);
                }
            }
        }
    }
}

/// Whether a stored contribution carries the given natural identity.
pub open spec fn contribution_identity_is(
    c: ContributionRecordView,
    forge: Seq<char>,
    repo_owner: Seq<char>,
    repo_name: Seq<char>,
    url: Seq<char>,
) -> bool {
    c.entity.forge == forge && c.entity.repo_owner == repo_owner && c.entity.repo_name == repo_name
        && c.entity.url == url
}

/// The position of the first stored contribution with the given natural
/// identity, or -1 when none has it.
pub open spec fn spec_contribution_index(
    cs: Seq<ContributionRecordView>,
    forge: Seq<char>,
    repo_owner: Seq<char>,
    repo_name: Seq<char>,
    url: Seq<char>,
) -> int
    decreases cs.len(),
{
    if cs.len() == 0 {
        -1
    } else if contribution_identity_is(cs[0], forge, repo_owner, repo_name, url) {
        0
    } else {
        let r = spec_contribution_index(cs.drop_first(), forge, repo_owner, repo_name, url);
        if r == -1 {
            -1
        } else {
            r + 1
        }
    }
}

/// What the first matching position means for contributions.
pub proof fn lemma_spec_contribution_index(
    cs: Seq<ContributionRecordView>,
    forge: Seq<char>,
    repo_owner: Seq<char>,
    repo_name: Seq<char>,
    url: Seq<char>,
)
    ensures
        spec_contribution_index(cs, forge, repo_owner, repo_name, url) == -1 ==> forall|j: int|
            0 <= j < cs.len() ==> !contribution_identity_is(
                #[trigger] cs[j],
                forge,
                repo_owner,
                repo_name,
                url,
            ),
        spec_contribution_index(cs, forge, repo_owner, repo_name, url) != -1 ==> {
            let r = spec_contribution_index(cs, forge, repo_owner, repo_name, url);
            0 <= r < cs.len() && contribution_identity_is(cs[r], forge, repo_owner, repo_name, url)
                && forall|j: int| 0 <= j < r ==> !contribution_identity_is(
                #[trigger] cs[j],
                forge,
                repo_owner,
                repo_name,
                url,
            )
        },
    decreases cs.len(),
{
    if cs.len() > 0 && !contribution_identity_is(cs[0], forge, repo_owner, repo_name, url) {
        lemma_spec_contribution_index(cs.drop_first(), forge, repo_owner, repo_name, url);
        let d = cs.drop_first();
        if spec_contribution_index(cs, forge, repo_owner, repo_name, url) == -1 {
            assert forall|j: int| 0 <= j < cs.len() implies !contribution_identity_is(
                #[trigger] cs[j],
                forge,
                repo_owner,
                repo_name,
                url,
            ) by {
                if j > 0 {
                    assert(d[j - 1] == cs[j]);
                }
            }
        } else {
            let r = spec_contribution_index(cs, forge, repo_owner, repo_name, url);
            assert(cs[r] == d[r - 1]);
            assert forall|j: int| 0 <= j < r implies !contribution_identity_is(
                #[trigger] cs[j],
                forge,
                repo_owner,
                repo_name,
                url,
            ) by {
                if j > 0 {
                    assert(d[j - 1] == cs[j]);
                }
            }
        }
    }
}

/// The position of the first stored repository whose entity carries the
/// given URL, or -1 when none does.
pub open spec fn spec_url_index(repos: Seq<RepositoryView>, url: Seq<char>) -> int
    decreases repos.len(),
{
    if repos.len() == 0 {
        -1
    } else if repos[0].entity.url == url {
        0
    } else {
        let r = spec_url_index(repos.drop_first(), url);
        if r == -1 {
            -1
        } else {
            r + 1
        }
    }
}

/// What the first URL match means: the record there carries the URL, none
/// before it does, and -1 means no record does.
pub proof fn lemma_spec_url_index(repos: Seq<RepositoryView>, url: Seq<char>)
    ensures
        spec_url_index(repos, url) == -1 ==> forall|j: int|
            0 <= j < repos.len() ==> (#[trigger] repos[j]).entity.url != url,
        spec_url_index(repos, url) != -1 ==> {
            let r = spec_url_index(repos, url);
            0 <= r < repos.len() && repos[r].entity.url == url && forall|j: int|
                0 <= j < r ==> (#[trigger] repos[j]).entity.url != url
        },
    decreases repos.len(),
{
    if repos.len() > 0 && repos[0].entity.url != url {
        lemma_spec_url_index(repos.drop_first(), url);
        let d = repos.drop_first();
        if spec_url_index(repos, url) == -1 {
            assert forall|j: int| 0 <= j < repos.len() implies (#[trigger] repos[j]).entity.url
                != url by {
                if j > 0 {
                    assert(d[j - 1] == repos[j]);
                }
            }
        } else {
            let r = spec_url_index(repos, url);
            assert(repos[r] == d[r - 1]);
            assert forall|j: int| 0 <= j < r implies (#[trigger] repos[j]).entity.url != url by {
                if j > 0 {
                    assert(d[j - 1] == repos[j]);
                }
            }
        }
    }
}

/// The durable id of the first stored repository whose entity carries the
/// given URL, or nothing when none does: the exact cross-reference an
/// entity's declared repository URL resolves to.
pub open spec fn spec_url_lookup(repos: Seq<RepositoryView>, url: Seq<char>) -> Option<int> {
    let r = spec_url_index(repos, url);
    if r == -1 {
        None
    } else {
        Some(repos[r].id)
    }
}

/// Whether a durable id occurs in a list of ids.
pub open spec fn id_in(keep: Seq<u64>, id: int) -> bool {
    exists|i: int| 0 <= i < keep.len() && #[trigger] keep[i] as int == id
}

/// Whether a stored repository survives a stale-repository reconciliation
/// for a forge: records of other forges always survive, and records of that
/// forge survive exactly when their id is in the current pass's id set.
pub open spec fn spec_repo_retained(r: RepositoryView, forge: Seq<char>, keep: Seq<u64>) -> bool {
    !(r.entity.forge == forge && !id_in(keep, r.id))
}

/// The mathematical model of the store.
#[verifier::ext_equal]
pub struct StoreView {
    pub repositories: Seq<RepositoryView>,
    pub crates: Seq<CrateRecordView>,
    pub npm_packages: Seq<NpmRecordView>,
    pub contributions: Seq<ContributionRecordView>,
    pub next_id: int,
    pub now: int,
}

impl StoreView {
    /// The store's invariant: every durable id was assigned below the
    /// counter, so a fresh id never collides with a stored one.
    pub open spec fn wf(self) -> bool {
        &&& self.next_id >= 0
        &&& forall|i: int| 0 <= i < self.repositories.len() ==> 0 <= (
        #[trigger] self.repositories[i]).id < self.next_id
        &&& forall|i: int| 0 <= i < self.crates.len() ==> 0 <= (#[trigger] self.crates[i]).id
            < self.next_id
        &&& forall|i: int| 0 <= i < self.npm_packages.len() ==> 0 <= (
        #[trigger] self.npm_packages[i]).id < self.next_id
        &&& forall|i: int| 0 <= i < self.contributions.len() ==> 0 <= (
        #[trigger] self.contributions[i]).id < self.next_id
    }
}

/// The in-memory store: one table per entity kind, a counter assigning
/// durable ids, and the pass's timestamp stamped onto every upsert.
#[derive(Debug)]
pub struct SyncStore {
    pub repositories: Vec<Repository>,
    pub crates: Vec<Crate>,
    pub npm_packages: Vec<NpmPackage>,
    pub contributions: Vec<Contribution>,
    pub next_id: u64,
    pub now: i64,
}

impl View for SyncStore {
    type V = StoreView;

    open spec fn view(&self) -> StoreView {
        StoreView {
            repositories: self.repositories.deep_view(),
            crates: self.crates.deep_view(),
            npm_packages: self.npm_packages.deep_view(),
            contributions: self.contributions.deep_view(),
            next_id: self.next_id as int,
            now: self.now as int,
        }
    }
}

impl SyncStore {
    /// An empty store.
    pub fn new() -> (s: Self)
        ensures
            s@.repositories == Seq::<RepositoryView>::empty(),
            s@.crates == Seq::<CrateRecordView>::empty(),
            s@.npm_packages == Seq::<NpmRecordView>::empty(),
            s@.contributions == Seq::<ContributionRecordView>::empty(),
            s@.next_id == 0,
            s@.now == 0,
            s@.wf(),
    {
        let s = SyncStore {
            repositories: Vec::new(),
            crates: Vec::new(),
            npm_packages: Vec::new(),
            contributions: Vec::new(),
            next_id: 0,
            now: 0,
        };
        proof {
            assert(s@.repositories =~= Seq::<RepositoryView>::empty());
            assert(s@.crates =~= Seq::<CrateRecordView>::empty());
            assert(s@.npm_packages =~= Seq::<NpmRecordView>::empty());
            assert(s@.contributions =~= Seq::<ContributionRecordView>::empty());
        }
        s
    }

    fn find_repo(&self, forge: &String, forge_id: &String) -> (r: Option<usize>)
        ensures
            match r {
                Some(j) => j as int == spec_repo_index(self@.repositories, forge@, forge_id@) && (
                j as int) < self@.repositories.len() && repo_identity_is(
                    self@.repositories[j as int],
                    forge@,
                    forge_id@,
                ),
                None => spec_repo_index(self@.repositories, forge@, forge_id@) == -1,
            },
    {
        let ghost rv = self@.repositories;
        proof {
            lemma_spec_repo_index(rv, forge@, forge_id@);
        }
        let mut j: usize = 0;
        while j < self.repositories.len()
            invariant
                0 <= j <= self.repositories.len(),
                rv == self@.repositories,
                rv.len() == self.repositories.len(),
                forall|i: int| 0 <= i < j ==> !repo_identity_is(#[trigger] rv[i], forge@, forge_id@),
            decreases self.repositories.len() - j,
        {
            let rec = &self.repositories[j];
            if rec.entity.forge == *forge && rec.entity.forge_id == *forge_id {
                proof {
                    assert(repo_identity_is(rv[j as int], forge@, forge_id@));
                    lemma_spec_repo_index(rv, forge@, forge_id@);
                }
                return Some(j);
            }
            j = j + 1;
        }
        proof {
            lemma_spec_repo_index(rv, forge@, forge_id@);
        }
        None
    }

    /// Upserts a fetched repository by its natural identity `(forge,
    /// forge_id)`: an existing record is updated in place — every field
    /// overwritten, the id kept — and a new record is appended under a fresh
    /// id. Returns the record's durable id either way.
    pub fn upsert_repository(&mut self, f: &FetchedRepository) -> (id: u64)
        requires
            old(self)@.wf(),
            old(self)@.next_id < u64::MAX,
        ensures
            final(self)@.wf(),
            final(self)@.crates == old(self)@.crates,
            final(self)@.npm_packages == old(self)@.npm_packages,
            final(self)@.contributions == old(self)@.contributions,
            final(self)@.now == old(self)@.now,
            ({
                let j = spec_repo_index(old(self)@.repositories, f@.forge, f@.forge_id);
                if j == -1 {
                    &&& final(self)@.repositories == old(self)@.repositories.push(
                        RepositoryView {
                            id: old(self)@.next_id,
                            entity: f@,
                            synced_at: old(self)@.now,
                        },
                    )
                    &&& id as int == old(self)@.next_id
                    &&& final(self)@.next_id == old(self)@.next_id + 1
                } else {
                    &&& final(self)@.repositories == old(self)@.repositories.update(
                        j,
                        RepositoryView {
                            id: old(self)@.repositories[j].id,
                            entity: f@,
                            synced_at: old(self)@.now,
                        },
                    )
                    &&& id as int == old(self)@.repositories[j].id
                    &&& final(self)@.next_id == old(self)@.next_id
                }
            }),
    {
        match self.find_repo(&f.forge, &f.forge_id) {
            Some(j) => {
                let id = self.repositories[j].id;
                self.repositories.set(
                    j,
                    Repository { id, entity: f.clone(), synced_at: self.now },
                );
                proof {
                    assert(self@.repositories =~= old(self)@.repositories.update(
                        j as int,
                        RepositoryView {
                            id: old(self)@.repositories[j as int].id,
                            entity: f@,
                            synced_at: old(self)@.now,
                        },
                    ));
                }
                id
            },
            None => {
                let id = self.next_id;
                self.repositories.push(
                    Repository { id, entity: f.clone(), synced_at: self.now },
                );
                self.next_id = self.next_id + 1;
                proof {
                    assert(self@.repositories =~= old(self)@.repositories.push(
                        RepositoryView {
                            id: old(self)@.next_id,
                            entity: f@,
                            synced_at: old(self)@.now,
                        },
                    ));
                }
                id
            },
        }
    }

    fn find_crate(&self, name: &String) -> (r: Option<usize>)
        ensures
            match r {
                Some(j) => j as int == spec_crate_index(self@.crates, name@) && (j as int)
                    < self@.crates.len() && crate_identity_is(self@.crates[j as int], name@),
                None => spec_crate_index(self@.crates, name@) == -1,
            },
    {
        let ghost cv = self@.crates;
        let mut j: usize = 0;
        while j < self.crates.len()
            invariant
                0 <= j <= self.crates.len(),
                cv == self@.crates,
                cv.len() == self.crates.len(),
                forall|i: int| 0 <= i < j ==> !crate_identity_is(#[trigger] cv[i], name@),
            decreases self.crates.len() - j,
        {
            if self.crates[j].entity.name == *name {
                proof {
                    assert(crate_identity_is(cv[j as int], name@));
                    lemma_spec_crate_index(cv, name@);
                }
                return Some(j);
            }
            j = j + 1;
        }
        proof {
            lemma_spec_crate_index(cv, name@);
        }
        None
    }

    /// Upserts a fetched crate by its natural identity (its name), together
    /// with its resolved repository cross-reference: an existing record is
    /// updated in place — every field overwritten, the id kept — and a new
    /// record is appended under a fresh id. Returns the record's durable id
    /// either way.
    pub fn upsert_crate(&mut self, f: &FetchedCrate, repository_id: Option<u64>) -> (id: u64)
        requires
            old(self)@.wf(),
            old(self)@.next_id < u64::MAX,
        ensures
            final(self)@.wf(),
            final(self)@.repositories == old(self)@.repositories,
            final(self)@.npm_packages == old(self)@.npm_packages,
            final(self)@.contributions == old(self)@.contributions,
            final(self)@.now == old(self)@.now,
            ({
                let j = spec_crate_index(old(self)@.crates, f@.name);
                if j == -1 {
                    &&& final(self)@.crates == old(self)@.crates.push(
                        CrateRecordView {
                            id: old(self)@.next_id,
                            entity: f@,
                            repository_id: opt_id_int(repository_id),
                            synced_at: old(self)@.now,
                        },
                    )
                    &&& id as int == old(self)@.next_id
                    &&& final(self)@.next_id == old(self)@.next_id + 1
                } else {
                    &&& final(self)@.crates == old(self)@.crates.update(
                        j,
                        CrateRecordView {
                            id: old(self)@.crates[j].id,
                            entity: f@,
                            repository_id: opt_id_int(repository_id),
                            synced_at: old(self)@.now,
                        },
                    )
                    &&& id as int == old(self)@.crates[j].id
                    &&& final(self)@.next_id == old(self)@.next_id
                }
            }),
    {
        match self.find_crate(&f.name) {
            Some(j) => {
                let id = self.crates[j].id;
                self.crates.set(
                    j,
                    Crate { id, entity: f.clone(), repository_id, synced_at: self.now },
                );
                proof {
                    assert(self@.crates =~= old(self)@.crates.update(
                        j as int,
                        CrateRecordView {
                            id: old(self)@.crates[j as int].id,
                            entity: f@,
                            repository_id: opt_id_int(repository_id),
                            synced_at: old(self)@.now,
                        },
                    ));
                }
                id
            },
            None => {
                let id = self.next_id;
                self.crates.push(
                    Crate { id, entity: f.clone(), repository_id, synced_at: self.now },
                );
                self.next_id = self.next_id + 1;
                proof {
                    assert(self@.crates =~= old(self)@.crates.push(
                        CrateRecordView {
                            id: old(self)@.next_id,
                            entity: f@,
                            repository_id: opt_id_int(repository_id),
                            synced_at: old(self)@.now,
                        },
                    ));
                }
                id
            },
        }
    }

    fn find_npm(&self, name: &String) -> (r: Option<usize>)
        ensures
            match r {
                Some(j) => j as int == spec_npm_index(self@.npm_packages, name@) && (j as int)
                    < self@.npm_packages.len() && npm_identity_is(
                    self@.npm_packages[j as int],
                    name@,
                ),
                None => spec_npm_index(self@.npm_packages, name@) == -1,
            },
    {
        let ghost pv = self@.npm_packages;
        let mut j: usize = 0;
        while j < self.npm_packages.len()
            invariant
                0 <= j <= self.npm_packages.len(),
                pv == self@.npm_packages,
                pv.len() == self.npm_packages.len(),
                forall|i: int| 0 <= i < j ==> !npm_identity_is(#[trigger] pv[i], name@),
            decreases self.npm_packages.len() - j,
        {
            if self.npm_packages[j].entity.name == *name {
                proof {
                    assert(npm_identity_is(pv[j as int], name@));
                    lemma_spec_npm_index(pv, name@);
                }
                return Some(j);
            }
            j = j + 1;
        }
        proof {
            lemma_spec_npm_index(pv, name@);
        }
        None
    }

    /// Upserts a fetched npm package by its natural identity (its name),
    /// together with its resolved repository cross-reference: an existing
    /// record is updated in place — every field overwritten, the id kept —
    /// and a new record is appended under a fresh id. Returns the record's
    /// durable id either way.
    pub fn upsert_npm_package(&mut self, f: &NpmPackageSummary, repository_id: Option<u64>) -> (id:
        u64)
        requires
            old(self)@.wf(),
            old(self)@.next_id < u64::MAX,
        ensures
            final(self)@.wf(),
            final(self)@.repositories == old(self)@.repositories,
            final(self)@.crates == old(self)@.crates,
            final(self)@.contributions == old(self)@.contributions,
            final(self)@.now == old(self)@.now,
            ({
                let j = spec_npm_index(old(self)@.npm_packages, f@.name);
                if j == -1 {
                    &&& final(self)@.npm_packages == old(self)@.npm_packages.push(
                        NpmRecordView {
                            id: old(self)@.next_id,
                            entity: f@,
                            repository_id: opt_id_int(repository_id),
                            synced_at: old(self)@.now,
                        },
                    )
                    &&& id as int == old(self)@.next_id
                    &&& final(self)@.next_id == old(self)@.next_id + 1
                } else {
                    &&& final(self)@.npm_packages == old(self)@.npm_packages.update(
                        j,
                        NpmRecordView {
                            id: old(self)@.npm_packages[j].id,
                            entity: f@,
                            repository_id: opt_id_int(repository_id),
                            synced_at: old(self)@.now,
                        },
                    )
                    &&& id as int == old(self)@.npm_packages[j].id
                    &&& final(self)@.next_id == old(self)@.next_id
                }
            }),
    {
        match self.find_npm(&f.name) {
            Some(j) => {
                let id = self.npm_packages[j].id;
                self.npm_packages.set(
                    j,
                    NpmPackage { id, entity: f.clone(), repository_id, synced_at: self.now },
                );
                proof {
                    assert(self@.npm_packages =~= old(self)@.npm_packages.update(
                        j as int,
                        NpmRecordView {
                            id: old(self)@.npm_packages[j as int].id,
                            entity: f@,
                            repository_id: opt_id_int(repository_id),
                            synced_at: old(self)@.now,
                        },
                    ));
                }
                id
            },
            None => {
                let id = self.next_id;
                self.npm_packages.push(
                    NpmPackage { id, entity: f.clone(), repository_id, synced_at: self.now },
                );
                self.next_id = self.next_id + 1;
                proof {
                    assert(self@.npm_packages =~= old(self)@.npm_packages.push(
                        NpmRecordView {
                            id: old(self)@.next_id,
                            entity: f@,
                            repository_id: opt_id_int(repository_id),
                            synced_at: old(self)@.now,
                        },
                    ));
                }
                id
            },
        }
    }

    fn find_contribution(&self, f: &FetchedContribution) -> (r: Option<usize>)
        ensures
            match r {
                Some(j) => j as int == spec_contribution_index(
                    self@.contributions,
                    f@.forge,
                    f@.repo_owner,
                    f@.repo_name,
                    f@.url,
                ) && (j as int) < self@.contributions.len() && contribution_identity_is(
                    self@.contributions[j as int],
                    f@.forge,
                    f@.repo_owner,
                    f@.repo_name,
                    f@.url,
                ),
                None => spec_contribution_index(
                    self@.contributions,
                    f@.forge,
                    f@.repo_owner,
                    f@.repo_name,
                    f@.url,
                ) == -1,
            },
    {
        let ghost cv = self@.contributions;
        let mut j: usize = 0;
        while j < self.contributions.len()
            invariant
                0 <= j <= self.contributions.len(),
                cv == self@.contributions,
                cv.len() == self.contributions.len(),
                forall|i: int| 0 <= i < j ==> !contribution_identity_is(
                    #[trigger] cv[i],
                    f@.forge,
                    f@.repo_owner,
                    f@.repo_name,
                    f@.url,
                ),
            decreases self.contributions.len() - j,
        {
            let rec = &self.contributions[j];
            if rec.entity.forge == f.forge && rec.entity.repo_owner == f.repo_owner
                && rec.entity.repo_name == f.repo_name && rec.entity.url == f.url {
                proof {
                    assert(contribution_identity_is(
                        cv[j as int],
                        f@.forge,
                        f@.repo_owner,
                        f@.repo_name,
                        f@.url,
                    ));
                    lemma_spec_contribution_index(
                        cv,
                        f@.forge,
                        f@.repo_owner,
                        f@.repo_name,
                        f@.url,
                    );
                }
                return Some(j);
            }
            j = j + 1;
        }
        proof {
            lemma_spec_contribution_index(cv, f@.forge, f@.repo_owner, f@.repo_name, f@.url);
        }
        None
    }

    /// Upserts a fetched contribution by its natural identity `(forge,
    /// repo_owner, repo_name, url)`: an existing record is updated in place —
    /// every field overwritten, the id kept — and a new record is appended
    /// under a fresh id. Returns the record's durable id either way.
    pub fn upsert_contribution(&mut self, f: &FetchedContribution) -> (id: u64)
        requires
            old(self)@.wf(),
            old(self)@.next_id < u64::MAX,
        ensures
            final(self)@.wf(),
            final(self)@.repositories == old(self)@.repositories,
            final(self)@.crates == old(self)@.crates,
            final(self)@.npm_packages == old(self)@.npm_packages,
            final(self)@.now == old(self)@.now,
            ({
                let j = spec_contribution_index(
                    old(self)@.contributions,
                    f@.forge,
                    f@.repo_owner,
                    f@.repo_name,
                    f@.url,
                );
                if j == -1 {
                    &&& final(self)@.contributions == old(self)@.contributions.push(
                        ContributionRecordView {
                            id: old(self)@.next_id,
                            entity: f@,
                            synced_at: old(self)@.now,
                        },
                    )
                    &&& id as int == old(self)@.next_id
                    &&& final(self)@.next_id == old(self)@.next_id + 1
                } else {
                    &&& final(self)@.contributions == old(self)@.contributions.update(
                        j,
                        ContributionRecordView {
                            id: old(self)@.contributions[j].id,
                            entity: f@,
                            synced_at: old(self)@.now,
                        },
                    )
                    &&& id as int == old(self)@.contributions[j].id
                    &&& final(self)@.next_id == old(self)@.next_id
                }
            }),
    {
        match self.find_contribution(f) {
            Some(j) => {
                let id = self.contributions[j].id;
                self.contributions.set(
                    j,
                    Contribution { id, entity: f.clone(), synced_at: self.now },
                );
                proof {
                    assert(self@.contributions =~= old(self)@.contributions.update(
                        j as int,
                        ContributionRecordView {
                            id: old(self)@.contributions[j as int].id,
                            entity: f@,
                            synced_at: old(self)@.now,
                        },
                    ));
                }
                id
            },
            None => {
                let id = self.next_id;
                self.contributions.push(
                    Contribution { id, entity: f.clone(), synced_at: self.now },
                );
                self.next_id = self.next_id + 1;
                proof {
                    assert(self@.contributions =~= old(self)@.contributions.push(
                        ContributionRecordView {
                            id: old(self)@.next_id,
                            entity: f@,
                            synced_at: old(self)@.now,
                        },
                    ));
                }
                id
            },
        }
    }

    /// Looks one URL up among the stored repositories: the durable id of the
    /// first record carrying it, or nothing when none does.
    pub fn get_repository_by_url(&self, url: &str) -> (r: Option<u64>)
        ensures
            opt_id_int(r) == spec_url_lookup(self@.repositories, url@),
    {
        let ghost rv = self@.repositories;
        proof {
            lemma_spec_url_index(rv, url@);
        }
        let mut j: usize = 0;
        while j < self.repositories.len()
            invariant
                0 <= j <= self.repositories.len(),
                rv == self@.repositories,
                rv.len() == self.repositories.len(),
                forall|i: int| 0 <= i < j ==> (#[trigger] rv[i]).entity.url != url@,
            decreases self.repositories.len() - j,
        {
            let rec = &self.repositories[j];
            if crate::text::str_eq(rec.entity.url.as_str(), url) {
                proof {
                    assert(rv[j as int].entity.url == url@);
                    lemma_spec_url_index(rv, url@);
                    assert(spec_url_index(rv, url@) == j as int);
                }
                return Some(rec.id);
            }
            j = j + 1;
        }
        proof {
            lemma_spec_url_index(rv, url@);
        }
        None
    }

    /// Looks a batch of candidate URLs up among the stored repositories in
    /// one pass: one pair per URL that resolved, in order, each carrying the
    /// id its URL resolves to. Unmatched URLs yield no pair.
    pub fn get_repositories_by_urls(&self, urls: &Vec<String>) -> (pairs: Vec<RepoUrlId>)
        ensures
            pairs.deep_view() == spec_filter_map(
                urls.deep_view(),
                |u: Seq<char>|
                    match spec_url_lookup(self@.repositories, u) {
                        Some(id) => Some(RepoUrlIdView { url: u, id }),
                        None => None,
                    },
            ),
    {
        let ghost uv = urls.deep_view();
        let ghost f = |u: Seq<char>|
            match spec_url_lookup(self@.repositories, u) {
                Some(id) => Some(RepoUrlIdView { url: u, id }),
                None => None,
            };
        let mut pairs: Vec<RepoUrlId> = Vec::new();
        let mut j: usize = 0;
        while j < urls.len()
            invariant
                0 <= j <= urls.len(),
                uv == urls.deep_view(),
                uv.len() == urls.len(),
                f == (|u: Seq<char>|
                    match spec_url_lookup(self@.repositories, u) {
                        Some(id) => Some(RepoUrlIdView { url: u, id }),
                        None => None,
                    }),
                pairs.deep_view() =~= spec_filter_map(uv.take(j as int), f),
            decreases urls.len() - j,
        {
            proof {
                assert(uv.take(j + 1) =~= uv.take(j as int).push(uv[j as int]));
                lemma_filter_map_option_push(uv.take(j as int), uv[j as int], f);
            }
            let u = &urls[j];
            if let Some(id) = self.get_repository_by_url(u.as_str()) {
                pairs.push(RepoUrlId { url: u.clone(), id });
            }
            proof {
                assert(pairs.deep_view() =~= spec_filter_map(uv.take(j + 1), f));
            }
            j = j + 1;
        }
        proof {
            assert(uv.take(urls.len() as int) =~= uv);
        }
        pairs
    }

    /// Removes every stored repository of one forge whose id is not in the
    /// current pass's id set — the explicit stale-repository reconciliation
    /// step. Records of other forges are untouched, order is kept, and the
    /// number of removed records is returned.
    pub fn delete_stale_repositories(&mut self, forge: &str, synced_ids: &Vec<u64>) -> (count: u64)
        requires
            old(self)@.wf(),
        ensures
            final(self)@.wf(),
            final(self)@.crates == old(self)@.crates,
            final(self)@.npm_packages == old(self)@.npm_packages,
            final(self)@.contributions == old(self)@.contributions,
            final(self)@.now == old(self)@.now,
            final(self)@.next_id == old(self)@.next_id,
            final(self)@.repositories == old(self)@.repositories.filter(
                |r: RepositoryView| spec_repo_retained(r, forge@, synced_ids@),
            ),
            count == old(self)@.repositories.len() - final(self)@.repositories.len(),
    {
        let ghost rv = self@.repositories;
        let ghost pred = |r: RepositoryView| spec_repo_retained(r, forge@, synced_ids@);
        let mut kept: Vec<Repository> = Vec::new();
        let mut j: usize = 0;
        while j < self.repositories.len()
            invariant
                0 <= j <= self.repositories.len(),
                *self == *old(self),
                self@.wf(),
                rv == self@.repositories,
                rv.len() == self.repositories.len(),
                pred == (|r: RepositoryView| spec_repo_retained(r, forge@, synced_ids@)),
                kept.deep_view() =~= rv.take(j as int).filter(pred),
                forall|i: int| 0 <= i < kept.deep_view().len() ==> 0 <= (
                #[trigger] kept.deep_view()[i]).id < self@.next_id,
            decreases self.repositories.len() - j,
        {
            proof {
                assert(rv.take(j + 1) =~= rv.take(j as int).push(rv[j as int]));
                crate::pagination::lemma_filter_push(rv.take(j as int), rv[j as int], pred);
            }
            let rec = &self.repositories[j];
            let is_forge = crate::text::str_eq(rec.entity.forge.as_str(), forge);
            let in_ids = contains_id(synced_ids, rec.id);
            if !(is_forge && !in_ids) {
                proof {
                    assert(spec_repo_retained(rv[j as int], forge@, synced_ids@));
                    assert(0 <= rv[j as int].id < self@.next_id);
                }
                kept.push(rec.clone());
                proof {
                    assert(kept.deep_view().last() == rv[j as int]);
                }
            } else {
                proof {
                    assert(!spec_repo_retained(rv[j as int], forge@, synced_ids@));
                }
            }
            proof {
                assert(kept.deep_view() =~= rv.take(j + 1).filter(pred));
            }
            j = j + 1;
        }
        proof {
            assert(rv.take(self.repositories.len() as int) =~= rv);
            rv.lemma_filter_len(pred);
        }
        let count = (self.repositories.len() - kept.len()) as u64;
        self.repositories = kept;
        count
    }
}

/// The view of one resolved URL pair.
#[verifier::ext_equal]
pub struct RepoUrlIdView {
    pub url: Seq<char>,
    pub id: int,
}

/// One resolved pair of a batch URL lookup: a candidate URL and the durable
/// id it resolves to.
#[derive(Debug)]
pub struct RepoUrlId {
    pub url: String,
    pub id: u64,
}

impl View for RepoUrlId {
    type V = RepoUrlIdView;

    open spec fn view(&self) -> RepoUrlIdView {
        RepoUrlIdView { url: self.url@, id: self.id as int }
    }
}

impl DeepView for RepoUrlId {
    type V = RepoUrlIdView;

    open spec fn deep_view(&self) -> RepoUrlIdView {
        self.view()
    }
}

/// Tests whether a durable id occurs in a list of ids.
fn contains_id(ids: &Vec<u64>, id: u64) -> (r: bool)
    ensures
        r == id_in(ids@, id as int),
{
    let mut j: usize = 0;
    while j < ids.len()
        invariant
            0 <= j <= ids.len(),
            forall|i: int| 0 <= i < j ==> #[trigger] ids@[i] != id,
        decreases ids.len() - j,
    {
        if ids[j] == id {
            assert(ids@[j as int] as int == id as int);
            return true;
        }
        j = j + 1;
    }
    assert(!id_in(ids@, id as int)) by {
        assert forall|i: int| 0 <= i < ids@.len() implies !(#[trigger] ids@[i] as int
            == id as int) by {
            assert(ids@[i] != id);
        }
    }
    false
}

/// The store after one repository upsert, and the id it returns.
pub open spec fn spec_upsert_repo(s: StoreView, f: RepoView) -> (StoreView, int) {
    let j = spec_repo_index(s.repositories, f.forge, f.forge_id);
    if j == -1 {
        (
            StoreView {
                repositories: s.repositories.push(
                    RepositoryView { id: s.next_id, entity: f, synced_at: s.now },
                ),
                next_id: s.next_id + 1,
                ..s
            },
            s.next_id,
        )
    } else {
        (
            StoreView {
                repositories: s.repositories.update(
                    j,
                    RepositoryView { id: s.repositories[j].id, entity: f, synced_at: s.now },
                ),
                ..s
            },
            s.repositories[j].id,
        )
    }
}

/// The repository cross-reference one fetched crate resolves to: the id of
/// the stored repository its declared repository URL matches exactly, and
/// nothing — never an error — when it declares none or none matches.
pub open spec fn spec_crate_repo_ref(repos: Seq<RepositoryView>, f: CrateView) -> Option<int> {
    match f.repository_url {
        Some(u) => spec_url_lookup(repos, u),
        None => None,
    }
}

/// The store after one crate upsert with a resolved cross-reference, and the
/// id it returns.
pub open spec fn spec_upsert_crate(s: StoreView, f: CrateView, rid: Option<int>) -> (
    StoreView,
    int,
) {
    let j = spec_crate_index(s.crates, f.name);
    if j == -1 {
        (
            StoreView {
                crates: s.crates.push(
                    CrateRecordView {
                        id: s.next_id,
                        entity: f,
                        repository_id: rid,
                        synced_at: s.now,
                    },
                ),
                next_id: s.next_id + 1,
                ..s
            },
            s.next_id,
        )
    } else {
        (
            StoreView {
                crates: s.crates.update(
                    j,
                    CrateRecordView {
                        id: s.crates[j].id,
                        entity: f,
                        repository_id: rid,
                        synced_at: s.now,
                    },
                ),
                ..s
            },
            s.crates[j].id,
        )
    }
}

/// The repository cross-reference one fetched npm package resolves to: the
/// id of the stored repository its declared repository URL matches exactly,
/// and nothing — never an error — when it declares none or none matches.
pub open spec fn spec_npm_repo_ref(repos: Seq<RepositoryView>, f: NpmPackageView) -> Option<int> {
    match f.repository_url {
        Some(u) => spec_url_lookup(repos, u),
        None => None,
    }
}

/// The store after one npm-package upsert with a resolved cross-reference,
/// and the id it returns.
pub open spec fn spec_upsert_npm(s: StoreView, f: NpmPackageView, rid: Option<int>) -> (
    StoreView,
    int,
) {
    let j = spec_npm_index(s.npm_packages, f.name);
    if j == -1 {
        (
            StoreView {
                npm_packages: s.npm_packages.push(
                    NpmRecordView { id: s.next_id, entity: f, repository_id: rid, synced_at: s.now },
                ),
                next_id: s.next_id + 1,
                ..s
            },
            s.next_id,
        )
    } else {
        (
            StoreView {
                npm_packages: s.npm_packages.update(
                    j,
                    NpmRecordView {
                        id: s.npm_packages[j].id,
                        entity: f,
                        repository_id: rid,
                        synced_at: s.now,
                    },
                ),
                ..s
            },
            s.npm_packages[j].id,
        )
    }
}

/// The store after one contribution upsert, and the id it returns.
pub open spec fn spec_upsert_contribution(s: StoreView, f: ContributionView) -> (StoreView, int) {
    let j = spec_contribution_index(s.contributions, f.forge, f.repo_owner, f.repo_name, f.url);
    if j == -1 {
        (
            StoreView {
                contributions: s.contributions.push(
                    ContributionRecordView { id: s.next_id, entity: f, synced_at: s.now },
                ),
                next_id: s.next_id + 1,
                ..s
            },
            s.next_id,
        )
    } else {
        (
            StoreView {
                contributions: s.contributions.update(
                    j,
                    ContributionRecordView {
                        id: s.contributions[j].id,
                        entity: f,
                        synced_at: s.now,
                    },
                ),
                ..s
            },
            s.contributions[j].id,
        )
    }
}

/// The idempotence law of upserts: writing the same natural identity twice,
/// with possibly different field values, leaves as many stored records as
/// one write does, returns the same durable id both times, and the record
/// under that identity carries the latest values under that id.
pub proof fn lemma_upsert_repository_idempotent(s: StoreView, f1: RepoView, f2: RepoView)
    requires
        f1.forge == f2.forge,
        f1.forge_id == f2.forge_id,
    ensures
        ({
            let first = spec_upsert_repo(s, f1);
            let second = spec_upsert_repo(first.0, f2);
            &&& second.1 == first.1
            &&& second.0.repositories.len() == first.0.repositories.len()
            &&& ({
                let j = spec_repo_index(first.0.repositories, f2.forge, f2.forge_id);
                &&& 0 <= j < second.0.repositories.len()
                &&& second.0.repositories[j].entity == f2
                &&& second.0.repositories[j].id == first.1
            })
        }),
{
    let j0 = spec_repo_index(s.repositories, f1.forge, f1.forge_id);
    lemma_spec_repo_index(s.repositories, f1.forge, f1.forge_id);
    let r1 = spec_upsert_repo(s, f1).0.repositories;
    let t: int = if j0 == -1 {
        s.repositories.len() as int
    } else {
        j0
    };
    assert(repo_identity_is(r1[t], f2.forge, f2.forge_id));
    assert forall|j: int| 0 <= j < t implies !repo_identity_is(
        #[trigger] r1[j],
        f2.forge,
        f2.forge_id,
    ) by {
        assert(r1[j] == s.repositories[j]);
    }
    lemma_spec_repo_index(r1, f2.forge, f2.forge_id);
    assert(spec_repo_index(r1, f2.forge, f2.forge_id) == t);
}

/// The cross-reference resolution law: a package's declared repository URL
/// that exactly matches a stored repository's URL resolves to a stored
/// repository's durable id; a missing URL, or one matching nothing, resolves
/// to no link — never an error.
pub proof fn lemma_cross_reference_resolution(repos: Seq<RepositoryView>, f: CrateView)
    ensures
        match f.repository_url {
            None => spec_crate_repo_ref(repos, f) is None,
            Some(u) => {
                let r = spec_crate_repo_ref(repos, f);
                &&& (r is None <==> forall|j: int| 0 <= j < repos.len() ==> (
                #[trigger] repos[j]).entity.url != u)
                &&& (r is Some ==> exists|j: int|
                    0 <= j < repos.len() && (#[trigger] repos[j]).entity.url == u && repos[j].id
                        == r.unwrap())
            },
        },
{
    match f.repository_url {
        None => {},
        Some(u) => {
            lemma_spec_url_index(repos, u);
            let i = spec_url_index(repos, u);
            if i != -1 {
                assert(0 <= i < repos.len() && repos[i].entity.url == u && repos[i].id
                    == spec_crate_repo_ref(repos, f).unwrap());
            }
        },
    }
}

} // verus!
