//! The synchronization orchestrator: one full pass forwards each configured
//! source's fetched entities to the store, sequentially and in a fixed order
//! — forges, then the package registries, then contributions. A failing
//! phase stops the pass there: earlier phases' writes remain, later phases
//! are never attempted, and the pass reports that phase's error.

use vstd::prelude::*;

use crate::entities::{ContributionView, CrateView, FetchedContribution, FetchedCrate,
    FetchedRepository, NpmPackageSummary, NpmPackageView, RepoView};
use crate::errors::SyncError;
use crate::store::{
    spec_crate_repo_ref, spec_npm_repo_ref, spec_upsert_contribution, spec_upsert_crate,
    spec_upsert_npm, spec_upsert_repo, StoreView, SyncStore,
};

verus! {

/// The store after a forge phase upserts its fetched repositories in order.
pub open spec fn spec_apply_repos(s: StoreView, fs: Seq<RepoView>) -> StoreView
    decreases fs.len(),
{
    if fs.len() == 0 {
        s
    } else {
        spec_apply_repos(spec_upsert_repo(s, fs[0]).0, fs.drop_first())
    }
}

/// The store after the registry phase upserts its fetched crates in order,
/// each with the cross-reference its repository URL resolves to among the
/// repositories as they stood before the phase (crate upserts leave the
/// repositories unchanged, so resolution never sees the phase's own writes).
pub open spec fn spec_apply_crates(s: StoreView, fs: Seq<CrateView>) -> StoreView
    decreases fs.len(),
{
    if fs.len() == 0 {
        s
    } else {
        spec_apply_crates(
            spec_upsert_crate(s, fs[0], spec_crate_repo_ref(s.repositories, fs[0])).0,
            fs.drop_first(),
        )
    }
}

/// The store after the npm phase upserts its fetched packages in order, each
/// with the cross-reference its repository URL resolves to among the
/// repositories as they stood before the phase (package upserts leave the
/// repositories unchanged, so resolution never sees the phase's own writes).
pub open spec fn spec_apply_npm_packages(s: StoreView, fs: Seq<NpmPackageView>) -> StoreView
    decreases fs.len(),
{
    if fs.len() == 0 {
        s
    } else {
        spec_apply_npm_packages(
            spec_upsert_npm(s, fs[0], spec_npm_repo_ref(s.repositories, fs[0])).0,
            fs.drop_first(),
        )
    }
}

/// The store after the contribution phase upserts its fetched contributions
/// in order.
pub open spec fn spec_apply_contributions(s: StoreView, fs: Seq<ContributionView>) -> StoreView
    decreases fs.len(),
{
    if fs.len() == 0 {
        s
    } else {
        spec_apply_contributions(spec_upsert_contribution(s, fs[0]).0, fs.drop_first())
    }
}

/// Forwards one forge's fetched repositories to the store, upserting each in
/// order.
pub fn sync_forge(store: &mut SyncStore, repos: &Vec<FetchedRepository>)
    requires
        old(store)@.wf(),
        old(store)@.next_id + repos@.len() <= u64::MAX,
    ensures
        final(store)@.wf(),
        final(store)@ == spec_apply_repos(old(store)@, repos.deep_view()),
        final(store)@.next_id <= old(store)@.next_id + repos@.len(),
{
    let ghost rv = repos.deep_view();
    proof {
        assert(rv.skip(0) =~= rv);
    }
    let mut i: usize = 0;
    while i < repos.len()
        invariant
            0 <= i <= repos.len(),
            rv == repos.deep_view(),
            rv.len() == repos.len(),
            store@.wf(),
            store@.next_id <= old(store)@.next_id + i,
            old(store)@.next_id + repos@.len() <= u64::MAX,
            spec_apply_repos(old(store)@, rv) == spec_apply_repos(store@, rv.skip(i as int)),
        decreases repos.len() - i,
    {
        let ghost prev = store@;
        proof {
            assert(rv.skip(i as int)[0] == rv[i as int]);
            assert(rv.skip(i as int).drop_first() =~= rv.skip(i + 1));
        }
        store.upsert_repository(&repos[i]);
        proof {
            assert(store@ =~= spec_upsert_repo(prev, rv[i as int]).0);
        }
        i = i + 1;
    }
    proof {
        assert(rv.skip(repos.len() as int).len() == 0);
    }
}

/// Forwards the registry's fetched crates to the store, upserting each in
/// order with the repository cross-reference its declared URL resolves to:
/// resolution is computed against the repositories already stored when the
/// phase starts, and an unmatched or missing URL leaves the link empty,
/// never an error.
pub fn sync_crates(store: &mut SyncStore, crates: &Vec<FetchedCrate>)
    requires
        old(store)@.wf(),
        old(store)@.next_id + crates@.len() <= u64::MAX,
    ensures
        final(store)@.wf(),
        final(store)@ == spec_apply_crates(old(store)@, crates.deep_view()),
        final(store)@.next_id <= old(store)@.next_id + crates@.len(),
        final(store)@.repositories == old(store)@.repositories,
{
    let ghost cv = crates.deep_view();
    proof {
        assert(cv.skip(0) =~= cv);
    }
    let mut i: usize = 0;
    while i < crates.len()
        invariant
            0 <= i <= crates.len(),
            cv == crates.deep_view(),
            cv.len() == crates.len(),
            store@.wf(),
            store@.next_id <= old(store)@.next_id + i,
            old(store)@.next_id + crates@.len() <= u64::MAX,
            store@.repositories == old(store)@.repositories,
            spec_apply_crates(old(store)@, cv) == spec_apply_crates(store@, cv.skip(i as int)),
        decreases crates.len() - i,
    {
        let ghost prev = store@;
        proof {
            assert(cv.skip(i as int)[0] == cv[i as int]);
            assert(cv.skip(i as int).drop_first() =~= cv.skip(i + 1));
        }
        let f = &crates[i];
        let rid: Option<u64> = match &f.repository_url {
            Some(u) => store.get_repository_by_url(u.as_str()),
            None => None,
        };
        proof {
            assert(crate::store::opt_id_int(rid) == spec_crate_repo_ref(prev.repositories, cv[i as int]));
        }
        store.upsert_crate(f, rid);
        proof {
            assert(store@ =~= spec_upsert_crate(
                prev,
                cv[i as int],
                spec_crate_repo_ref(prev.repositories, cv[i as int]),
            ).0);
        }
        i = i + 1;
    }
    proof {
        assert(cv.skip(crates.len() as int).len() == 0);
    }
}

/// Forwards the registry's fetched npm packages to the store, upserting each
/// in order with the repository cross-reference its declared URL resolves
/// to: resolution is computed against the repositories already stored when
/// the phase starts, and an unmatched or missing URL leaves the link empty,
/// never an error.
pub fn sync_npm_packages(store: &mut SyncStore, packages: &Vec<NpmPackageSummary>)
    requires
        old(store)@.wf(),
        old(store)@.next_id + packages@.len() <= u64::MAX,
    ensures
        final(store)@.wf(),
        final(store)@ == spec_apply_npm_packages(old(store)@, packages.deep_view()),
        final(store)@.next_id <= old(store)@.next_id + packages@.len(),
        final(store)@.repositories == old(store)@.repositories,
{
    let ghost pv = packages.deep_view();
    proof {
        assert(pv.skip(0) =~= pv);
    }
    let mut i: usize = 0;
    while i < packages.len()
        invariant
            0 <= i <= packages.len(),
            pv == packages.deep_view(),
            pv.len() == packages.len(),
            store@.wf(),
            store@.next_id <= old(store)@.next_id + i,
            old(store)@.next_id + packages@.len() <= u64::MAX,
            store@.repositories == old(store)@.repositories,
            spec_apply_npm_packages(old(store)@, pv) == spec_apply_npm_packages(
                store@,
                pv.skip(i as int),
            ),
        decreases packages.len() - i,
    {
        let ghost prev = store@;
        proof {
            assert(pv.skip(i as int)[0] == pv[i as int]);
            assert(pv.skip(i as int).drop_first() =~= pv.skip(i + 1));
        }
        let f = &packages[i];
        let rid: Option<u64> = match &f.repository_url {
            Some(u) => store.get_repository_by_url(u.as_str()),
            None => None,
        };
        proof {
            assert(crate::store::opt_id_int(rid) == spec_npm_repo_ref(
                prev.repositories,
                pv[i as int],
            ));
        }
        store.upsert_npm_package(f, rid);
        proof {
            assert(store@ =~= spec_upsert_npm(
                prev,
                pv[i as int],
                spec_npm_repo_ref(prev.repositories, pv[i as int]),
            ).0);
        }
        i = i + 1;
    }
    proof {
        assert(pv.skip(packages.len() as int).len() == 0);
    }
}

/// Forwards the fetched contributions to the store, upserting each in order.
pub fn sync_contributions(store: &mut SyncStore, contributions: &Vec<FetchedContribution>)
    requires
        old(store)@.wf(),
        old(store)@.next_id + contributions@.len() <= u64::MAX,
    ensures
        final(store)@.wf(),
        final(store)@ == spec_apply_contributions(old(store)@, contributions.deep_view()),
        final(store)@.next_id <= old(store)@.next_id + contributions@.len(),
{
    let ghost cv = contributions.deep_view();
    proof {
        assert(cv.skip(0) =~= cv);
    }
    let mut i: usize = 0;
    while i < contributions.len()
        invariant
            0 <= i <= contributions.len(),
            cv == contributions.deep_view(),
            cv.len() == contributions.len(),
            store@.wf(),
            store@.next_id <= old(store)@.next_id + i,
            old(store)@.next_id + contributions@.len() <= u64::MAX,
            spec_apply_contributions(old(store)@, cv) == spec_apply_contributions(
                store@,
                cv.skip(i as int),
            ),
        decreases contributions.len() - i,
    {
        let ghost prev = store@;
        proof {
            assert(cv.skip(i as int)[0] == cv[i as int]);
            assert(cv.skip(i as int).drop_first() =~= cv.skip(i + 1));
        }
        store.upsert_contribution(&contributions[i]);
        proof {
            assert(store@ =~= spec_upsert_contribution(prev, cv[i as int]).0);
        }
        i = i + 1;
    }
    proof {
        assert(cv.skip(contributions.len() as int).len() == 0);
    }
}

/// Every configured source's fetch outcome, bundled for one pass: zero or
/// more forges, at most one crate registry, at most one contribution
/// adapter.
pub struct SyncSources {
    pub forges: Vec<Result<Vec<FetchedRepository>, SyncError>>,
    pub crates_io: Option<Result<Vec<FetchedCrate>, SyncError>>,
    pub npm: Option<Result<Vec<NpmPackageSummary>, SyncError>>,
    pub contributions: Option<Result<Vec<FetchedContribution>, SyncError>>,
}

impl SyncSources {
    /// Whether no source at all is configured.
    pub fn is_empty(&self) -> (r: bool)
        ensures
            r == (self.forges@.len() == 0 && self.crates_io is None && self.npm is None
                && self.contributions is None),
    {
        self.forges.len() == 0 && self.crates_io.is_none() && self.npm.is_none()
            && self.contributions.is_none()
    }
}

/// How many entities one fetch outcome carries: a failed fetch carries none.
pub open spec fn spec_fetched_len<T>(r: Result<Vec<T>, SyncError>) -> int {
    match r {
        Ok(v) => v@.len() as int,
        Err(_) => 0,
    }
}

/// How many repositories the forge outcomes carry in all.
pub open spec fn spec_forges_len(fs: Seq<Result<Vec<FetchedRepository>, SyncError>>) -> int
    decreases fs.len(),
{
    if fs.len() == 0 {
        0
    } else {
        spec_fetched_len(fs[0]) + spec_forges_len(fs.drop_first())
    }
}

proof fn lemma_forges_len_nonneg(fs: Seq<Result<Vec<FetchedRepository>, SyncError>>)
    ensures
        spec_forges_len(fs) >= 0,
    decreases fs.len(),
{
    if fs.len() > 0 {
        lemma_forges_len_nonneg(fs.drop_first());
    }
}

/// How many entities one option of a fetch outcome carries.
pub open spec fn spec_opt_fetched_len<T>(r: Option<Result<Vec<T>, SyncError>>) -> int {
    match r {
        Some(rr) => spec_fetched_len(rr),
        None => 0,
    }
}

/// How many entities all the sources' outcomes carry in all.
pub open spec fn spec_total_fetched(s: SyncSources) -> int {
    spec_forges_len(s.forges@) + spec_opt_fetched_len(s.crates_io) + spec_opt_fetched_len(s.npm)
        + spec_opt_fetched_len(s.contributions)
}

/// The store after the forge phase walks the forge outcomes in order, and
/// the error that stopped it, if one did: each successful fetch's
/// repositories are upserted; the first failed fetch stops the phase with
/// the store as it stood.
pub open spec fn spec_run_forges(
    s: StoreView,
    fs: Seq<Result<Vec<FetchedRepository>, SyncError>>,
) -> (StoreView, Option<SyncError>)
    decreases fs.len(),
{
    if fs.len() == 0 {
        (s, None)
    } else {
        match fs[0] {
            Err(e) => (s, Some(e)),
            Ok(v) => spec_run_forges(spec_apply_repos(s, v.deep_view()), fs.drop_first()),
        }
    }
}

/// The store after one full pass over the sources, and the pass's error, if
/// any: phases run sequentially in a fixed order — forges, then the
/// registry, then contributions — and the first failing phase stops the
/// pass, leaving earlier phases' writes in place and later phases never
/// applied. The registry phases run crates first, then npm packages.
pub open spec fn spec_run_sync(s: StoreView, src: SyncSources) -> (StoreView, Option<SyncError>) {
    let forges = spec_run_forges(s, src.forges@);
    if forges.1 is Some {
        forges
    } else {
        let s1 = forges.0;
        match src.crates_io {
            Some(Err(e)) => (s1, Some(e)),
            _ => {
                let s2 = match src.crates_io {
                    Some(Ok(v)) => spec_apply_crates(s1, v.deep_view()),
                    _ => s1,
                };
                match src.npm {
                    Some(Err(e)) => (s2, Some(e)),
                    _ => {
                        let s3 = match src.npm {
                            Some(Ok(v)) => spec_apply_npm_packages(s2, v.deep_view()),
                            _ => s2,
                        };
                        match src.contributions {
                            Some(Err(e)) => (s3, Some(e)),
                            _ => {
                                let s4 = match src.contributions {
                                    Some(Ok(v)) => spec_apply_contributions(s3, v.deep_view()),
                                    _ => s3,
                                };
                                (s4, None)
                            },
                        }
                    },
                }
            },
        }
    }
}

proof fn lemma_apply_repos_touches_only_repositories(s: StoreView, fs: Seq<RepoView>)
    ensures
        spec_apply_repos(s, fs).crates == s.crates,
        spec_apply_repos(s, fs).npm_packages == s.npm_packages,
        spec_apply_repos(s, fs).contributions == s.contributions,
        spec_apply_repos(s, fs).now == s.now,
    decreases fs.len(),
{
    if fs.len() > 0 {
        lemma_apply_repos_touches_only_repositories(spec_upsert_repo(s, fs[0]).0, fs.drop_first());
    }
}

/// The forge phase writes nothing but repositories: the crate, package and
/// contribution tables, and the pass timestamp, come out of it exactly as
/// they went in, whatever the forge outcomes were.
pub proof fn lemma_forge_phase_touches_only_repositories(
    s: StoreView,
    fs: Seq<Result<Vec<FetchedRepository>, SyncError>>,
)
    ensures
        spec_run_forges(s, fs).0.crates == s.crates,
        spec_run_forges(s, fs).0.npm_packages == s.npm_packages,
        spec_run_forges(s, fs).0.contributions == s.contributions,
        spec_run_forges(s, fs).0.now == s.now,
    decreases fs.len(),
{
    if fs.len() > 0 {
        match fs[0] {
            Err(_) => {},
            Ok(v) => {
                lemma_apply_repos_touches_only_repositories(s, v.deep_view());
                lemma_forge_phase_touches_only_repositories(
                    spec_apply_repos(s, v.deep_view()),
                    fs.drop_first(),
                );
            },
        }
    }
}

/// The orchestrator isolation law: when the forge phase fails, the pass's
/// outcome is exactly the forge phase's — its error is the one the pass
/// reports, what the forges before the failure wrote remains committed, and
/// the registry and contribution phases are never applied: their tables come
/// out of the pass exactly as they went in.
pub proof fn lemma_forge_failure_isolates(s: StoreView, src: SyncSources)
    requires
        spec_run_forges(s, src.forges@).1 is Some,
    ensures
        spec_run_sync(s, src) == spec_run_forges(s, src.forges@),
        spec_run_sync(s, src).0.crates == s.crates,
        spec_run_sync(s, src).0.npm_packages == s.npm_packages,
        spec_run_sync(s, src).0.contributions == s.contributions,
{
    lemma_forge_phase_touches_only_repositories(s, src.forges@);
}

/// Runs one full synchronization pass: forwards every configured source's
/// fetched entities to the store, sequentially in the fixed order of
/// forges, registry, contributions. The first failing source ends the pass
/// with its error; what earlier phases wrote stays written, and later
/// phases are never attempted.
pub fn run_sync(store: &mut SyncStore, sources: &SyncSources) -> (r: Result<(), SyncError>)
    requires
        old(store)@.wf(),
        old(store)@.next_id + spec_total_fetched(*sources) <= u64::MAX,
    ensures
        final(store)@.wf(),
        ({
            let outcome = spec_run_sync(old(store)@, *sources);
            final(store)@ == outcome.0 && match r {
                Ok(()) => outcome.1 is None,
                Err(e) => outcome.1 == Some(e),
            }
        }),
{
    let ghost fv = sources.forges@;
    proof {
        assert(fv.skip(0) =~= fv);
        lemma_forges_len_nonneg(fv);
    }
    let mut i: usize = 0;
    while i < sources.forges.len()
        invariant
            0 <= i <= sources.forges.len(),
            fv == sources.forges@,
            fv.len() == sources.forges.len(),
            store@.wf(),
            spec_run_forges(old(store)@, fv) == spec_run_forges(store@, fv.skip(i as int)),
            store@.next_id + spec_forges_len(fv.skip(i as int)) + spec_opt_fetched_len(
                sources.crates_io,
            ) + spec_opt_fetched_len(sources.npm) + spec_opt_fetched_len(sources.contributions)
                <= u64::MAX,
        decreases sources.forges.len() - i,
    {
        proof {
            assert(fv.skip(i as int)[0] == fv[i as int]);
            assert(fv.skip(i as int).drop_first() =~= fv.skip(i + 1));
            lemma_forges_len_nonneg(fv.skip(i + 1));
        }
        match &sources.forges[i] {
            Err(e) => {
                return Err(e.clone());
            },
            Ok(v) => {
                sync_forge(store, v);
            },
        }
        i = i + 1;
    }
    proof {
        assert(fv.skip(sources.forges.len() as int).len() == 0);
    }
    match &sources.crates_io {
        Some(Err(e)) => {
            return Err(e.clone());
        },
        Some(Ok(v)) => {
            sync_crates(store, v);
        },
        None => {},
    }
    match &sources.npm {
        Some(Err(e)) => {
            return Err(e.clone());
        },
        Some(Ok(v)) => {
            sync_npm_packages(store, v);
        },
        None => {},
    }
    match &sources.contributions {
        Some(Err(e)) => {
            return Err(e.clone());
        },
        Some(Ok(v)) => {
            sync_contributions(store, v);
        },
        None => {},
    }
    Ok(())
}

} // verus!
