use djv::entities::{FetchedContribution, FetchedCrate, FetchedRepository};
use djv::errors::SyncError;
use djv::orchestrator::{run_sync, sync_crates, SyncSources};
use djv::store::SyncStore;

fn repo(forge: &str, forge_id: &str, url: &str, stars: i32) -> FetchedRepository {
    FetchedRepository {
        forge: forge.to_string(),
        forge_id: forge_id.to_string(),
        name: forge_id.to_string(),
        description: None,
        url: url.to_string(),
        language: None,
        stars,
        topics: Vec::new(),
        updated_at: None,
    }
}

fn krate(name: &str, repository_url: Option<&str>) -> FetchedCrate {
    FetchedCrate {
        name: name.to_string(),
        description: None,
        repository_url: repository_url.map(|s| s.to_string()),
        crates_io_url: format!("https://crates.io/crates/{}", name),
        documentation_url: None,
        downloads: 10,
        version: None,
        keywords: Vec::new(),
        categories: Vec::new(),
    }
}

fn contribution(url: &str) -> FetchedContribution {
    FetchedContribution {
        forge: "github".to_string(),
        repo_owner: "owner".to_string(),
        repo_name: "repo".to_string(),
        repo_url: "https://github.com/owner/repo".to_string(),
        contribution_type: "pr".to_string(),
        title: None,
        url: url.to_string(),
        merged_at: None,
    }
}

#[test]
fn upsert_repository_insert() {
    let mut store = SyncStore::new();
    let id = store.upsert_repository(&repo("github", "user/new-repo", "u1", 42));
    assert_eq!(id, 0);
    assert_eq!(store.repositories.len(), 1);
    assert_eq!(store.repositories[0].entity.stars, 42);
}

#[test]
fn upsert_repository_update() {
    let mut store = SyncStore::new();
    let id1 = store.upsert_repository(&repo("github", "user/repo", "u1", 10));
    let id2 = store.upsert_repository(&repo("github", "user/repo", "u1", 99));
    assert_eq!(id1, id2);
    assert_eq!(store.repositories.len(), 1);
    assert_eq!(store.repositories[0].entity.stars, 99);
    assert_eq!(store.repositories[0].id, id1);
}

#[test]
fn upsert_distinct_identities_get_distinct_ids() {
    let mut store = SyncStore::new();
    let id1 = store.upsert_repository(&repo("github", "user/a", "u1", 1));
    let id2 = store.upsert_repository(&repo("gitlab", "user/a", "u2", 1));
    let id3 = store.upsert_repository(&repo("github", "user/b", "u3", 1));
    assert_ne!(id1, id2);
    assert_ne!(id1, id3);
    assert_ne!(id2, id3);
    assert_eq!(store.repositories.len(), 3);
}

#[test]
fn upsert_crate_standalone() {
    let mut store = SyncStore::new();
    let id = store.upsert_crate(&krate("my-crate", None), None);
    assert_eq!(store.crates.len(), 1);
    assert_eq!(store.crates[0].id, id);
    assert!(store.crates[0].repository_id.is_none());
}

#[test]
fn upsert_crate_with_repo_link() {
    let mut store = SyncStore::new();
    let repo_id = store.upsert_repository(&repo(
        "github",
        "user/my-crate",
        "https://github.com/user/my-crate",
        5,
    ));
    let id1 = store.upsert_crate(&krate("my-crate", None), Some(repo_id));
    let id2 = store.upsert_crate(&krate("my-crate", None), Some(repo_id));
    assert_eq!(id1, id2);
    assert_eq!(store.crates.len(), 1);
    assert_eq!(store.crates[0].repository_id, Some(repo_id));
}

#[test]
fn upsert_contribution_insert_and_update() {
    let mut store = SyncStore::new();
    let id1 = store.upsert_contribution(&contribution("https://github.com/owner/repo/pull/1"));
    let id2 = store.upsert_contribution(&contribution("https://github.com/owner/repo/pull/1"));
    let id3 = store.upsert_contribution(&contribution("https://github.com/owner/repo/pull/2"));
    assert_eq!(id1, id2);
    assert_ne!(id1, id3);
    assert_eq!(store.contributions.len(), 2);
}

#[test]
fn cross_reference_attaches_matching_repository_id() {
    let mut store = SyncStore::new();
    let repo_id = store.upsert_repository(&repo(
        "github",
        "user/linked",
        "https://github.com/user/linked",
        1,
    ));
    let crates = vec![
        krate("linked", Some("https://github.com/user/linked")),
        krate("unlinked", Some("https://example.com/elsewhere")),
        krate("bare", None),
    ];
    sync_crates(&mut store, &crates);
    assert_eq!(store.crates.len(), 3);
    assert_eq!(store.crates[0].repository_id, Some(repo_id));
    assert_eq!(store.crates[1].repository_id, None);
    assert_eq!(store.crates[2].repository_id, None);
}

#[test]
fn batch_url_lookup_returns_one_pair_per_match() {
    let mut store = SyncStore::new();
    let id = store.upsert_repository(&repo("github", "user/x", "https://github.com/user/x", 1));
    let urls = vec![
        "https://github.com/user/x".to_string(),
        "https://github.com/user/missing".to_string(),
    ];
    let pairs = store.get_repositories_by_urls(&urls);
    assert_eq!(pairs.len(), 1);
    assert_eq!(pairs[0].url, "https://github.com/user/x");
    assert_eq!(pairs[0].id, id);
    assert_eq!(store.get_repository_by_url("https://github.com/user/x"), Some(id));
    assert_eq!(store.get_repository_by_url("https://github.com/none"), None);
}

#[test]
fn delete_stale_repositories_keeps_the_current_pass() {
    let mut store = SyncStore::new();
    let keep = store.upsert_repository(&repo("github", "user/keep", "u1", 1));
    let _stale = store.upsert_repository(&repo("github", "user/stale", "u2", 1));
    let other = store.upsert_repository(&repo("gitlab", "user/other", "u3", 1));
    let deleted = store.delete_stale_repositories("github", &vec![keep]);
    assert_eq!(deleted, 1);
    assert_eq!(store.repositories.len(), 2);
    assert_eq!(store.repositories[0].id, keep);
    assert_eq!(store.repositories[1].id, other);
}

#[test]
fn run_sync_processes_all_phases_in_order() {
    let mut store = SyncStore::new();
    let sources = SyncSources {
        forges: vec![Ok(vec![repo("github", "user/a", "https://github.com/user/a", 1)])],
        crates_io: Some(Ok(vec![krate("a", Some("https://github.com/user/a"))])),
        npm: None,
        contributions: Some(Ok(vec![contribution("https://github.com/owner/repo/pull/9")])),
    };
    let r = run_sync(&mut store, &sources);
    assert!(r.is_ok());
    assert_eq!(store.repositories.len(), 1);
    assert_eq!(store.crates.len(), 1);
    assert_eq!(store.contributions.len(), 1);
    assert_eq!(store.crates[0].repository_id, Some(store.repositories[0].id));
}

#[test]
fn npm_phase_resolves_cross_references_too() {
    let mut store = SyncStore::new();
    let sources = SyncSources {
        forges: vec![Ok(vec![repo(
            "github",
            "user/pkg",
            "https://github.com/user/pkg",
            1,
        )])],
        crates_io: None,
        npm: Some(Ok(vec![djv::entities::NpmPackageSummary {
            name: "pkg".to_string(),
            scope: None,
            description: None,
            repository_url: Some("https://github.com/user/pkg".to_string()),
            npm_url: "https://www.npmjs.com/package/pkg".to_string(),
            downloads_weekly: 3,
            version: None,
            keywords: Vec::new(),
        }])),
        contributions: None,
    };
    run_sync(&mut store, &sources).unwrap();
    assert_eq!(store.npm_packages.len(), 1);
    assert_eq!(
        store.npm_packages[0].repository_id,
        Some(store.repositories[0].id)
    );
}

#[test]
fn forge_failure_stops_the_pass_and_keeps_earlier_writes() {
    let mut store = SyncStore::new();
    let sources = SyncSources {
        forges: vec![
            Ok(vec![repo("github", "user/first", "u1", 1)]),
            Err(SyncError::RateLimited(42)),
        ],
        crates_io: Some(Ok(vec![krate("never", None)])),
        npm: None,
        contributions: Some(Ok(vec![contribution("https://github.com/o/r/pull/1")])),
    };
    let err = run_sync(&mut store, &sources).unwrap_err();
    assert!(matches!(err, SyncError::RateLimited(42)));
    assert_eq!(store.repositories.len(), 1);
    assert!(store.crates.is_empty());
    assert!(store.contributions.is_empty());
}

#[test]
fn registry_failure_stops_before_contributions() {
    let mut store = SyncStore::new();
    let sources = SyncSources {
        forges: vec![],
        crates_io: Some(Err(SyncError::Http("HTTP status 500".to_string()))),
        npm: None,
        contributions: Some(Ok(vec![contribution("https://github.com/o/r/pull/1")])),
    };
    let err = run_sync(&mut store, &sources).unwrap_err();
    assert!(matches!(err, SyncError::Http(_)));
    assert!(store.contributions.is_empty());
}

#[test]
fn empty_sources_are_detected() {
    let sources = SyncSources {
        forges: vec![],
        crates_io: None,
        npm: None,
        contributions: None,
    };
    assert!(sources.is_empty());
    let sources = SyncSources {
        forges: vec![Ok(vec![])],
        crates_io: None,
        npm: None,
        contributions: None,
    };
    assert!(!sources.is_empty());
}

#[test]
fn upsert_stamps_the_pass_timestamp() {
    let mut store = SyncStore::new();
    store.now = 1700000000;
    store.upsert_repository(&repo("github", "user/a", "u1", 1));
    assert_eq!(store.repositories[0].synced_at, 1700000000);
}
