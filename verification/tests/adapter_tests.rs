use djv::crates_io::{CrateInfo, CratesIoRegistry, CratesPage};
use djv::github::{GitHubForge, GitHubRepo};
use djv::gitlab::{GitLabForge, GitLabProject};
use djv::npm::{parse_scope, repo_link, NpmRegistry, PackageInfo, PackageLinks};

fn github_repo(name: &str, fork: bool, archived: bool) -> GitHubRepo {
    GitHubRepo {
        full_name: format!("user/{}", name),
        name: name.to_string(),
        description: None,
        html_url: format!("https://github.com/user/{}", name),
        language: None,
        stargazers_count: 1,
        fork,
        archived,
        topics: None,
        updated_at: None,
    }
}

#[test]
fn filters_out_forked_repositories() {
    let page = vec![
        github_repo("owned", false, false),
        github_repo("forked", true, false),
    ];
    let filtered = djv::github::filter_page(&page);
    assert_eq!(filtered.len(), 1);
    assert_eq!(filtered[0].name, "owned");
}

#[test]
fn github_filters_out_archived_repositories() {
    let page = vec![
        github_repo("active", false, false),
        github_repo("dusty", false, true),
    ];
    let filtered = djv::github::filter_page(&page);
    assert_eq!(filtered.len(), 1);
    assert_eq!(filtered[0].name, "active");
}

#[test]
fn converts_github_repo_to_fetched_repository() {
    let github_repo = GitHubRepo {
        full_name: "user/repo".to_string(),
        name: "repo".to_string(),
        description: Some("Description".to_string()),
        html_url: "https://github.com/user/repo".to_string(),
        language: Some("Rust".to_string()),
        stargazers_count: 100,
        fork: false,
        archived: false,
        topics: Some(vec!["topic1".to_string(), "topic2".to_string()]),
        updated_at: None,
    };

    let fetched = djv::github::to_fetched_repository(&github_repo);

    assert_eq!(fetched.forge, "github");
    assert_eq!(fetched.forge_id, "user/repo");
    assert_eq!(fetched.name, "repo");
    assert_eq!(fetched.description, Some("Description".to_string()));
    assert_eq!(fetched.url, "https://github.com/user/repo");
    assert_eq!(fetched.language, Some("Rust".to_string()));
    assert_eq!(fetched.stars, 100);
    assert_eq!(fetched.topics, vec!["topic1", "topic2"]);
}

#[test]
fn github_handles_missing_optional_fields() {
    let github_repo = GitHubRepo {
        full_name: "user/minimal".to_string(),
        name: "minimal".to_string(),
        description: None,
        html_url: "https://github.com/user/minimal".to_string(),
        language: None,
        stargazers_count: 0,
        fork: false,
        archived: false,
        topics: None,
        updated_at: None,
    };

    let fetched = djv::github::to_fetched_repository(&github_repo);

    assert_eq!(fetched.name, "minimal");
    assert!(fetched.description.is_none());
    assert!(fetched.language.is_none());
    assert_eq!(fetched.stars, 0);
    assert!(fetched.topics.is_empty());
}

#[test]
fn github_repos_page_url_is_exact() {
    let forge = GitHubForge::new("alice".to_string(), None);
    assert_eq!(
        forge.repos_page_url(3),
        "https://api.github.com/users/alice/repos?per_page=100&page=3&sort=updated"
    );
    assert_eq!(forge.name(), "github");
}

fn full_github_page() -> Vec<GitHubRepo> {
    let mut page = Vec::new();
    for i in 0..100 {
        page.push(github_repo(&format!("repo{}", i), false, false));
    }
    page
}

#[test]
fn pagination_stops_on_first_short_page() {
    let forge = GitHubForge::new("alice".to_string(), None);
    let mut short_page = Vec::new();
    for i in 0..40 {
        short_page.push(github_repo(&format!("tail{}", i), false, false));
    }
    let pages = vec![full_github_page(), full_github_page(), short_page];
    let (repos, pages_fetched) = forge.fetch_repositories(&pages);
    assert_eq!(repos.len(), 240);
    assert_eq!(pages_fetched, 3);
}

#[test]
fn pagination_stops_at_safety_cap() {
    let forge = GitHubForge::new("alice".to_string(), None);
    let pages = vec![
        full_github_page(),
        full_github_page(),
        full_github_page(),
        full_github_page(),
        full_github_page(),
        full_github_page(),
        full_github_page(),
    ];
    let (repos, pages_fetched) = forge.fetch_repositories(&pages);
    assert_eq!(repos.len(), 500);
    assert_eq!(pages_fetched, 5);
}

fn gitlab_project(id: i64, name: &str, archived: bool, forked: bool) -> GitLabProject {
    GitLabProject {
        id,
        path_with_namespace: format!("user/{}", name),
        name: name.to_string(),
        description: None,
        web_url: format!("https://gitlab.com/user/{}", name),
        star_count: 10,
        archived,
        forked_from_project: forked,
        topics: None,
        last_activity_at: None,
    }
}

#[test]
fn converts_gitlab_project_to_fetched_repository() {
    let project = GitLabProject {
        id: 12345,
        path_with_namespace: "user/project".to_string(),
        name: "project".to_string(),
        description: Some("A test project".to_string()),
        web_url: "https://gitlab.com/user/project".to_string(),
        star_count: 42,
        archived: false,
        forked_from_project: false,
        topics: Some(vec!["rust".to_string(), "testing".to_string()]),
        last_activity_at: None,
    };

    let fetched = djv::gitlab::to_fetched_repository(&project);

    assert_eq!(fetched.forge, "gitlab");
    assert_eq!(fetched.forge_id, "12345");
    assert_eq!(fetched.name, "project");
    assert_eq!(fetched.description, Some("A test project".to_string()));
    assert_eq!(fetched.url, "https://gitlab.com/user/project");
    assert_eq!(fetched.stars, 42);
    assert_eq!(fetched.topics, vec!["rust", "testing"]);
    assert!(fetched.language.is_none());
}

#[test]
fn filters_archived_projects() {
    let page = vec![
        gitlab_project(1, "active", false, false),
        gitlab_project(2, "archived", true, false),
    ];
    let filtered = djv::gitlab::filter_page(&page);
    assert_eq!(filtered.len(), 1);
    assert_eq!(filtered[0].name, "active");
}

#[test]
fn gitlab_filters_forks() {
    let page = vec![
        gitlab_project(1, "own", false, false),
        gitlab_project(2, "borrowed", false, true),
    ];
    let filtered = djv::gitlab::filter_page(&page);
    assert_eq!(filtered.len(), 1);
    assert_eq!(filtered[0].name, "own");
}

#[test]
fn creates_forge_instance() {
    let forge = GitLabForge::new("testuser".to_string(), None);
    assert_eq!(forge.username, "testuser");
    assert_eq!(forge.host, "gitlab.com");
}

#[test]
fn creates_forge_with_custom_host() {
    let forge = GitLabForge::new(
        "testuser".to_string(),
        Some("gitlab.example.com".to_string()),
    );
    assert_eq!(forge.username, "testuser");
    assert_eq!(forge.host, "gitlab.example.com");
}

#[test]
fn gitlab_projects_page_url_is_exact() {
    let forge = GitLabForge::new("bob".to_string(), None);
    assert_eq!(
        forge.projects_page_url(2),
        "https://gitlab.com/api/v4/users/bob/projects?per_page=100&page=2&order_by=updated_at&visibility=public"
    );
    assert_eq!(forge.name(), "gitlab");
}

#[test]
fn converts_crate_info_to_fetched_crate() {
    let crate_info = CrateInfo {
        name: "test-crate".to_string(),
        description: Some("A test crate".to_string()),
        repository: Some("https://github.com/user/test-crate".to_string()),
        documentation: Some("https://docs.rs/test-crate".to_string()),
        downloads: 5000,
        newest_version: Some("2.0.0".to_string()),
    };

    let fetched = djv::crates_io::to_fetched_crate(&crate_info);

    assert_eq!(fetched.name, "test-crate");
    assert_eq!(fetched.description, Some("A test crate".to_string()));
    assert_eq!(fetched.crates_io_url, "https://crates.io/crates/test-crate");
    assert_eq!(fetched.downloads, 5000);
    assert_eq!(fetched.version, Some("2.0.0".to_string()));
    assert!(fetched.keywords.is_empty());
    assert!(fetched.categories.is_empty());
}

#[test]
fn crates_io_creates_registry_instance() {
    let registry = CratesIoRegistry::new("testuser".to_string());
    assert_eq!(registry.username, "testuser");
}

#[test]
fn crates_io_urls_are_exact() {
    let registry = CratesIoRegistry::new("carol".to_string());
    assert_eq!(registry.user_url(), "https://crates.io/api/v1/users/carol");
    assert_eq!(
        registry.crates_page_url(9876, 2),
        "https://crates.io/api/v1/crates?user_id=9876&page=2&per_page=100"
    );
}

fn crates_page(count: usize, has_next: bool) -> CratesPage {
    let mut crates = Vec::new();
    for i in 0..count {
        crates.push(CrateInfo {
            name: format!("crate{}", i),
            description: None,
            repository: None,
            documentation: None,
            downloads: 0,
            newest_version: None,
        });
    }
    CratesPage {
        crates,
        has_next_page: has_next,
    }
}

#[test]
fn crates_walk_follows_next_page_cursor() {
    let registry = CratesIoRegistry::new("carol".to_string());
    let pages = vec![crates_page(100, true), crates_page(3, false), crates_page(7, false)];
    let (crates, pages_fetched) = registry.fetch_crates(&pages);
    assert_eq!(crates.len(), 103);
    assert_eq!(pages_fetched, 2);
}

#[test]
fn crates_walk_respects_safety_cap() {
    let registry = CratesIoRegistry::new("carol".to_string());
    let pages = vec![
        crates_page(100, true),
        crates_page(100, true),
        crates_page(100, true),
        crates_page(100, true),
        crates_page(100, true),
        crates_page(100, true),
    ];
    let (crates, pages_fetched) = registry.fetch_crates(&pages);
    assert_eq!(crates.len(), 500);
    assert_eq!(pages_fetched, 5);
}

#[test]
fn parses_scoped_package_name() {
    let (scope, pkg_name) = parse_scope("@scope/package-name");
    assert_eq!(scope, Some("scope".to_string()));
    assert_eq!(pkg_name, "package-name");
}

#[test]
fn parses_unscoped_package_name() {
    let (scope, pkg_name) = parse_scope("simple-package");
    assert!(scope.is_none());
    assert_eq!(pkg_name, "simple-package");
}

#[test]
fn npm_creates_registry_instance() {
    let registry = NpmRegistry::new("testuser".to_string());
    assert_eq!(registry.username, "testuser");
}

#[test]
fn npm_urls_are_exact() {
    let registry = NpmRegistry::new("dave".to_string());
    assert_eq!(
        registry.search_url(),
        "https://registry.npmjs.org/-/v1/search?text=maintainer:dave&size=250"
    );
    assert_eq!(
        registry.downloads_url("left-pad"),
        "https://api.npmjs.org/downloads/point/last-week/left-pad"
    );
}

#[test]
fn npm_repository_link_falls_back_to_forge_homepage() {
    let declared = Some(PackageLinks {
        npm: None,
        homepage: Some("https://example.com".to_string()),
        repository: Some("https://github.com/dave/pkg".to_string()),
    });
    assert_eq!(
        repo_link(&declared),
        Some("https://github.com/dave/pkg".to_string())
    );

    let forge_homepage = Some(PackageLinks {
        npm: None,
        homepage: Some("https://gitlab.com/dave/pkg".to_string()),
        repository: None,
    });
    assert_eq!(
        repo_link(&forge_homepage),
        Some("https://gitlab.com/dave/pkg".to_string())
    );

    let plain_homepage = Some(PackageLinks {
        npm: None,
        homepage: Some("https://example.com".to_string()),
        repository: None,
    });
    assert_eq!(repo_link(&plain_homepage), None);
    assert_eq!(repo_link(&None), None);
}

#[test]
fn npm_downloads_default_to_zero_on_failure() {
    assert_eq!(djv::npm::downloads_or_default(Some(12345)), 12345);
    assert_eq!(djv::npm::downloads_or_default(None), 0);
    assert_eq!(
        djv::npm::downloads_or_default(Some(u64::MAX)),
        i32::MAX
    );
}

#[test]
fn npm_package_normalization() {
    let registry = NpmRegistry::new("dave".to_string());
    let pkgs = vec![PackageInfo {
        name: "@scope/pkg".to_string(),
        version: Some("1.0.0".to_string()),
        description: Some("a package".to_string()),
        keywords: Some(vec!["k1".to_string()]),
        links: None,
    }];
    let downloads = vec![42];
    let out = registry.fetch_packages(&pkgs, &downloads);
    assert_eq!(out.len(), 1);
    assert_eq!(out[0].name, "@scope/pkg");
    assert_eq!(out[0].scope, Some("scope".to_string()));
    assert_eq!(out[0].npm_url, "https://www.npmjs.com/package/@scope/pkg");
    assert_eq!(out[0].downloads_weekly, 42);
    assert_eq!(out[0].keywords, vec!["k1"]);
}
