use djv::contributions::{
    parse_repo_slug, to_contribution, to_mr_contribution, ContributionsSync, GitLabMergeRequest,
    SearchItem,
};
use djv::errors::SyncError;

#[test]
fn extracts_repo_owner_and_name_from_api_url() {
    let repository_url = "https://api.github.com/repos/goreleaser/goreleaser";
    let (repo_owner, repo_name) = parse_repo_slug(repository_url).unwrap();
    assert_eq!(repo_owner, "goreleaser");
    assert_eq!(repo_name, "goreleaser");
}

#[test]
fn constructs_repo_url_from_owner_and_name() {
    let repo_owner = "octocat";
    let repo_name = "hello-world";
    let repo_url = format!("https://github.com/{}/{}", repo_owner, repo_name);

    assert_eq!(repo_url, "https://github.com/octocat/hello-world");
}

#[test]
fn parses_search_item_to_contribution() {
    let item = SearchItem {
        title: "Fix memory leak".to_string(),
        html_url: "https://github.com/owner/repo/pull/123".to_string(),
        repository_url: Some("https://api.github.com/repos/owner/repo".to_string()),
        closed_at: Some(1700000000),
    };

    let contribution = to_contribution(&item).unwrap();

    assert_eq!(contribution.forge, "github");
    assert_eq!(contribution.repo_owner, "owner");
    assert_eq!(contribution.repo_name, "repo");
    assert_eq!(contribution.repo_url, "https://github.com/owner/repo");
    assert_eq!(contribution.contribution_type, "pr");
    assert_eq!(contribution.title, Some("Fix memory leak".to_string()));
    assert_eq!(contribution.url, "https://github.com/owner/repo/pull/123");
    assert_eq!(contribution.merged_at, Some(1700000000));
}

#[test]
fn handles_missing_repository_url() {
    let item = SearchItem {
        title: "Some PR".to_string(),
        html_url: "https://github.com/owner/repo/pull/456".to_string(),
        repository_url: None,
        closed_at: None,
    };

    assert!(item.repository_url.is_none());
    assert!(to_contribution(&item).is_none());
}

#[test]
fn creates_contributions_sync_instance() {
    let sync = ContributionsSync::new(
        "testuser".to_string(),
        Some("SECRET-REDACTED".to_string()),
        Some("excludeuser".to_string()),
    );

    assert_eq!(sync.username, "testuser");
    assert_eq!(sync.token, Some("SECRET-REDACTED".to_string()));
    assert_eq!(sync.exclude_owner, Some("excludeuser".to_string()));
}

#[test]
fn with_gitlab_enables_the_secondary_forge() {
    let sync = ContributionsSync::new("testuser".to_string(), None, None)
        .with_gitlab("gl-user".to_string(), Some("gitlab.example.com".to_string()));
    assert_eq!(sync.gitlab_username, Some("gl-user".to_string()));
    assert_eq!(sync.gitlab_host, Some("gitlab.example.com".to_string()));
}

#[test]
fn search_url_percent_encodes_the_query() {
    let sync = ContributionsSync::new("alice".to_string(), None, None);
    assert_eq!(
        sync.search_url(1),
        "https://api.github.com/search/issues?q=type%3Apr%20author%3Aalice%20is%3Amerged%20-user%3Aalice&sort=updated&order=desc&per_page=100&page=1"
    );
}

#[test]
fn search_query_excludes_the_configured_namespace() {
    let sync = ContributionsSync::new(
        "alice".to_string(),
        None,
        Some("acme".to_string()),
    );
    assert_eq!(sync.search_query(), "type:pr author:alice is:merged -user:acme");
    let sync = ContributionsSync::new("alice".to_string(), None, None);
    assert_eq!(sync.search_query(), "type:pr author:alice is:merged -user:alice");
}

#[test]
fn gitlab_merge_requests_url_is_exact() {
    assert_eq!(
        ContributionsSync::merge_requests_url("gitlab.com", "bob", 4),
        "https://gitlab.com/api/v4/merge_requests?author_username=bob&state=merged&scope=all&per_page=100&page=4"
    );
}

#[test]
fn parses_project_info_from_merge_request_url() {
    let mr = GitLabMergeRequest {
        title: "Add feature".to_string(),
        web_url: "https://gitlab.com/owner/repo/-/merge_requests/1".to_string(),
        merged_at: None,
    };
    let (owner, repo, project_url) = mr.parse_project_info().unwrap();
    assert_eq!(owner, "owner");
    assert_eq!(repo, "repo");
    assert_eq!(project_url, "https://gitlab.com/owner/repo");
}

#[test]
fn parses_project_info_with_subgroups() {
    let mr = GitLabMergeRequest {
        title: "Nested".to_string(),
        web_url: "https://gitlab.com/group/sub/repo/-/merge_requests/7".to_string(),
        merged_at: None,
    };
    let (owner, repo, project_url) = mr.parse_project_info().unwrap();
    assert_eq!(owner, "group");
    assert_eq!(repo, "repo");
    assert_eq!(project_url, "https://gitlab.com/group/sub/repo");
}

#[test]
fn excludes_self_contributions() {
    let own = GitLabMergeRequest {
        title: "Mine".to_string(),
        web_url: "https://gitlab.com/Me/repo/-/merge_requests/2".to_string(),
        merged_at: None,
    };
    assert!(to_mr_contribution(&own, "me").is_none());

    let other = GitLabMergeRequest {
        title: "Theirs".to_string(),
        web_url: "https://gitlab.com/them/repo/-/merge_requests/3".to_string(),
        merged_at: Some(1700000000),
    };
    let c = to_mr_contribution(&other, "me").unwrap();
    assert_eq!(c.forge, "gitlab");
    assert_eq!(c.repo_owner, "them");
    assert_eq!(c.repo_name, "repo");
    assert_eq!(c.contribution_type, "mr");
    assert_eq!(c.merged_at, Some(1700000000));
}

fn contribution(url: &str) -> djv::entities::FetchedContribution {
    djv::entities::FetchedContribution {
        forge: "github".to_string(),
        repo_owner: "owner".to_string(),
        repo_name: "repo".to_string(),
        repo_url: "https://github.com/owner/repo".to_string(),
        contribution_type: "pr".to_string(),
        title: None,
        url: url.to_string(),
        merged_at: None,
    }
}

#[test]
fn combine_results_tolerates_a_failing_secondary() {
    let primary = Ok(vec![contribution("https://github.com/owner/repo/pull/1")]);
    let secondary = Some(Err(SyncError::RateLimited(30)));
    let all = ContributionsSync::combine_results(primary, secondary).unwrap();
    assert_eq!(all.len(), 1);

    let primary = Ok(vec![contribution("https://github.com/owner/repo/pull/1")]);
    let secondary = Some(Ok(vec![contribution("https://gitlab.com/o/r/-/merge_requests/2")]));
    let all = ContributionsSync::combine_results(primary, secondary).unwrap();
    assert_eq!(all.len(), 2);
}

#[test]
fn combine_results_propagates_the_primary_failure() {
    let primary: Result<Vec<djv::entities::FetchedContribution>, SyncError> =
        Err(SyncError::RateLimited(42));
    let secondary = Some(Ok(vec![contribution("https://gitlab.com/o/r/-/merge_requests/2")]));
    let err = ContributionsSync::combine_results(primary, secondary).unwrap_err();
    assert!(matches!(err, SyncError::RateLimited(42)));
}

fn search_page(count: usize) -> Vec<SearchItem> {
    let mut page = Vec::new();
    for i in 0..count {
        page.push(SearchItem {
            title: format!("PR {}", i),
            html_url: format!("https://github.com/owner/repo/pull/{}", i),
            repository_url: Some("https://api.github.com/repos/owner/repo".to_string()),
            closed_at: None,
        });
    }
    page
}

#[test]
fn contribution_pagination_respects_the_safety_cap() {
    let sync = ContributionsSync::new("alice".to_string(), None, None);
    let pages = vec![
        search_page(100),
        search_page(100),
        search_page(100),
        search_page(100),
        search_page(100),
        search_page(100),
    ];
    let (contribs, pages_fetched) = sync.fetch_github_contributions(&pages);
    assert_eq!(contribs.len(), 500);
    assert_eq!(pages_fetched, 5);
}

#[test]
fn gitlab_contributions_need_a_configured_user() {
    let sync = ContributionsSync::new("alice".to_string(), None, None);
    let pages: Vec<Vec<GitLabMergeRequest>> = vec![vec![GitLabMergeRequest {
        title: "T".to_string(),
        web_url: "https://gitlab.com/x/y/-/merge_requests/1".to_string(),
        merged_at: None,
    }]];
    let (contribs, pages_fetched) = sync.fetch_gitlab_contributions(&pages);
    assert!(contribs.is_empty());
    assert_eq!(pages_fetched, 0);

    let sync = sync.with_gitlab("alice".to_string(), None);
    let (contribs, pages_fetched) = sync.fetch_gitlab_contributions(&pages);
    assert_eq!(contribs.len(), 1);
    assert_eq!(pages_fetched, 1);
}
