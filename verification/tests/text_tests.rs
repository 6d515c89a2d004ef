use djv::errors::SyncError;
use djv::ratelimit::{classify_github_response, classify_gitlab_response};
use djv::scheduler::{resolve_enabled_setting, resolve_interval_setting, sync_task_activates, SyncConfig};
use djv::text::{
    contains_substr, eq_ignore_ascii_case, find_char_first, find_char_last, find_substr,
    i64_to_string, parse_u64, str_eq, strip_leading, u64_to_string,
};

#[test]
fn renders_decimals_exactly() {
    assert_eq!(u64_to_string(0), "0");
    assert_eq!(u64_to_string(7), "7");
    assert_eq!(u64_to_string(10), "10");
    assert_eq!(u64_to_string(12345), "12345");
    assert_eq!(u64_to_string(u64::MAX), "18446744073709551615");
    assert_eq!(i64_to_string(0), "0");
    assert_eq!(i64_to_string(-5), "-5");
    assert_eq!(i64_to_string(i64::MIN), "-9223372036854775808");
    assert_eq!(i64_to_string(i64::MAX), "9223372036854775807");
}

#[test]
fn parses_decimals_exactly() {
    assert_eq!(parse_u64("0"), Some(0));
    assert_eq!(parse_u64("42"), Some(42));
    assert_eq!(parse_u64("+42"), Some(42));
    assert_eq!(parse_u64("007"), Some(7));
    assert_eq!(parse_u64("18446744073709551615"), Some(u64::MAX));
    assert_eq!(parse_u64("18446744073709551616"), None);
    assert_eq!(parse_u64(""), None);
    assert_eq!(parse_u64("+"), None);
    assert_eq!(parse_u64("4x2"), None);
    assert_eq!(parse_u64("-1"), None);
    assert_eq!(parse_u64(" 42"), None);
}

#[test]
fn compares_strings_by_content() {
    assert!(str_eq("abc", "abc"));
    assert!(!str_eq("abc", "abd"));
    assert!(!str_eq("abc", "ab"));
    assert!(str_eq("", ""));
}

#[test]
fn compares_ignoring_ascii_case() {
    assert!(eq_ignore_ascii_case("Crate", "crate"));
    assert!(eq_ignore_ascii_case("CRATE", "crate"));
    assert!(!eq_ignore_ascii_case("crate", "crates"));
    assert!(!eq_ignore_ascii_case("crate", "craTx"));
    assert!(eq_ignore_ascii_case("mixed42", "MIXED42"));
}

#[test]
fn finds_characters_and_substrings() {
    assert_eq!(find_char_first("a/b/c", '/'), Some(1));
    assert_eq!(find_char_last("a/b/c", '/'), Some(3));
    assert_eq!(find_char_first("abc", '/'), None);
    assert_eq!(find_substr("https://gitlab.com/o/r/-/merge_requests/1", "/-/merge_requests"), Some(22));
    assert_eq!(find_substr("abc", "zzz"), None);
    assert!(contains_substr("https://github.com/x", "github.com"));
    assert!(!contains_substr("https://example.com/x", "github.com"));
}

#[test]
fn strips_leading_runs() {
    assert_eq!(strip_leading("@@scope", '@'), "scope");
    assert_eq!(strip_leading("scope", '@'), "scope");
    assert_eq!(strip_leading("", '@'), "");
    assert_eq!(strip_leading("///a/b", '/'), "a/b");
}

#[test]
fn rate_limit_surfacing_uses_retry_after() {
    let err = classify_gitlab_response(429, Some("42")).unwrap_err();
    assert!(err.is_rate_limited());
    assert!(matches!(err, SyncError::RateLimited(42)));

    let err = classify_gitlab_response(429, None).unwrap_err();
    assert!(matches!(err, SyncError::RateLimited(60)));

    let err = classify_gitlab_response(429, Some("soon")).unwrap_err();
    assert!(matches!(err, SyncError::RateLimited(60)));
}

#[test]
fn non_rate_limit_failures_are_generic_transfer_errors() {
    let err = classify_gitlab_response(500, None).unwrap_err();
    assert!(!err.is_rate_limited());
    match err {
        SyncError::Http(m) => assert_eq!(m, "HTTP status 500"),
        _ => panic!("expected a generic transfer error"),
    }
    assert!(classify_gitlab_response(200, None).is_ok());
}

#[test]
fn github_rate_limit_wait_is_floored_at_zero() {
    let err = classify_github_response(403, Some("1000"), 900).unwrap_err();
    assert!(matches!(err, SyncError::RateLimited(100)));

    let err = classify_github_response(403, Some("800"), 900).unwrap_err();
    assert!(matches!(err, SyncError::RateLimited(0)));

    let err = classify_github_response(403, None, 900).unwrap_err();
    assert!(matches!(err, SyncError::Http(_)));

    assert!(classify_github_response(200, None, 900).is_ok());
    assert!(classify_github_response(302, None, 900).is_ok());
}

#[test]
fn scheduler_settings_resolve_with_defaults() {
    assert!(resolve_enabled_setting(None));
    assert!(resolve_enabled_setting(Some("true")));
    assert!(resolve_enabled_setting(Some("1")));
    assert!(!resolve_enabled_setting(Some("0")));
    assert!(!resolve_enabled_setting(Some("false")));

    assert_eq!(resolve_interval_setting(None), 3600);
    assert_eq!(resolve_interval_setting(Some("60")), 60);
    assert_eq!(resolve_interval_setting(Some("soon")), 3600);

    let config = SyncConfig::default();
    assert!(config.enabled);
    assert_eq!(config.interval_secs, 3600);
}

#[test]
fn scheduler_activation_requires_enablement_and_sources() {
    assert!(sync_task_activates(true, false));
    assert!(!sync_task_activates(true, true));
    assert!(!sync_task_activates(false, false));
    assert!(!sync_task_activates(false, true));
}

#[test]
fn legacy_settings_fold_in_under_precedence() {
    let mut config = djv::config::Config {
        listen: djv::config::default_listen(),
        database: None,
        otel: djv::config::OtelConfig::default(),
        sync: djv::config::SyncConfig::default(),
    };
    assert_eq!(config.listen, "127.0.0.1:3000");
    assert_eq!(config.otel.environment, "development");

    config.apply_legacy_env_vars(
        Some("alice".to_string()),
        Some("SECRET-REDACTED".to_string()),
        Some("carol".to_string()),
        None,
        Some("120".to_string()),
    );
    let github = config.sync.github.as_ref().unwrap();
    assert_eq!(github.user, "alice");
    assert_eq!(github.token, Some("SECRET-REDACTED".to_string()));
    assert_eq!(config.sync.crates_io.as_ref().unwrap().user, "carol");
    assert!(config.sync.contributions.is_none());
    assert_eq!(config.sync.interval_secs, 120);

    // A structured block already present wins over the flat setting.
    config.apply_legacy_env_vars(
        Some("eve".to_string()),
        None,
        None,
        None,
        Some("nonsense".to_string()),
    );
    assert_eq!(config.sync.github.as_ref().unwrap().user, "alice");
    assert_eq!(config.sync.interval_secs, 120);
}

#[test]
fn paginator_walks_to_the_cap() {
    let mut p = djv::pagination::Paginator::new();
    let mut requests: u32 = 0;
    while let Some(page) = p.current_page() {
        requests += 1;
        assert_eq!(page, requests);
        p.record_page(100);
    }
    assert_eq!(requests, 5);

    let mut p = djv::pagination::Paginator::new();
    assert_eq!(p.current_page(), Some(1));
    p.record_page(40);
    assert_eq!(p.current_page(), None);
}
