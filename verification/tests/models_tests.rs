use djv::models::{ProjectFilters, ProjectKind, SortOrder};

#[test]
fn project_kind_from_str_valid() {
    assert_eq!("crate".parse::<ProjectKind>().unwrap(), ProjectKind::Crate);
    assert_eq!("npm".parse::<ProjectKind>().unwrap(), ProjectKind::Npm);
    assert_eq!("repo".parse::<ProjectKind>().unwrap(), ProjectKind::Repo);
}

#[test]
fn project_kind_from_str_case_insensitive() {
    assert_eq!("CRATE".parse::<ProjectKind>().unwrap(), ProjectKind::Crate);
    assert_eq!("Npm".parse::<ProjectKind>().unwrap(), ProjectKind::Npm);
    assert_eq!("REPO".parse::<ProjectKind>().unwrap(), ProjectKind::Repo);
}

#[test]
fn project_kind_from_str_invalid() {
    assert!("invalid".parse::<ProjectKind>().is_err());
    assert!("".parse::<ProjectKind>().is_err());
}

#[test]
fn project_kind_display() {
    assert_eq!(ProjectKind::Crate.to_string(), "crate");
    assert_eq!(ProjectKind::Npm.to_string(), "npm");
    assert_eq!(ProjectKind::Repo.to_string(), "repo");
}

#[test]
fn project_kind_roundtrip() {
    for kind in [ProjectKind::Crate, ProjectKind::Npm, ProjectKind::Repo] {
        let s = kind.to_string();
        let parsed: ProjectKind = s.parse().unwrap();
        assert_eq!(kind, parsed);
    }
}

#[test]
fn sort_order_from_str_valid() {
    assert_eq!(
        "popularity".parse::<SortOrder>().unwrap(),
        SortOrder::Popularity
    );
    assert_eq!("name".parse::<SortOrder>().unwrap(), SortOrder::Name);
    assert_eq!("updated".parse::<SortOrder>().unwrap(), SortOrder::Updated);
}

#[test]
fn sort_order_from_str_case_insensitive() {
    assert_eq!(
        "POPULARITY".parse::<SortOrder>().unwrap(),
        SortOrder::Popularity
    );
    assert_eq!("Name".parse::<SortOrder>().unwrap(), SortOrder::Name);
}

#[test]
fn sort_order_from_str_invalid() {
    assert!("invalid".parse::<SortOrder>().is_err());
    assert!("".parse::<SortOrder>().is_err());
}

#[test]
fn sort_order_default() {
    assert_eq!(SortOrder::default(), SortOrder::Popularity);
}

#[test]
fn project_kind_parse_error_names_the_input() {
    let err = ProjectKind::parse("widget").unwrap_err();
    assert_eq!(err, "unknown project kind: widget");
    let err = SortOrder::parse("sideways").unwrap_err();
    assert_eq!(err, "unknown sort order: sideways");
}

#[test]
fn project_filters_default() {
    let filters = ProjectFilters::default();
    assert!(filters.kind.is_none());
    assert!(filters.language.is_none());
    assert!(filters.topic.is_none());
    assert!(filters.sort.is_none());
}
