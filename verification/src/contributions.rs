//! The contribution adapter: merged pull requests authored by the tracked
//! user on the primary forge, found through its search API with the user's
//! own namespace excluded server-side, concatenated with merged merge
//! requests from an optional secondary forge, filtered client-side against
//! the user's own namespace. A failure of the secondary sub-source is
//! tolerated; the primary's failure propagates.

use vstd::prelude::*;
use vstd::string::StrSliceExecFns;
use vstd::string::StringExecFns;

use crate::entities::{ContributionView, FetchedContribution};
use crate::errors::SyncError;
use crate::outside::{url_encode, url_encoded, url_path, url_path_of};
use crate::pagination::{
    lemma_filter_map_option_push, lemma_pages_taken_bounds, spec_concat_pages, spec_filter_map,
    spec_pages_taken, MAX_PAGES, PAGE_SIZE,
};
use crate::github::spec_page_lens;
use crate::text::{
    eq_ignore_ascii_case, find_char_first, find_char_last, find_substr,
    spec_dec_digits, spec_eq_ignore_ascii_case, spec_find, spec_find_sub, spec_rfind,
    spec_strip_leading, strip_leading, substring_string, u64_to_string,
};

verus! {

/// The mathematical model of one search result item.
#[verifier::ext_equal]
pub struct SearchItemView {
    pub title: Seq<char>,
    pub html_url: Seq<char>,
    pub repository_url: Option<Seq<char>>,
    pub closed_at: Option<int>,
}

/// One search result item as decoded from the primary forge's issue-search
/// endpoint.
#[derive(Debug)]
pub struct SearchItem {
    pub title: String,
    pub html_url: String,
    pub repository_url: Option<String>,
    pub closed_at: Option<i64>,
}

impl View for SearchItem {
    type V = SearchItemView;

    open spec fn view(&self) -> SearchItemView {
        SearchItemView {
            title: self.title@,
            html_url: self.html_url@,
            repository_url: self.repository_url.deep_view(),
            closed_at: crate::entities::opt_int(self.closed_at),
        }
    }
}

impl DeepView for SearchItem {
    type V = SearchItemView;

    open spec fn deep_view(&self) -> SearchItemView {
        self.view()
    }
}

/// The mathematical model of one merge-request record.
#[verifier::ext_equal]
pub struct MergeRequestView {
    pub title: Seq<char>,
    pub web_url: Seq<char>,
    pub merged_at: Option<int>,
}

/// One merge-request record as decoded from the secondary forge's listing
/// endpoint.
#[derive(Debug)]
pub struct GitLabMergeRequest {
    pub title: String,
    pub web_url: String,
    pub merged_at: Option<i64>,
}

impl View for GitLabMergeRequest {
    type V = MergeRequestView;

    open spec fn view(&self) -> MergeRequestView {
        MergeRequestView {
            title: self.title@,
            web_url: self.web_url@,
            merged_at: crate::entities::opt_int(self.merged_at),
        }
    }
}

impl DeepView for GitLabMergeRequest {
    type V = MergeRequestView;

    open spec fn deep_view(&self) -> MergeRequestView {
        self.view()
    }
}

/// The owner and name the final two slash-separated segments of a repository
/// URL spell, or nothing when the URL has no slash at all.
pub open spec fn spec_repo_slug(url: Seq<char>) -> Option<(Seq<char>, Seq<char>)> {
    let j = spec_rfind(url, '/');
    if j == -1 {
        None
    } else {
        let owner_start = spec_rfind(url.take(j), '/') + 1;
        Some((url.subrange(owner_start, j), url.subrange(j + 1, url.len() as int)))
    }
}

/// Extracts the repository owner and name from the final two slash-separated
/// segments of a repository URL.
pub fn parse_repo_slug(url: &str) -> (r: Option<(String, String)>)
    ensures
        match r {
            Some(p) => spec_repo_slug(url@) == Some((p.0@, p.1@)),
            None => spec_repo_slug(url@) is None,
        },
{
    let len = url.unicode_len();
    match find_char_last(url, '/') {
        None => None,
        Some(j) => {
            let head = substring_string(url, 0, j);
            proof {
                assert(head@ =~= url@.take(j as int));
            }
            let owner_start: usize = match find_char_last(head.as_str(), '/') {
                Some(i) => i + 1,
                None => 0,
            };
            let owner = substring_string(url, owner_start, j);
            let name = substring_string(url, j + 1, len);
            Some((owner, name))
        },
    }
}

/// The contribution one search item yields: nothing when the item carries no
/// repository URL or that URL has no slash; otherwise a merged pull request
/// against the owner and name the URL spells, with a canonical repository
/// page URL rebuilt from them.
pub open spec fn spec_item_contribution(it: SearchItemView) -> Option<ContributionView> {
    match it.repository_url {
        None => None,
        Some(ru) => match spec_repo_slug(ru) {
            None => None,
            Some(slug) => Some(
                ContributionView {
                    forge: "github"@,
                    repo_owner: slug.0,
                    repo_name: slug.1,
                    repo_url: "https://github.com/"@ + slug.0 + "/"@ + slug.1,
                    contribution_type: "pr"@,
                    title: Some(it.title),
                    url: it.html_url,
                    merged_at: it.closed_at,
                },
            ),
        },
    }
}

/// Normalizes one search item into the common fetched-contribution shape.
pub fn to_contribution(it: &SearchItem) -> (r: Option<FetchedContribution>)
    ensures
        r.deep_view() == spec_item_contribution(it@),
{
    let ru = match &it.repository_url {
        None => {
            return None;
        },
        Some(ru) => ru,
    };
    match parse_repo_slug(ru.as_str()) {
        None => None,
        Some((owner, name)) => {
            let mut repo_url = String::from_str("https://github.com/");
            repo_url.append(owner.as_str());
            repo_url.append("/");
            repo_url.append(name.as_str());
            let f = FetchedContribution {
                forge: String::from_str("github"),
                repo_owner: owner,
                repo_name: name,
                repo_url,
                contribution_type: String::from_str("pr"),
                title: Some(it.title.clone()),
                url: it.html_url.clone(),
                merged_at: it.closed_at,
            };
            proof {
                assert(f@ =~= spec_item_contribution(it@).unwrap());
            }
            Some(f)
        },
    }
}

/// The contributions one page of search items yields, in order.
pub open spec fn spec_search_page_contributions(page: Seq<SearchItemView>) -> Seq<
    ContributionView,
> {
    spec_filter_map(page, |it: SearchItemView| spec_item_contribution(it))
}

/// Normalizes one page of search items, skipping items without a usable
/// repository URL.
pub fn convert_search_page(page: &Vec<SearchItem>) -> (out: Vec<FetchedContribution>)
    ensures
        out.deep_view() == spec_search_page_contributions(page.deep_view()),
{
    let ghost pv = page.deep_view();
    let mut out: Vec<FetchedContribution> = Vec::new();
    let mut j: usize = 0;
    while j < page.len()
        invariant
            0 <= j <= page.len(),
            pv == page.deep_view(),
            pv.len() == page.len(),
            out.deep_view() =~= spec_search_page_contributions(pv.take(j as int)),
        decreases page.len() - j,
    {
        proof {
            assert(pv.take(j + 1) =~= pv.take(j as int).push(pv[j as int]));
            lemma_filter_map_option_push(
                pv.take(j as int),
                pv[j as int],
                |it: SearchItemView| spec_item_contribution(it),
            );
        }
        if let Some(f) = to_contribution(&page[j]) {
            out.push(f);
        }
        proof {
            assert(out.deep_view() =~= spec_search_page_contributions(pv.take(j + 1)));
        }
        j = j + 1;
    }
    proof {
        assert(pv.take(page.len() as int) =~= pv);
    }
    out
}

/// The project owner, name, and page URL a merge request's web URL spells:
/// the URL is cut before its merge-request suffix, parsed as a URL, and the
/// first and last slash-separated segments of its path are taken. Nothing
/// comes of a URL that does not parse or whose path has fewer than two
/// segments.
pub open spec fn spec_mr_project_info(web_url: Seq<char>) -> Option<
    (Seq<char>, Seq<char>, Seq<char>),
> {
    let cut = spec_find_sub(web_url, "/-/merge_requests"@);
    let ppart = if cut == -1 {
        web_url
    } else {
        web_url.take(cut)
    };
    match url_path(ppart) {
        None => None,
        Some(path) => {
            let trimmed = spec_strip_leading(path, '/');
            let i = spec_find(trimmed, '/');
            if i == -1 {
                None
            } else {
                let j = spec_rfind(trimmed, '/');
                Some((trimmed.take(i), trimmed.subrange(j + 1, trimmed.len() as int), ppart))
            }
        },
    }
}

impl GitLabMergeRequest {
    /// Extracts the project owner, name, and page URL from this merge
    /// request's web URL.
    pub fn parse_project_info(&self) -> (r: Option<(String, String, String)>)
        ensures
            match r {
                Some(p) => spec_mr_project_info(self.web_url@) == Some((p.0@, p.1@, p.2@)),
                None => spec_mr_project_info(self.web_url@) is None,
            },
    {
        let url = self.web_url.as_str();
        let len = url.unicode_len();
        let ppart: String = match find_substr(url, "/-/merge_requests") {
            Some(i) => substring_string(url, 0, i),
            None => url.to_owned(),
        };
        proof {
            assert(url@.subrange(0, spec_find_sub(url@, "/-/merge_requests"@)) =~= url@.take(
                spec_find_sub(url@, "/-/merge_requests"@),
            ));
        }
        match url_path_of(ppart.as_str()) {
            None => None,
            Some(path) => {
                let trimmed = strip_leading(path.as_str(), '/');
                let t = trimmed.as_str();
                let tlen = t.unicode_len();
                match find_char_first(t, '/') {
                    None => None,
                    Some(i) => {
                        let owner = substring_string(t, 0, i);
                        proof {
                            assert(owner@ =~= trimmed@.take(i as int));
                        }
                        match find_char_last(t, '/') {
                            Some(j) => {
                                let name = substring_string(t, j + 1, tlen);
                                Some((owner, name, ppart))
                            },
                            None => {
                                proof {
                                    assert(false);
                                }
                                None
                            },
                        }
                    },
                }
            },
        }
    }
}

/// The contribution one merge request yields for a tracked user: nothing
/// when its URL spells no project, and nothing when the project owner is the
/// user's own namespace (ignoring ASCII case); otherwise a merged merge
/// request against that project.
pub open spec fn spec_mr_contribution(mr: MergeRequestView, username: Seq<char>) -> Option<
    ContributionView,
> {
    match spec_mr_project_info(mr.web_url) {
        None => None,
        Some(info) => if spec_eq_ignore_ascii_case(info.0, username) {
            None
        } else {
            Some(
                ContributionView {
                    forge: "gitlab"@,
                    repo_owner: info.0,
                    repo_name: info.1,
                    repo_url: info.2,
                    contribution_type: "mr"@,
                    title: Some(mr.title),
                    url: mr.web_url,
                    merged_at: mr.merged_at,
                },
            )
        },
    }
}

/// Normalizes one merge request for a tracked user, excluding merge requests
/// against the user's own namespace.
pub fn to_mr_contribution(mr: &GitLabMergeRequest, username: &str) -> (r: Option<
    FetchedContribution,
>)
    ensures
        r.deep_view() == spec_mr_contribution(mr@, username@),
{
    match mr.parse_project_info() {
        None => None,
        Some((owner, name, purl)) => {
            if eq_ignore_ascii_case(owner.as_str(), username) {
                return None;
            }
            let f = FetchedContribution {
                forge: String::from_str("gitlab"),
                repo_owner: owner,
                repo_name: name,
                repo_url: purl,
                contribution_type: String::from_str("mr"),
                title: Some(mr.title.clone()),
                url: mr.web_url.clone(),
                merged_at: mr.merged_at,
            };
            proof {
                assert(f@ =~= spec_mr_contribution(mr@, username@).unwrap());
            }
            Some(f)
        },
    }
}

/// The contributions one page of merge requests yields for a tracked user,
/// in order.
pub open spec fn spec_mr_page_contributions(page: Seq<MergeRequestView>, username: Seq<char>) -> Seq<
    ContributionView,
> {
    spec_filter_map(page, |mr: MergeRequestView| spec_mr_contribution(mr, username))
}

/// Normalizes one page of merge requests for a tracked user, excluding merge
/// requests against the user's own namespace.
pub fn convert_mr_page(page: &Vec<GitLabMergeRequest>, username: &str) -> (out: Vec<
    FetchedContribution,
>)
    ensures
        out.deep_view() == spec_mr_page_contributions(page.deep_view(), username@),
{
    let ghost pv = page.deep_view();
    let mut out: Vec<FetchedContribution> = Vec::new();
    let mut j: usize = 0;
    while j < page.len()
        invariant
            0 <= j <= page.len(),
            pv == page.deep_view(),
            pv.len() == page.len(),
            out.deep_view() =~= spec_mr_page_contributions(pv.take(j as int), username@),
        decreases page.len() - j,
    {
        proof {
            assert(pv.take(j + 1) =~= pv.take(j as int).push(pv[j as int]));
            lemma_filter_map_option_push(
                pv.take(j as int),
                pv[j as int],
                |mr: MergeRequestView| spec_mr_contribution(mr, username@),
            );
        }
        if let Some(f) = to_mr_contribution(&page[j], username) {
            out.push(f);
        }
        proof {
            assert(out.deep_view() =~= spec_mr_page_contributions(pv.take(j + 1), username@));
        }
        j = j + 1;
    }
    proof {
        assert(pv.take(page.len() as int) =~= pv);
    }
    out
}

/// The self-contribution exclusion law: no contribution a merge-request page
/// yields for a tracked user targets a repository whose owner is the user's
/// own namespace, compared ignoring ASCII case.
pub proof fn lemma_self_contributions_excluded(page: Seq<MergeRequestView>, username: Seq<char>)
    ensures
        forall|i: int| 0 <= i < spec_mr_page_contributions(page, username).len()
            ==> !spec_eq_ignore_ascii_case(
            (#[trigger] spec_mr_page_contributions(page, username)[i]).repo_owner,
            username,
        ),
    decreases page.len(),
{
    if page.len() > 0 {
        lemma_self_contributions_excluded(page.drop_last(), username);
        let rest = spec_mr_page_contributions(page.drop_last(), username);
        let whole = spec_mr_page_contributions(page, username);
        match spec_mr_contribution(page.last(), username) {
            Some(c) => {
                assert(whole == rest.push(c));
                assert(!spec_eq_ignore_ascii_case(c.repo_owner, username));
                assert forall|i: int| 0 <= i < whole.len() implies !spec_eq_ignore_ascii_case(
                    (#[trigger] whole[i]).repo_owner,
                    username,
                ) by {
                    if i < rest.len() {
                        assert(whole[i] == rest[i]);
                    }
                }
            },
            None => {
                assert(whole == rest);
            },
        }
    }
}

/// The search query that lists merged pull requests authored by the user,
/// excluding those against the excluded namespace (the user's own when no
/// other is configured).
pub open spec fn spec_search_query(username: Seq<char>, exclude: Option<Seq<char>>) -> Seq<char> {
    "type:pr author:"@ + username + " is:merged -user:"@ + (match exclude {
        Some(e) => e,
        None => username,
    })
}

/// The contributions a capped walk over the given search pages yields.
pub open spec fn spec_collected_search(pages: Seq<Seq<SearchItemView>>, taken: int) -> Seq<
    ContributionView,
> {
    spec_concat_pages(
        pages.map_values(|p: Seq<SearchItemView>| spec_search_page_contributions(p)),
        taken,
    )
}

/// The contributions a capped walk over the given merge-request pages yields
/// for a tracked user.
pub open spec fn spec_collected_mrs(
    pages: Seq<Seq<MergeRequestView>>,
    username: Seq<char>,
    taken: int,
) -> Seq<ContributionView> {
    spec_concat_pages(
        pages.map_values(|p: Seq<MergeRequestView>| spec_mr_page_contributions(p, username)),
        taken,
    )
}

/// The contribution adapter's configuration: the author whose merged pull
/// requests are searched, an optional bearer token, the namespace excluded
/// from the search (the author's own when absent), and the optional
/// secondary forge's user and host.
pub struct ContributionsSync {
    pub username: String,
    pub token: Option<String>,
    pub exclude_owner: Option<String>,
    pub gitlab_username: Option<String>,
    pub gitlab_host: Option<String>,
}

impl ContributionsSync {
    /// Builds the adapter for one author, without a secondary forge.
    pub fn new(username: String, token: Option<String>, exclude_owner: Option<String>) -> (s: Self)
        ensures
            s.username == username,
            s.token == token,
            s.exclude_owner == exclude_owner,
            s.gitlab_username is None,
            s.gitlab_host is None,
    {
        ContributionsSync { username, token, exclude_owner, gitlab_username: None, gitlab_host: None }
    }

    /// Enables the secondary forge sub-source for one user, optionally on an
    /// alternate host.
    pub fn with_gitlab(self, username: String, host: Option<String>) -> (s: Self)
        ensures
            s.username == self.username,
            s.token == self.token,
            s.exclude_owner == self.exclude_owner,
            s.gitlab_username == Some(username),
            s.gitlab_host == host,
    {
        ContributionsSync { gitlab_username: Some(username), gitlab_host: host, ..self }
    }

    /// The search query for the author's merged pull requests.
    pub fn search_query(&self) -> (q: String)
        ensures
            q@ == spec_search_query(self.username@, self.exclude_owner.deep_view()),
    {
        let mut q = String::from_str("type:pr author:");
        q.append(self.username.as_str());
        q.append(" is:merged -user:");
        match &self.exclude_owner {
            Some(e) => q.append(e.as_str()),
            None => q.append(self.username.as_str()),
        }
        q
    }

    /// The search URL for one 1-based page of the author's merged pull
    /// requests, with the query percent-encoded.
    pub fn search_url(&self, page: u32) -> (u: String)
        ensures
            u@ == "https://api.github.com/search/issues?q="@ + url_encoded(
                spec_search_query(self.username@, self.exclude_owner.deep_view()),
            ) + "&sort=updated&order=desc&per_page=100&page="@ + spec_dec_digits(page as nat),
    {
        let q = self.search_query();
        let mut u = String::from_str("https://api.github.com/search/issues?q=");
        u.append(url_encode(q.as_str()).as_str());
        u.append("&sort=updated&order=desc&per_page=100&page=");
        u.append(u64_to_string(page as u64).as_str());
        u
    }

    /// The listing URL for one 1-based page of a user's merged merge requests
    /// on the secondary forge.
    pub fn merge_requests_url(host: &str, username: &str, page: u32) -> (u: String)
        ensures
            u@ == "https://"@ + host@ + "/api/v4/merge_requests?author_username="@ + username@
                + "&state=merged&scope=all&per_page=100&page="@ + spec_dec_digits(page as nat),
    {
        let mut u = String::from_str("https://");
        u.append(host);
        u.append("/api/v4/merge_requests?author_username=");
        u.append(username);
        u.append("&state=merged&scope=all&per_page=100&page=");
        u.append(u64_to_string(page as u64).as_str());
        u
    }

    /// Walks the given successive search pages as the paginated primary
    /// fetch does: pages are consumed in order until one comes back short of
    /// the page size, the safety cap is reached, or the pages run out.
    /// Returns the normalized contributions, in order, and the number of
    /// pages consumed.
    pub fn fetch_github_contributions(&self, pages: &Vec<Vec<SearchItem>>) -> (r: (
        Vec<FetchedContribution>,
        usize,
    ))
        ensures
            ({
                let pv = pages.deep_view();
                let taken = spec_pages_taken(spec_page_lens(pv), MAX_PAGES as int);
                r.1 == taken && r.0.deep_view() == spec_collected_search(pv, taken)
            }),
    {
        let ghost pv = pages.deep_view();
        let ghost lens = spec_page_lens(pv);
        let ghost conv = pv.map_values(|p: Seq<SearchItemView>| spec_search_page_contributions(p));
        proof {
            assert(pv.len() == pages.len());
            lemma_pages_taken_bounds(lens, MAX_PAGES as int);
            assert(lens.skip(0) =~= lens);
        }
        let mut out: Vec<FetchedContribution> = Vec::new();
        let mut k: usize = 0;
        loop
            invariant_except_break
                0 <= k <= pages.len(),
                k <= MAX_PAGES,
                pv == pages.deep_view(),
                pv.len() == pages.len(),
                lens.len() == pv.len(),
                forall|i: int| 0 <= i < pv.len() ==> #[trigger] lens[i] == pv[i].len(),
                conv.len() == pv.len(),
                forall|i: int| 0 <= i < pv.len() ==> #[trigger] conv[i]
                    == spec_search_page_contributions(pv[i]),
                forall|i: int| 0 <= i < k ==> #[trigger] lens[i] >= PAGE_SIZE,
                spec_pages_taken(lens, MAX_PAGES as int) == k + spec_pages_taken(
                    lens.skip(k as int),
                    MAX_PAGES - k,
                ),
                out.deep_view() == spec_concat_pages(conv, k as int),
            ensures
                out.deep_view() == spec_concat_pages(
                    conv,
                    spec_pages_taken(lens, MAX_PAGES as int),
                ),
                k == spec_pages_taken(lens, MAX_PAGES as int),
            decreases pages.len() - k,
        {
            if k == pages.len() {
                proof {
                    assert(lens.skip(k as int).len() == 0);
                }
                break ;
            }
            if k >= MAX_PAGES as usize {
                break ;
            }
            let page = &pages[k];
            let count = page.len();
            let mut converted = convert_search_page(page);
            proof {
                assert(page.deep_view() == pv[k as int]);
                assert(lens[k as int] == pv[k as int].len());
                assert(converted.deep_view() == conv[k as int]);
                assert(lens.skip(k as int)[0] == lens[k as int]);
                assert(lens.skip(k as int).drop_first() =~= lens.skip(k + 1));
            }
            out.append(&mut converted);
            proof {
                assert(out.deep_view() =~= spec_concat_pages(conv, k + 1));
            }
            k = k + 1;
            if count < PAGE_SIZE {
                proof {
                    assert(spec_pages_taken(lens.skip(k - 1), MAX_PAGES - (k - 1)) == 1);
                }
                break ;
            }
        }
        (out, k)
    }

    /// Walks the given successive merge-request pages as the paginated
    /// secondary fetch does, for the configured secondary-forge user; with
    /// no secondary user configured, nothing is fetched at all.
    pub fn fetch_gitlab_contributions(&self, pages: &Vec<Vec<GitLabMergeRequest>>) -> (r: (
        Vec<FetchedContribution>,
        usize,
    ))
        ensures
            ({
                match self.gitlab_username.deep_view() {
                    None => r.1 == 0 && r.0.deep_view() == Seq::<ContributionView>::empty(),
                    Some(user) => {
                        let pv = pages.deep_view();
                        let taken = spec_pages_taken(spec_page_lens(pv), MAX_PAGES as int);
                        r.1 == taken && r.0.deep_view() == spec_collected_mrs(pv, user, taken)
                    },
                }
            }),
    {
        let username = match &self.gitlab_username {
            None => {
                let out: Vec<FetchedContribution> = Vec::new();
                proof {
                    assert(out.deep_view() =~= Seq::<ContributionView>::empty());
                }
                return (out, 0);
            },
            Some(u) => u,
        };
        let ghost user = username@;
        let ghost pv = pages.deep_view();
        let ghost lens = spec_page_lens(pv);
        let ghost conv = pv.map_values(
            |p: Seq<MergeRequestView>| spec_mr_page_contributions(p, user),
        );
        proof {
            assert(pv.len() == pages.len());
            lemma_pages_taken_bounds(lens, MAX_PAGES as int);
            assert(lens.skip(0) =~= lens);
        }
        let mut out: Vec<FetchedContribution> = Vec::new();
        let mut k: usize = 0;
        loop
            invariant_except_break
                0 <= k <= pages.len(),
                k <= MAX_PAGES,
                user == username@,
                pv == pages.deep_view(),
                pv.len() == pages.len(),
                lens.len() == pv.len(),
                forall|i: int| 0 <= i < pv.len() ==> #[trigger] lens[i] == pv[i].len(),
                conv.len() == pv.len(),
                forall|i: int| 0 <= i < pv.len() ==> #[trigger] conv[i]
                    == spec_mr_page_contributions(pv[i], user),
                forall|i: int| 0 <= i < k ==> #[trigger] lens[i] >= PAGE_SIZE,
                spec_pages_taken(lens, MAX_PAGES as int) == k + spec_pages_taken(
                    lens.skip(k as int),
                    MAX_PAGES - k,
                ),
                out.deep_view() == spec_concat_pages(conv, k as int),
            ensures
                out.deep_view() == spec_concat_pages(
                    conv,
                    spec_pages_taken(lens, MAX_PAGES as int),
                ),
                k == spec_pages_taken(lens, MAX_PAGES as int),
            decreases pages.len() - k,
        {
            if k == pages.len() {
                proof {
                    assert(lens.skip(k as int).len() == 0);
                }
                break ;
            }
            if k >= MAX_PAGES as usize {
                break ;
            }
            let page = &pages[k];
            let count = page.len();
            let mut converted = convert_mr_page(page, username.as_str());
            proof {
                assert(page.deep_view() == pv[k as int]);
                assert(lens[k as int] == pv[k as int].len());
                assert(converted.deep_view() == conv[k as int]);
                assert(lens.skip(k as int)[0] == lens[k as int]);
                assert(lens.skip(k as int).drop_first() =~= lens.skip(k + 1));
            }
            out.append(&mut converted);
            proof {
                assert(out.deep_view() =~= spec_concat_pages(conv, k + 1));
            }
            k = k + 1;
            if count < PAGE_SIZE {
                proof {
                    assert(spec_pages_taken(lens.skip(k - 1), MAX_PAGES - (k - 1)) == 1);
                }
                break ;
            }
        }
        (out, k)
    }

    /// Combines the two sub-sources' outcomes under the adapter's policy:
    /// the primary's failure propagates unchanged; a missing or failed
    /// secondary is tolerated and contributes nothing; otherwise the
    /// secondary's contributions follow the primary's.
    pub fn combine_results(
        primary: Result<Vec<FetchedContribution>, SyncError>,
        secondary: Option<Result<Vec<FetchedContribution>, SyncError>>,
    ) -> (r: Result<Vec<FetchedContribution>, SyncError>)
        ensures
            match r {
                Ok(all) => primary matches Ok(p) && all.deep_view() == p.deep_view() + (
                match secondary {
                    Some(Ok(s)) => s.deep_view(),
                    _ => Seq::<ContributionView>::empty(),
                }),
                Err(e) => primary matches Err(pe) && e == pe,
            },
    {
        match primary {
            Err(e) => Err(e),
            Ok(mut all) => {
                let ghost p = all.deep_view();
                match secondary {
                    Some(Ok(mut s)) => {
                        let ghost sv = s.deep_view();
                        all.append(&mut s);
                        proof {
                            assert(all.deep_view() =~= p + sv);
                        }
                        Ok(all)
                    },
                    _ => {
                        proof {
                            assert(all.deep_view() =~= p + Seq::<ContributionView>::empty());
                        }
                        Ok(all)
                    },
                }
            },
        }
    }
}

} // verus!
