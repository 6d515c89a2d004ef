//! The GitLab forge adapter: lists a user's public projects sorted by
//! recency, filters out archived projects and forks, and normalizes the rest
//! into the common fetched-repository shape. The listing endpoint does not
//! return a primary language, so that field is left empty rather than
//! guessed.

use vstd::prelude::*;
use vstd::string::StringExecFns;

use crate::entities::{FetchedRepository, RepoView};
use crate::github::spec_page_lens;
use crate::pagination::{
    lemma_filter_map_push, lemma_pages_taken_bounds, spec_concat_pages, spec_pages_taken,
    MAX_PAGES, PAGE_SIZE,
};
use crate::text::{clone_opt_string, clone_string_vec, i64_to_string, spec_dec_digits,
    spec_dec_int, u64_to_string};

verus! {

/// The mathematical model of one project record as the platform returns it.
#[verifier::ext_equal]
pub struct GitLabProjectView {
    pub id: int,
    pub path_with_namespace: Seq<char>,
    pub name: Seq<char>,
    pub description: Option<Seq<char>>,
    pub web_url: Seq<char>,
    pub star_count: int,
    pub archived: bool,
    pub forked_from_project: bool,
    pub topics: Option<Seq<Seq<char>>>,
    pub last_activity_at: Option<int>,
}

/// One project record as decoded from the platform's listing endpoint.
/// `forked_from_project` records whether the listing carried a fork parent.
#[derive(Debug)]
pub struct GitLabProject {
    pub id: i64,
    pub path_with_namespace: String,
    pub name: String,
    pub description: Option<String>,
    pub web_url: String,
    pub star_count: i32,
    pub archived: bool,
    pub forked_from_project: bool,
    pub topics: Option<Vec<String>>,
    pub last_activity_at: Option<i64>,
}

impl View for GitLabProject {
    type V = GitLabProjectView;

    open spec fn view(&self) -> GitLabProjectView {
        GitLabProjectView {
            id: self.id as int,
            path_with_namespace: self.path_with_namespace@,
            name: self.name@,
            description: self.description.deep_view(),
            web_url: self.web_url@,
            star_count: self.star_count as int,
            archived: self.archived,
            forked_from_project: self.forked_from_project,
            topics: self.topics.deep_view(),
            last_activity_at: crate::entities::opt_int(self.last_activity_at),
        }
    }
}

impl DeepView for GitLabProject {
    type V = GitLabProjectView;

    open spec fn deep_view(&self) -> GitLabProjectView {
        self.view()
    }
}

/// Whether a listed project is kept: archived projects and forks are
/// excluded.
pub open spec fn spec_project_kept(g: GitLabProjectView) -> bool {
    !g.archived && !g.forked_from_project
}

/// The normalization of one kept project record: the platform-native
/// identity is the numeric id rendered in decimal, the language is left
/// empty, missing topic lists default to empty, and a negative star count is
/// floored at zero.
pub open spec fn spec_project_normalized(g: GitLabProjectView) -> RepoView {
    RepoView {
        forge: "gitlab"@,
        forge_id: spec_dec_int(g.id),
        name: g.name,
        description: g.description,
        url: g.web_url,
        language: None,
        stars: if g.star_count < 0 {
            0
        } else {
            g.star_count
        },
        topics: match g.topics {
            Some(t) => t,
            None => Seq::empty(),
        },
        updated_at: g.last_activity_at,
    }
}

/// The fetched repositories one page of platform records yields: the kept
/// records, normalized, in order.
pub open spec fn spec_page_projects(page: Seq<GitLabProjectView>) -> Seq<RepoView> {
    page.filter(|g: GitLabProjectView| spec_project_kept(g)).map_values(
        |g: GitLabProjectView| spec_project_normalized(g),
    )
}

/// Normalizes one platform record into the common fetched-repository shape.
pub fn to_fetched_repository(g: &GitLabProject) -> (f: FetchedRepository)
    ensures
        f@ == spec_project_normalized(g@),
        f.stars >= 0,
{
    let f = FetchedRepository {
        forge: String::from_str("gitlab"),
        forge_id: i64_to_string(g.id),
        name: g.name.clone(),
        description: clone_opt_string(&g.description),
        url: g.web_url.clone(),
        language: None,
        stars: if g.star_count < 0 {
            0
        } else {
            g.star_count
        },
        topics: match &g.topics {
            Some(t) => clone_string_vec(t),
            None => Vec::new(),
        },
        updated_at: g.last_activity_at,
    };
    proof {
        assert(f@ =~= spec_project_normalized(g@));
    }
    f
}

/// Filters and normalizes one page of platform records: exactly the records
/// that are neither archived nor forks are returned, in order.
pub fn filter_page(page: &Vec<GitLabProject>) -> (out: Vec<FetchedRepository>)
    ensures
        out.deep_view() == spec_page_projects(page.deep_view()),
{
    let ghost pv = page.deep_view();
    let mut out: Vec<FetchedRepository> = Vec::new();
    let mut j: usize = 0;
    while j < page.len()
        invariant
            0 <= j <= page.len(),
            pv == page.deep_view(),
            pv.len() == page.len(),
            out.deep_view() == spec_page_projects(pv.take(j as int)),
        decreases page.len() - j,
    {
        let item = &page[j];
        proof {
            assert(pv.take(j + 1).drop_last() =~= pv.take(j as int));
            assert(pv.take(j + 1) =~= pv.take(j as int).push(pv[j as int]));
            lemma_filter_map_push(
                pv.take(j as int),
                pv[j as int],
                |g: GitLabProjectView| spec_project_kept(g),
                |g: GitLabProjectView| spec_project_normalized(g),
            );
        }
        if !item.archived && !item.forked_from_project {
            let f = to_fetched_repository(item);
            out.push(f);
            proof {
                assert(out.deep_view() =~= spec_page_projects(pv.take(j + 1)));
            }
        } else {
            proof {
                assert(out.deep_view() =~= spec_page_projects(pv.take(j + 1)));
            }
        }
        j = j + 1;
    }
    proof {
        assert(pv.take(page.len() as int) =~= pv);
    }
    out
}

/// The fetched repositories a capped walk over the given pages yields.
pub open spec fn spec_collected_projects(pages: Seq<Seq<GitLabProjectView>>, taken: int) -> Seq<
    RepoView,
> {
    spec_concat_pages(pages.map_values(|p: Seq<GitLabProjectView>| spec_page_projects(p)), taken)
}

/// The GitLab forge adapter's configuration: the user whose projects are
/// listed, and the host to query (an alternate host covers self-managed
/// instances).
pub struct GitLabForge {
    pub host: String,
    pub username: String,
}

impl GitLabForge {
    /// Builds the adapter for one user; the host defaults to the public
    /// instance when none is given.
    pub fn new(username: String, host: Option<String>) -> (s: Self)
        ensures
            s.username == username,
            s.host@ == match host {
                Some(h) => h@,
                None => "gitlab.com"@,
            },
    {
        GitLabForge {
            host: match host {
                Some(h) => h,
                None => String::from_str("gitlab.com"),
            },
            username,
        }
    }

    /// The source's name.
    pub fn name(&self) -> (r: &'static str)
        ensures
            r@ == "gitlab"@,
    {
        "gitlab"
    }

    /// The versioned API base for the configured host.
    pub fn api_base(&self) -> (u: String)
        ensures
            u@ == "https://"@ + self.host@ + "/api/v4"@,
    {
        let mut u = String::from_str("https://");
        u.append(self.host.as_str());
        u.append("/api/v4");
        u
    }

    /// The listing URL for one 1-based page of the user's public projects.
    pub fn projects_page_url(&self, page: u32) -> (u: String)
        ensures
            u@ == "https://"@ + self.host@ + "/api/v4"@ + "/users/"@ + self.username@
                + "/projects?per_page=100&page="@ + spec_dec_digits(page as nat)
                + "&order_by=updated_at&visibility=public"@,
    {
        let mut u = self.api_base();
        u.append("/users/");
        u.append(self.username.as_str());
        u.append("/projects?per_page=100&page=");
        u.append(u64_to_string(page as u64).as_str());
        u.append("&order_by=updated_at&visibility=public");
        u
    }

    /// Walks the given successive page responses as the paginated fetch does:
    /// pages are consumed in order until one comes back short of the page
    /// size, the safety cap is reached, or the pages run out. Returns the
    /// kept projects, normalized and in order, and the number of pages
    /// consumed.
    pub fn fetch_repositories(&self, pages: &Vec<Vec<GitLabProject>>) -> (r: (
        Vec<FetchedRepository>,
        usize,
    ))
        ensures
            ({
                let pv = pages.deep_view();
                let taken = spec_pages_taken(spec_page_lens(pv), MAX_PAGES as int);
                r.1 == taken && r.0.deep_view() == spec_collected_projects(pv, taken)
            }),
    {
        let ghost pv = pages.deep_view();
        let ghost lens = spec_page_lens(pv);
        let ghost conv = pv.map_values(|p: Seq<GitLabProjectView>| spec_page_projects(p));
        proof {
            assert(pv.len() == pages.len());
            lemma_pages_taken_bounds(lens, MAX_PAGES as int);
            assert(lens.skip(0) =~= lens);
        }
        let mut out: Vec<FetchedRepository> = Vec::new();
        let mut k: usize = 0;
        loop
            invariant_except_break
                0 <= k <= pages.len(),
                k <= MAX_PAGES,
                pv == pages.deep_view(),
                pv.len() == pages.len(),
                lens.len() == pv.len(),
                forall|i: int| 0 <= i < pv.len() ==> #[trigger] lens[i] == pv[i].len(),
                conv.len() == pv.len(),
                forall|i: int| 0 <= i < pv.len() ==> #[trigger] conv[i] == spec_page_projects(
                    pv[i],
                ),
                forall|i: int| 0 <= i < k ==> #[trigger] lens[i] >= PAGE_SIZE,
                spec_pages_taken(lens, MAX_PAGES as int) == k + spec_pages_taken(
                    lens.skip(k as int),
                    MAX_PAGES - k,
                ),
                out.deep_view() == spec_concat_pages(conv, k as int),
            ensures
                out.deep_view() == spec_concat_pages(
                    conv,
                    spec_pages_taken(lens, MAX_PAGES as int),
                ),
                k == spec_pages_taken(lens, MAX_PAGES as int),
            decreases pages.len() - k,
        {
            if k == pages.len() {
                proof {
                    assert(lens.skip(k as int).len() == 0);
                }
                break ;
            }
            if k >= MAX_PAGES as usize {
                break ;
            }
            let page = &pages[k];
            let count = page.len();
            let mut converted = filter_page(page);
            proof {
                assert(page.deep_view() == pv[k as int]);
                assert(lens[k as int] == pv[k as int].len());
                assert(converted.deep_view() == conv[k as int]);
                assert(lens.skip(k as int)[0] == lens[k as int]);
                assert(lens.skip(k as int).drop_first() =~= lens.skip(k + 1));
            }
            out.append(&mut converted);
            proof {
                assert(out.deep_view() =~= spec_concat_pages(conv, k + 1));
            }
            k = k + 1;
            if count < PAGE_SIZE {
                proof {
                    assert(spec_pages_taken(lens.skip(k - 1), MAX_PAGES - (k - 1)) == 1);
                }
                break ;
            }
        }
        (out, k)
    }
}

} // verus!
