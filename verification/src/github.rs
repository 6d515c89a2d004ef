//! The GitHub forge adapter: lists a user's repositories sorted by recency,
//! filters out forks and archived repositories, and normalizes the rest into
//! the common fetched-repository shape.

use vstd::prelude::*;
use vstd::string::StringExecFns;

use crate::entities::{FetchedRepository, RepoView};
use crate::pagination::{
    lemma_filter_map_push, lemma_pages_taken_bounds, spec_concat_pages, spec_pages_taken,
    MAX_PAGES, PAGE_SIZE,
};
use crate::text::{clone_opt_string, clone_string_vec, spec_dec_digits, u64_to_string};

verus! {

/// The mathematical model of one repository record as the platform returns
/// it.
#[verifier::ext_equal]
pub struct GitHubRepoView {
    pub full_name: Seq<char>,
    pub name: Seq<char>,
    pub description: Option<Seq<char>>,
    pub html_url: Seq<char>,
    pub language: Option<Seq<char>>,
    pub stargazers_count: int,
    pub fork: bool,
    pub archived: bool,
    pub topics: Option<Seq<Seq<char>>>,
    pub updated_at: Option<int>,
}

/// One repository record as decoded from the platform's listing endpoint.
#[derive(Debug)]
pub struct GitHubRepo {
    pub full_name: String,
    pub name: String,
    pub description: Option<String>,
    pub html_url: String,
    pub language: Option<String>,
    pub stargazers_count: i32,
    pub fork: bool,
    pub archived: bool,
    pub topics: Option<Vec<String>>,
    pub updated_at: Option<i64>,
}

impl View for GitHubRepo {
    type V = GitHubRepoView;

    open spec fn view(&self) -> GitHubRepoView {
        GitHubRepoView {
            full_name: self.full_name@,
            name: self.name@,
            description: self.description.deep_view(),
            html_url: self.html_url@,
            language: self.language.deep_view(),
            stargazers_count: self.stargazers_count as int,
            fork: self.fork,
            archived: self.archived,
            topics: self.topics.deep_view(),
            updated_at: crate::entities::opt_int(self.updated_at),
        }
    }
}

impl DeepView for GitHubRepo {
    type V = GitHubRepoView;

    open spec fn deep_view(&self) -> GitHubRepoView {
        self.view()
    }
}

/// Whether a listed repository is kept: forks and archived repositories are
/// excluded.
pub open spec fn spec_repo_kept(g: GitHubRepoView) -> bool {
    !g.fork && !g.archived
}

/// The normalization of one kept repository record: the platform-native
/// identity is the full name, missing topic lists default to empty, and a
/// negative star count is floored at zero.
pub open spec fn spec_repo_normalized(g: GitHubRepoView) -> RepoView {
    RepoView {
        forge: "github"@,
        forge_id: g.full_name,
        name: g.name,
        description: g.description,
        url: g.html_url,
        language: g.language,
        stars: if g.stargazers_count < 0 {
            0
        } else {
            g.stargazers_count
        },
        topics: match g.topics {
            Some(t) => t,
            None => Seq::empty(),
        },
        updated_at: g.updated_at,
    }
}

/// The fetched repositories one page of platform records yields: the kept
/// records, normalized, in order.
pub open spec fn spec_page_repos(page: Seq<GitHubRepoView>) -> Seq<RepoView> {
    page.filter(|g: GitHubRepoView| spec_repo_kept(g)).map_values(
        |g: GitHubRepoView| spec_repo_normalized(g),
    )
}

/// Normalizes one platform record into the common fetched-repository shape.
pub fn to_fetched_repository(g: &GitHubRepo) -> (f: FetchedRepository)
    ensures
        f@ == spec_repo_normalized(g@),
        f.stars >= 0,
{
    let f = FetchedRepository {
        forge: String::from_str("github"),
        forge_id: g.full_name.clone(),
        name: g.name.clone(),
        description: clone_opt_string(&g.description),
        url: g.html_url.clone(),
        language: clone_opt_string(&g.language),
        stars: if g.stargazers_count < 0 {
            0
        } else {
            g.stargazers_count
        },
        topics: match &g.topics {
            Some(t) => clone_string_vec(t),
            None => Vec::new(),
        },
        updated_at: g.updated_at,
    };
    proof {
        assert(f@ =~= spec_repo_normalized(g@));
    }
    f
}

/// Filters and normalizes one page of platform records: exactly the records
/// that are neither forks nor archived are returned, in order.
pub fn filter_page(page: &Vec<GitHubRepo>) -> (out: Vec<FetchedRepository>)
    ensures
        out.deep_view() == spec_page_repos(page.deep_view()),
{
    let ghost pv = page.deep_view();
    let mut out: Vec<FetchedRepository> = Vec::new();
    let mut j: usize = 0;
    while j < page.len()
        invariant
            0 <= j <= page.len(),
            pv == page.deep_view(),
            pv.len() == page.len(),
            out.deep_view() == spec_page_repos(pv.take(j as int)),
        decreases page.len() - j,
    {
        let item = &page[j];
        proof {
            assert(pv.take(j + 1).drop_last() =~= pv.take(j as int));
            assert(pv.take(j + 1) =~= pv.take(j as int).push(pv[j as int]));
            lemma_filter_map_push(
                pv.take(j as int),
                pv[j as int],
                |g: GitHubRepoView| spec_repo_kept(g),
                |g: GitHubRepoView| spec_repo_normalized(g),
            );
        }
        if !item.fork && !item.archived {
            let f = to_fetched_repository(item);
            out.push(f);
            proof {
                assert(out.deep_view() =~= spec_page_repos(pv.take(j + 1)));
            }
        } else {
            proof {
                assert(out.deep_view() =~= spec_page_repos(pv.take(j + 1)));
            }
        }
        j = j + 1;
    }
    proof {
        assert(pv.take(page.len() as int) =~= pv);
    }
    out
}

/// The item counts of a source's successive pages.
pub open spec fn spec_page_lens<T>(pages: Seq<Seq<T>>) -> Seq<int> {
    pages.map_values(|p: Seq<T>| p.len() as int)
}

/// The fetched repositories a capped walk over the given pages yields.
pub open spec fn spec_collected_repos(pages: Seq<Seq<GitHubRepoView>>, taken: int) -> Seq<
    RepoView,
> {
    spec_concat_pages(pages.map_values(|p: Seq<GitHubRepoView>| spec_page_repos(p)), taken)
}

/// The GitHub forge adapter's configuration: the user whose repositories are
/// listed, and an optional bearer token (absence is valid and simply yields
/// unauthenticated rate limits).
pub struct GitHubForge {
    pub username: String,
    pub token: Option<String>,
}

impl GitHubForge {
    /// Builds the adapter for one user.
    pub fn new(username: String, token: Option<String>) -> (s: Self)
        ensures
            s.username == username,
            s.token == token,
    {
        GitHubForge { username, token }
    }

    /// The source's name.
    pub fn name(&self) -> (r: &'static str)
        ensures
            r@ == "github"@,
    {
        "github"
    }

    /// The listing URL for one 1-based page of the user's repositories.
    pub fn repos_page_url(&self, page: u32) -> (u: String)
        ensures
            u@ == "https://api.github.com/users/"@ + self.username@
                + "/repos?per_page=100&page="@ + spec_dec_digits(page as nat) + "&sort=updated"@,
    {
        let mut u = String::from_str("https://api.github.com/users/");
        u.append(self.username.as_str());
        u.append("/repos?per_page=100&page=");
        u.append(u64_to_string(page as u64).as_str());
        u.append("&sort=updated");
        u
    }

    /// Walks the given successive page responses as the paginated fetch does:
    /// pages are consumed in order until one comes back short of the page
    /// size, the safety cap is reached, or the pages run out. Returns the
    /// kept repositories, normalized and in order, and the number of pages
    /// consumed.
    pub fn fetch_repositories(&self, pages: &Vec<Vec<GitHubRepo>>) -> (r: (
        Vec<FetchedRepository>,
        usize,
    ))
        ensures
            ({
                let pv = pages.deep_view();
                let taken = spec_pages_taken(spec_page_lens(pv), MAX_PAGES as int);
                r.1 == taken && r.0.deep_view() == spec_collected_repos(pv, taken)
            }),
    {
        let ghost pv = pages.deep_view();
        let ghost lens = spec_page_lens(pv);
        let ghost conv = pv.map_values(|p: Seq<GitHubRepoView>| spec_page_repos(p));
        proof {
            assert(pv.len() == pages.len());
            lemma_pages_taken_bounds(lens, MAX_PAGES as int);
            assert(lens.skip(0) =~= lens);
        }
        let mut out: Vec<FetchedRepository> = Vec::new();
        let mut k: usize = 0;
        loop
            invariant_except_break
                0 <= k <= pages.len(),
                k <= MAX_PAGES,
                pv == pages.deep_view(),
                pv.len() == pages.len(),
                lens.len() == pv.len(),
                forall|i: int| 0 <= i < pv.len() ==> #[trigger] lens[i] == pv[i].len(),
                conv.len() == pv.len(),
                forall|i: int| 0 <= i < pv.len() ==> #[trigger] conv[i] == spec_page_repos(pv[i]),
                forall|i: int| 0 <= i < k ==> #[trigger] lens[i] >= PAGE_SIZE,
                spec_pages_taken(lens, MAX_PAGES as int) == k + spec_pages_taken(
                    lens.skip(k as int),
                    MAX_PAGES - k,
                ),
                out.deep_view() == spec_concat_pages(conv, k as int),
            ensures
                out.deep_view() == spec_concat_pages(
                    conv,
                    spec_pages_taken(lens, MAX_PAGES as int),
                ),
                k == spec_pages_taken(lens, MAX_PAGES as int),
            decreases pages.len() - k,
        {
            if k == pages.len() {
                proof {
                    assert(lens.skip(k as int).len() == 0);
                }
                break ;
            }
            if k >= MAX_PAGES as usize {
                break ;
            }
            let page = &pages[k];
            let count = page.len();
            let mut converted = filter_page(page);
            proof {
                assert(page.deep_view() == pv[k as int]);
                assert(lens[k as int] == pv[k as int].len());
                assert(converted.deep_view() == conv[k as int]);
                assert(lens.skip(k as int)[0] == lens[k as int]);
                assert(lens.skip(k as int).drop_first() =~= lens.skip(k + 1));
            }
            out.append(&mut converted);
            proof {
                assert(out.deep_view() =~= spec_concat_pages(conv, k + 1));
            }
            k = k + 1;
            if count < PAGE_SIZE {
                proof {
                    assert(spec_pages_taken(lens.skip(k - 1), MAX_PAGES - (k - 1)) == 1);
                }
                break ;
            }
        }
        (out, k)
    }
}

} // verus!
