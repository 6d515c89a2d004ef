//! The crate-registry adapter: a two-step fetch that first resolves the
//! user's numeric registry id, then pages through that id's published
//! crates, following the response's own next-page cursor under the shared
//! safety cap.

use vstd::prelude::*;
use vstd::string::StringExecFns;

use crate::entities::{CrateView, FetchedCrate};
use crate::pagination::{
    lemma_pages_taken_by_bounds, spec_concat_pages, spec_pages_taken_by, MAX_PAGES,
};
use crate::text::{clone_opt_string, i64_to_string, spec_dec_digits, spec_dec_int, u64_to_string};

verus! {

/// The mathematical model of one crate record as the registry returns it.
#[verifier::ext_equal]
pub struct CrateInfoView {
    pub name: Seq<char>,
    pub description: Option<Seq<char>>,
    pub repository: Option<Seq<char>>,
    pub documentation: Option<Seq<char>>,
    pub downloads: int,
    pub newest_version: Option<Seq<char>>,
}

/// One crate record as decoded from the registry's listing endpoint.
#[derive(Debug)]
pub struct CrateInfo {
    pub name: String,
    pub description: Option<String>,
    pub repository: Option<String>,
    pub documentation: Option<String>,
    pub downloads: u64,
    pub newest_version: Option<String>,
}

impl View for CrateInfo {
    type V = CrateInfoView;

    open spec fn view(&self) -> CrateInfoView {
        CrateInfoView {
            name: self.name@,
            description: self.description.deep_view(),
            repository: self.repository.deep_view(),
            documentation: self.documentation.deep_view(),
            downloads: self.downloads as int,
            newest_version: self.newest_version.deep_view(),
        }
    }
}

impl DeepView for CrateInfo {
    type V = CrateInfoView;

    open spec fn deep_view(&self) -> CrateInfoView {
        self.view()
    }
}

/// The mathematical model of one listing page.
#[verifier::ext_equal]
pub struct CratesPageView {
    pub crates: Seq<CrateInfoView>,
    pub has_next_page: bool,
}

/// One listing page: its crate records, and whether the response's metadata
/// carried a next-page cursor.
#[derive(Debug)]
pub struct CratesPage {
    pub crates: Vec<CrateInfo>,
    pub has_next_page: bool,
}

impl View for CratesPage {
    type V = CratesPageView;

    open spec fn view(&self) -> CratesPageView {
        CratesPageView { crates: self.crates.deep_view(), has_next_page: self.has_next_page }
    }
}

impl DeepView for CratesPage {
    type V = CratesPageView;

    open spec fn deep_view(&self) -> CratesPageView {
        self.view()
    }
}

/// The normalization of one crate record: the registry page URL is derived
/// from the name, a download count beyond the stored range saturates, and
/// keyword and category lists default to empty.
pub open spec fn spec_crate_normalized(c: CrateInfoView) -> CrateView {
    CrateView {
        name: c.name,
        description: c.description,
        repository_url: c.repository,
        crates_io_url: "https://crates.io/crates/"@ + c.name,
        documentation_url: c.documentation,
        downloads: if c.downloads > i32::MAX {
            i32::MAX as int
        } else {
            c.downloads
        },
        version: c.newest_version,
        keywords: Seq::empty(),
        categories: Seq::empty(),
    }
}

/// Normalizes one crate record into the common fetched-crate shape.
pub fn to_fetched_crate(c: &CrateInfo) -> (f: FetchedCrate)
    ensures
        f@ == spec_crate_normalized(c@),
        f.downloads >= 0,
{
    let mut url = String::from_str("https://crates.io/crates/");
    url.append(c.name.as_str());
    let f = FetchedCrate {
        name: c.name.clone(),
        description: clone_opt_string(&c.description),
        repository_url: clone_opt_string(&c.repository),
        crates_io_url: url,
        documentation_url: clone_opt_string(&c.documentation),
        downloads: if c.downloads > i32::MAX as u64 {
            i32::MAX
        } else {
            c.downloads as i32
        },
        version: clone_opt_string(&c.newest_version),
        keywords: Vec::new(),
        categories: Vec::new(),
    };
    proof {
        assert(f@ =~= spec_crate_normalized(c@));
    }
    f
}

/// The fetched crates one listing page yields: every record, normalized,
/// in order.
pub open spec fn spec_crates_page_normalized(page: Seq<CrateInfoView>) -> Seq<CrateView> {
    page.map_values(|c: CrateInfoView| spec_crate_normalized(c))
}

/// Normalizes every record of one listing page, in order.
pub fn convert_page(page: &Vec<CrateInfo>) -> (out: Vec<FetchedCrate>)
    ensures
        out.deep_view() == spec_crates_page_normalized(page.deep_view()),
{
    let ghost pv = page.deep_view();
    let mut out: Vec<FetchedCrate> = Vec::new();
    let mut j: usize = 0;
    while j < page.len()
        invariant
            0 <= j <= page.len(),
            pv == page.deep_view(),
            pv.len() == page.len(),
            out.deep_view() =~= spec_crates_page_normalized(pv.take(j as int)),
        decreases page.len() - j,
    {
        let f = to_fetched_crate(&page[j]);
        proof {
            assert(f@ == spec_crate_normalized(pv[j as int]));
        }
        out.push(f);
        proof {
            assert(pv.take(j + 1) =~= pv.take(j as int).push(pv[j as int]));
            assert(spec_crates_page_normalized(pv.take(j + 1)) =~= spec_crates_page_normalized(
                pv.take(j as int),
            ).push(spec_crate_normalized(pv[j as int])));
            assert(out.deep_view() =~= spec_crates_page_normalized(pv.take(j as int)).push(
                spec_crate_normalized(pv[j as int]),
            ));
        }
        j = j + 1;
    }
    proof {
        assert(pv.take(page.len() as int) =~= pv);
    }
    out
}

/// The continuation signals of successive listing pages.
pub open spec fn spec_next_flags(pages: Seq<CratesPageView>) -> Seq<bool> {
    pages.map_values(|p: CratesPageView| p.has_next_page)
}

/// The fetched crates a capped cursor walk over the given pages yields.
pub open spec fn spec_collected_crates(pages: Seq<CratesPageView>, taken: int) -> Seq<CrateView> {
    spec_concat_pages(
        pages.map_values(|p: CratesPageView| spec_crates_page_normalized(p.crates)),
        taken,
    )
}

/// The crate-registry adapter's configuration: the user whose crates are
/// listed.
pub struct CratesIoRegistry {
    pub username: String,
}

impl CratesIoRegistry {
    /// Builds the adapter for one user.
    pub fn new(username: String) -> (s: Self)
        ensures
            s.username == username,
    {
        CratesIoRegistry { username }
    }

    /// The URL that resolves the user's numeric registry id.
    pub fn user_url(&self) -> (u: String)
        ensures
            u@ == "https://crates.io/api/v1/users/"@ + self.username@,
    {
        let mut u = String::from_str("https://crates.io/api/v1/users/");
        u.append(self.username.as_str());
        u
    }

    /// The listing URL for one 1-based page of a user id's published crates.
    pub fn crates_page_url(&self, user_id: i64, page: u32) -> (u: String)
        ensures
            u@ == "https://crates.io/api/v1/crates?user_id="@ + spec_dec_int(user_id as int)
                + "&page="@ + spec_dec_digits(page as nat) + "&per_page=100"@,
    {
        let mut u = String::from_str("https://crates.io/api/v1/crates?user_id=");
        u.append(i64_to_string(user_id).as_str());
        u.append("&page=");
        u.append(u64_to_string(page as u64).as_str());
        u.append("&per_page=100");
        u
    }

    /// Walks the given successive page responses as the paginated fetch
    /// does: pages are consumed in order until one carries no next-page
    /// cursor, the safety cap is reached, or the pages run out. Returns
    /// every listed crate, normalized and in order, and the number of pages
    /// consumed.
    pub fn fetch_crates(&self, pages: &Vec<CratesPage>) -> (r: (Vec<FetchedCrate>, usize))
        ensures
            ({
                let pv = pages.deep_view();
                let taken = spec_pages_taken_by(spec_next_flags(pv), MAX_PAGES as int);
                r.1 == taken && r.0.deep_view() == spec_collected_crates(pv, taken)
            }),
    {
        let ghost pv = pages.deep_view();
        let ghost flags = spec_next_flags(pv);
        let ghost conv = pv.map_values(
            |p: CratesPageView| spec_crates_page_normalized(p.crates),
        );
        proof {
            assert(pv.len() == pages.len());
            lemma_pages_taken_by_bounds(flags, MAX_PAGES as int);
            assert(flags.skip(0) =~= flags);
        }
        let mut out: Vec<FetchedCrate> = Vec::new();
        let mut k: usize = 0;
        loop
            invariant_except_break
                0 <= k <= pages.len(),
                k <= MAX_PAGES,
                pv == pages.deep_view(),
                pv.len() == pages.len(),
                flags.len() == pv.len(),
                forall|i: int| 0 <= i < pv.len() ==> #[trigger] flags[i] == pv[i].has_next_page,
                conv.len() == pv.len(),
                forall|i: int| 0 <= i < pv.len() ==> #[trigger] conv[i]
                    == spec_crates_page_normalized(pv[i].crates),
                forall|i: int| 0 <= i < k ==> #[trigger] flags[i],
                spec_pages_taken_by(flags, MAX_PAGES as int) == k + spec_pages_taken_by(
                    flags.skip(k as int),
                    MAX_PAGES - k,
                ),
                out.deep_view() == spec_concat_pages(conv, k as int),
            ensures
                out.deep_view() == spec_concat_pages(
                    conv,
                    spec_pages_taken_by(flags, MAX_PAGES as int),
                ),
                k == spec_pages_taken_by(flags, MAX_PAGES as int),
            decreases pages.len() - k,
        {
            if k == pages.len() {
                proof {
                    assert(flags.skip(k as int).len() == 0);
                }
                break ;
            }
            if k >= MAX_PAGES as usize {
                break ;
            }
            let page = &pages[k];
            let has_next = page.has_next_page;
            let mut converted = convert_page(&page.crates);
            proof {
                assert(page.deep_view() == pv[k as int]);
                assert(converted.deep_view() == conv[k as int]);
                assert(flags.skip(k as int)[0] == flags[k as int]);
                assert(flags.skip(k as int).drop_first() =~= flags.skip(k + 1));
            }
            out.append(&mut converted);
            proof {
                assert(out.deep_view() =~= spec_concat_pages(conv, k + 1));
            }
            k = k + 1;
            if !has_next {
                proof {
                    assert(spec_pages_taken_by(flags.skip(k - 1), MAX_PAGES - (k - 1)) == 1);
                }
                break ;
            }
        }
        (out, k)
    }
}

} // verus!
