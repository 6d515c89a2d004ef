//! The shared pagination policy: walk a source's pages until one comes back
//! short of the requested page size, or a hard safety cap of pages is
//! reached. The cap guards against platforms that never signal a last page.

use vstd::prelude::*;

verus! {

/// The number of items requested per page.
pub const PAGE_SIZE: usize = 100;

/// The hard safety cap on pages fetched from one source in one pass.
pub const MAX_PAGES: u32 = 5;

/// The pagination state one adapter drives while walking a source:
/// how many pages have come back, and whether the walk is over.
pub struct Paginator {
    pub pages_fetched: u32,
    pub finished: bool,
}

impl Paginator {
    /// The paginator's invariant: the walk never requests more than
    /// `MAX_PAGES` pages.
    pub open spec fn wf(self) -> bool {
        self.pages_fetched <= MAX_PAGES && (!self.finished ==> self.pages_fetched < MAX_PAGES)
    }

    /// Starts a walk at the first page.
    pub fn new() -> (p: Paginator)
        ensures
            p.wf(),
            p.pages_fetched == 0,
            !p.finished,
    {
        Paginator { pages_fetched: 0, finished: false }
    }

    /// The 1-based page number to request next, or nothing when the walk is
    /// over.
    pub fn current_page(&self) -> (r: Option<u32>)
        requires
            self.wf(),
        ensures
            r == if self.finished {
                None::<u32>
            } else {
                Some((self.pages_fetched + 1) as u32)
            },
    {
        if self.finished {
            None
        } else {
            Some(self.pages_fetched + 1)
        }
    }

    /// Records that the current page came back with `count` items. The walk
    /// finishes on a short page, or once the safety cap is reached.
    pub fn record_page(&mut self, count: usize)
        requires
            old(self).wf(),
            !old(self).finished,
        ensures
            final(self).wf(),
            final(self).pages_fetched == old(self).pages_fetched + 1,
            final(self).finished == (count < PAGE_SIZE || old(self).pages_fetched + 1
                == MAX_PAGES),
    {
        self.pages_fetched = self.pages_fetched + 1;
        self.finished = count < PAGE_SIZE || self.pages_fetched == MAX_PAGES;
    }
}

/// How many pages a capped walk takes from a source whose successive pages
/// hold the given item counts: every full page leads to one more request, a
/// short page is the last, and no more than `cap` pages are ever taken.
pub open spec fn spec_pages_taken(lens: Seq<int>, cap: int) -> int
    decreases lens.len(),
{
    if lens.len() == 0 || cap <= 0 {
        0
    } else if lens[0] < PAGE_SIZE {
        1
    } else {
        1 + spec_pages_taken(lens.drop_first(), cap - 1)
    }
}

/// The pagination laws: a capped walk always terminates within the cap and
/// within the pages the source has (`0 <= taken <= cap`, `taken <=
/// lens.len()`); every page before the last is full; and the walk runs past
/// a page only when that page is full.
pub proof fn lemma_pages_taken_bounds(lens: Seq<int>, cap: int)
    requires
        cap >= 0,
    ensures
        0 <= spec_pages_taken(lens, cap) <= cap,
        spec_pages_taken(lens, cap) <= lens.len(),
        forall|i: int| 0 <= i < spec_pages_taken(lens, cap) - 1 ==> #[trigger] lens[i]
            >= PAGE_SIZE,
        ({
            let t = spec_pages_taken(lens, cap);
            t < cap && t < lens.len() ==> t > 0 && lens[t - 1] < PAGE_SIZE
        }),
    decreases lens.len(),
{
    if lens.len() == 0 || cap <= 0 {
    } else if lens[0] < PAGE_SIZE {
    } else {
        lemma_pages_taken_bounds(lens.drop_first(), cap - 1);
        assert forall|i: int| 0 <= i < spec_pages_taken(lens, cap) - 1 implies #[trigger] lens[i]
            >= PAGE_SIZE by {
            if i > 0 {
                assert(lens.drop_first()[i - 1] == lens[i]);
            }
        }
    }
}

/// How many pages a capped walk takes from a source whose successive pages
/// carry the given continuation signals (a cursor-style idiom: each page says
/// whether another follows): every page that signals a successor leads to one
/// more request, a page without one is the last, and no more than `cap`
/// pages are ever taken.
pub open spec fn spec_pages_taken_by(cont: Seq<bool>, cap: int) -> int
    decreases cont.len(),
{
    if cont.len() == 0 || cap <= 0 {
        0
    } else if !cont[0] {
        1
    } else {
        1 + spec_pages_taken_by(cont.drop_first(), cap - 1)
    }
}

/// The cursor-walk laws: a capped walk always terminates within the cap and
/// within the pages the source has; every page before the last signals a
/// successor; and the walk runs past a page only on that signal.
pub proof fn lemma_pages_taken_by_bounds(cont: Seq<bool>, cap: int)
    requires
        cap >= 0,
    ensures
        0 <= spec_pages_taken_by(cont, cap) <= cap,
        spec_pages_taken_by(cont, cap) <= cont.len(),
        forall|i: int| 0 <= i < spec_pages_taken_by(cont, cap) - 1 ==> #[trigger] cont[i],
        ({
            let t = spec_pages_taken_by(cont, cap);
            t < cap && t < cont.len() ==> t > 0 && !cont[t - 1]
        }),
    decreases cont.len(),
{
    if cont.len() == 0 || cap <= 0 {
    } else if !cont[0] {
    } else {
        lemma_pages_taken_by_bounds(cont.drop_first(), cap - 1);
        assert forall|i: int| 0 <= i < spec_pages_taken_by(cont, cap) - 1 implies #[trigger] cont[i]
            by {
            if i > 0 {
                assert(cont.drop_first()[i - 1] == cont[i]);
            }
        }
    }
}

/// The concatenation of the first `t` of the given pages, in order.
pub open spec fn spec_concat_pages<B>(pages: Seq<Seq<B>>, t: int) -> Seq<B>
    decreases t,
{
    if t <= 0 {
        Seq::empty()
    } else {
        spec_concat_pages(pages, t - 1) + pages[t - 1]
    }
}

/// The conversions of the elements a partial conversion accepts, in order.
pub open spec fn spec_filter_map<A, B>(s: Seq<A>, f: spec_fn(A) -> Option<B>) -> Seq<B>
    decreases s.len(),
{
    if s.len() == 0 {
        Seq::empty()
    } else {
        let rest = spec_filter_map(s.drop_last(), f);
        match f(s.last()) {
            Some(b) => rest.push(b),
            None => rest,
        }
    }
}

/// Pushing one element through a partial conversion of a sequence: the
/// element's conversion lands at the end exactly when it is accepted.
pub proof fn lemma_filter_map_option_push<A, B>(s: Seq<A>, x: A, f: spec_fn(A) -> Option<B>)
    ensures
        spec_filter_map(s.push(x), f) == (match f(x) {
            Some(b) => spec_filter_map(s, f).push(b),
            None => spec_filter_map(s, f),
        }),
{
    assert((s.push(x)).drop_last() =~= s);
    assert((s.push(x)).last() == x);
}

/// Pushing one element through a filter of a sequence: the element lands at
/// the end exactly when it satisfies the predicate.
pub proof fn lemma_filter_push<A>(s: Seq<A>, x: A, pred: spec_fn(A) -> bool)
    ensures
        (s.push(x)).filter(pred) == (if pred(x) {
            s.filter(pred).push(x)
        } else {
            s.filter(pred)
        }),
{
    reveal(Seq::filter);
    assert((s.push(x)).drop_last() =~= s);
    assert((s.push(x)).last() == x);
}

/// Pushing one element through a filter-and-convert of a sequence: the
/// element's conversion lands at the end exactly when it is kept.
pub proof fn lemma_filter_map_push<A, B>(
    s: Seq<A>,
    x: A,
    pred: spec_fn(A) -> bool,
    f: spec_fn(A) -> B,
)
    ensures
        (s.push(x)).filter(pred).map_values(f) == (if pred(x) {
            s.filter(pred).map_values(f).push(f(x))
        } else {
            s.filter(pred).map_values(f)
        }),
{
    reveal(Seq::filter);
    assert((s.push(x)).drop_last() =~= s);
    assert((s.push(x)).last() == x);
    if pred(x) {
        assert((s.push(x)).filter(pred) =~= s.filter(pred).push(x));
        assert(s.filter(pred).push(x).map_values(f) =~= s.filter(pred).map_values(f).push(f(x)));
    } else {
        assert((s.push(x)).filter(pred) =~= s.filter(pred));
    }
}

} // verus!
