use vstd::prelude::*;

use crate::events::ProviderEvent;
use crate::ledger::is_listed;
use crate::ledger::listed;
use crate::ledger::Ledger;
use crate::text::seq_lt;
use crate::text::str_lt;

verus! {

broadcast use vstd::seq_lib::group_to_multiset_ensures;

/// Events asked for per page: the most the provider hands out at once.
pub const EVENTS_PER_PAGE: u64 = 100;

/// After this many consecutive pages of already-applied events, paging stops.
pub const STALE_PAGE_LIMIT: u64 = 4;

/// The events of `page` that the ledger has not recorded, in page order.
pub open spec fn unprocessed_in(page: Seq<ProviderEvent>, ledger: Ledger) -> Seq<ProviderEvent> {
    page.filter(|e: ProviderEvent| !ledger.has_id(e.id@))
}

/// Whether every event of `page` is already recorded (an empty page is).
pub open spec fn page_is_stale(page: Seq<ProviderEvent>, ledger: Ledger) -> bool {
    forall|i: int| 0 <= i < page.len() ==> ledger.has_id(#[trigger] page[i].id@)
}

/// The count of consecutive stale pages once `page` has been read.
pub open spec fn next_stale_count(count: int, page: Seq<ProviderEvent>, ledger: Ledger) -> int {
    if page_is_stale(page, ledger) {
        count + 1
    } else {
        0
    }
}

/// Whether paging goes on after a page that leaves the count at `count`.
pub open spec fn goes_on(count: int, has_more: bool) -> bool {
    has_more && count < STALE_PAGE_LIMIT
}

/// What the poller asks for after a page.
#[derive(Clone, Copy, Debug, PartialEq, Eq, Structural)]
pub enum PageDecision {
    FetchNext,
    Stop,
}

/// The state of one run over the provider's event pages: the count of
/// consecutive stale pages so far and the events not yet applied.
#[derive(Debug)]
pub struct Poller {
    pub stale_pages: u64,
    pub collected: Vec<ProviderEvent>,
}

impl Poller {
    /// A run at its outset: no page read, nothing collected.
    pub fn new() -> (r: Poller)
        ensures
            r.stale_pages == 0,
            r.collected@.len() == 0,
    {
        Poller { stale_pages: 0, collected: Vec::new() }
    }

    /// Reads one page: keeps the events the ledger has not recorded, counts the
    /// page if it held none, and says whether to fetch the next one.
    pub fn accept_page(&mut self, page: Vec<ProviderEvent>, has_more: bool, ledger: &Ledger) -> (r:
        PageDecision)
        requires
            old(self).stale_pages < u64::MAX,
        ensures
            final(self).collected@ == old(self).collected@ + unprocessed_in(page@, *ledger),
            final(self).stale_pages == next_stale_count(
                old(self).stale_pages as int,
                page@,
                *ledger,
            ),
            (r == PageDecision::FetchNext) == goes_on(final(self).stale_pages as int, has_more),
    {
        let mut ids: Vec<String> = Vec::new();
        let mut k: usize = 0;
        while k < page.len()
            invariant
                k <= page@.len(),
                ids@.len() == k,
                forall|j: int| 0 <= j < k ==> ids@[j]@ == page@[j].id@,
            decreases page@.len() - k,
        {
            ids.push(page[k].id.clone());
            k = k + 1;
        }
        let processed = ledger.has_processed(&ids);
        let ghost pred = |s: String| ledger.has_id(s@);
        let ghost keep = |e: ProviderEvent| !ledger.has_id(e.id@);
        let ghost start = self.collected@;
        let ghost events = page@;
        let mut all_processed = true;
        for e in it: page.into_iter()
            invariant
                it.seq() == events,
                events.len() == ids@.len(),
                forall|j: int| 0 <= j < events.len() ==> ids@[j]@ == events[j].id@,
                processed@ == ids@.filter(pred),
                pred == (|s: String| ledger.has_id(s@)),
                keep == (|e: ProviderEvent| !ledger.has_id(e.id@)),
                self.collected@ == start + events.take(it.index() as int).filter(keep),
                all_processed == (forall|j: int|
                    0 <= j < it.index() ==> ledger.has_id(#[trigger] events[j].id@)),
                self.stale_pages == old(self).stale_pages,
        {
            let ghost i = it.index() as int;
            proof {
                events.take(i).lemma_filter_push(events[i], keep);
                assert(events.take(i + 1) =~= events.take(i).push(events[i]));
                if ledger.has_id(e.id@) {
                    assert(ids@[i]@ == e.id@);
                    ids@.lemma_filter_contains(pred, i);
                    assert(ids@.filter(pred).contains(ids@[i]));
                    let w = choose|w: int|
                        0 <= w < ids@.filter(pred).len() && ids@.filter(pred)[w] == ids@[i];
                    assert(listed(processed@, e.id@)) by {
                        assert(processed@[w]@ == e.id@);
                    }
                } else {
                    if listed(processed@, e.id@) {
                        let w = choose|w: int|
                            0 <= w < processed@.len() && processed@[w]@ == e.id@;
                        ids@.lemma_filter_pred(pred, w);
                    }
                }
            }
            if is_listed(&processed, e.id.as_str()) {
            } else {
                all_processed = false;
                self.collected.push(e);
            }
        }
        proof {
            assert(events.take(events.len() as int) =~= events);
        }
        if all_processed {
            self.stale_pages = self.stale_pages + 1;
        } else {
            self.stale_pages = 0;
        }
        if has_more && self.stale_pages < STALE_PAGE_LIMIT {
            PageDecision::FetchNext
        } else {
            PageDecision::Stop
        }
    }
}

/// Whether `a` is to be applied before `b`: earlier creation first, and
/// between events created in the same second, the smaller identifier first.
pub open spec fn event_before(a: ProviderEvent, b: ProviderEvent) -> bool {
    a.created_at < b.created_at || (a.created_at == b.created_at && seq_lt(a.id@, b.id@))
}

/// Whether no event of `s` is to be applied before one that precedes it in `s`.
pub open spec fn in_apply_order(s: Seq<ProviderEvent>) -> bool {
    forall|i: int, j: int| 0 <= i < j < s.len() ==> !event_before(#[trigger] s[j], #[trigger] s[i])
}

proof fn lemma_seq_lt_asymmetric(a: Seq<char>, b: Seq<char>)
    ensures
        !(seq_lt(a, b) && seq_lt(b, a)),
    decreases a.len(),
{
    if a.len() > 0 && b.len() > 0 && a[0] == b[0] {
        lemma_seq_lt_asymmetric(a.drop_first(), b.drop_first());
    }
}

proof fn lemma_seq_lt_transitive(a: Seq<char>, b: Seq<char>, c: Seq<char>)
    requires
        seq_lt(a, b),
        seq_lt(b, c),
    ensures
        seq_lt(a, c),
    decreases a.len(),
{
    if a.len() > 0 && a[0] == b[0] && b[0] == c[0] {
        lemma_seq_lt_transitive(a.drop_first(), b.drop_first(), c.drop_first());
    }
}

proof fn lemma_event_before_asymmetric(a: ProviderEvent, b: ProviderEvent)
    ensures
        !(event_before(a, b) && event_before(b, a)),
{
    lemma_seq_lt_asymmetric(a.id@, b.id@);
}

proof fn lemma_event_before_transitive(a: ProviderEvent, b: ProviderEvent, c: ProviderEvent)
    requires
        event_before(a, b),
        event_before(b, c),
    ensures
        event_before(a, c),
{
    if a.created_at == b.created_at && b.created_at == c.created_at {
        lemma_seq_lt_transitive(a.id@, b.id@, c.id@);
    }
}

/// Whether `a` is to be applied before `b`.
pub fn applies_before(a: &ProviderEvent, b: &ProviderEvent) -> (r: bool)
    ensures
        r == event_before(*a, *b),
{
    a.created_at < b.created_at || (a.created_at == b.created_at && str_lt(
        a.id.as_str(),
        b.id.as_str(),
    ))
}

/// The events in the order they are applied: by creation time, and by
/// identifier between events created in the same second.
pub fn order_events(events: Vec<ProviderEvent>) -> (r: Vec<ProviderEvent>)
    ensures
        r@.to_multiset() == events@.to_multiset(),
        in_apply_order(r@),
{
    let ghost all = events@;
    let mut r: Vec<ProviderEvent> = Vec::new();
    for e in it: events.into_iter()
        invariant
            it.seq() == all,
            in_apply_order(r@),
            r@.to_multiset() == all.take(it.index() as int).to_multiset(),
    {
        let ghost i = it.index() as int;
        let mut p: usize = 0;
        while p < r.len() && !applies_before(&e, &r[p])
            invariant
                p <= r@.len(),
                forall|q: int| 0 <= q < p ==> !event_before(e, #[trigger] r@[q]),
            decreases r@.len() - p,
        {
            p = p + 1;
        }
        let ghost before = r@;
        proof {
            assert(all.take(i + 1) =~= all.take(i).push(e));
            if p < before.len() {
                assert forall|j: int| p <= j < before.len() implies !event_before(
                    #[trigger] before[j],
                    e,
                ) by {
                    lemma_event_before_asymmetric(e, before[p as int]);
                    if j > p && event_before(before[j], e) {
                        lemma_event_before_transitive(before[j], e, before[p as int]);
                    }
                }
            }
        }
        r.insert(p, e);
        proof {
            let after = r@;
            assert forall|x: int, y: int| 0 <= x < y < after.len() implies !event_before(
                #[trigger] after[y],
                #[trigger] after[x],
            ) by {
                if y < p {
                    assert(after[x] == before[x] && after[y] == before[y]);
                } else if y == p {
                    assert(after[x] == before[x]);
                } else if x < p {
                    assert(after[x] == before[x] && after[y] == before[y - 1]);
                } else if x == p {
                    assert(after[y] == before[y - 1]);
                } else {
                    assert(after[x] == before[x - 1] && after[y] == before[y - 1]);
                }
            }
        }
    }
    proof {
        assert(all.take(all.len() as int) =~= all);
    }
    r
}

/// The number of consecutive stale pages counted once pages `0 ..= k` are read.
pub open spec fn stale_count_through(pages: Seq<Seq<ProviderEvent>>, k: int, ledger: Ledger) -> int
    decreases k + 1,
{
    if k < 0 || k >= pages.len() {
        0
    } else {
        next_stale_count(stale_count_through(pages, k - 1, ledger), pages[k], ledger)
    }
}

/// What a run collects from page `k` on, over the pages the provider holds,
/// when `count` consecutive stale pages precede page `k`. The provider reports
/// further pages after page `k` exactly when `k` is not the last.
pub open spec fn run_from(pages: Seq<Seq<ProviderEvent>>, k: int, count: int, ledger: Ledger) -> Seq<
    ProviderEvent,
>
    decreases pages.len() - k,
{
    if k < 0 || k >= pages.len() {
        Seq::empty()
    } else {
        let c = next_stale_count(count, pages[k], ledger);
        let got = unprocessed_in(pages[k], ledger);
        if goes_on(c, k + 1 < pages.len()) {
            got + run_from(pages, k + 1, c, ledger)
        } else {
            got
        }
    }
}

/// A run that starts with the count at zero returns every new event of page
/// `k` unless, at some page before `k`, the count of consecutive pages of
/// already-applied events has reached the limit: pages with new events between
/// stale ones set the count back to zero.
pub proof fn lemma_page_reached(pages: Seq<Seq<ProviderEvent>>, k: int, ledger: Ledger)
    requires
        0 <= k < pages.len(),
        forall|j: int|
            0 <= j < k ==> #[trigger] stale_count_through(pages, j, ledger) < STALE_PAGE_LIMIT,
    ensures
        forall|e: ProviderEvent|
            unprocessed_in(pages[k], ledger).contains(e) ==> run_from(pages, 0, 0, ledger).contains(
                e,
            ),
{
    assert forall|e: ProviderEvent| unprocessed_in(pages[k], ledger).contains(e) implies run_from(
        pages,
        0,
        0,
        ledger,
    ).contains(e) by {
        lemma_run_reaches(pages, 0, k, ledger, e);
    }
}

proof fn lemma_run_reaches(
    pages: Seq<Seq<ProviderEvent>>,
    m: int,
    k: int,
    ledger: Ledger,
    e: ProviderEvent,
)
    requires
        0 <= m <= k < pages.len(),
        forall|j: int|
            0 <= j < k ==> #[trigger] stale_count_through(pages, j, ledger) < STALE_PAGE_LIMIT,
        unprocessed_in(pages[k], ledger).contains(e),
    ensures
        run_from(pages, m, stale_count_through(pages, m - 1, ledger), ledger).contains(e),
    decreases k - m,
{
    let c = stale_count_through(pages, m, ledger);
    let got = unprocessed_in(pages[m], ledger);
    assert(c == next_stale_count(stale_count_through(pages, m - 1, ledger), pages[m], ledger));
    if m < k {
        lemma_run_reaches(pages, m + 1, k, ledger, e);
        let rest = run_from(pages, m + 1, c, ledger);
        let w = choose|w: int| 0 <= w < rest.len() && rest[w] == e;
        assert((got + rest)[got.len() + w] == e);
    } else {
        let w = choose|w: int| 0 <= w < got.len() && got[w] == e;
        if goes_on(c, m + 1 < pages.len()) {
            let rest = run_from(pages, m + 1, c, ledger);
            assert((got + rest)[w] == e);
        }
    }
}

} // verus!
