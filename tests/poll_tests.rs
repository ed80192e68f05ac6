use billing_sync::events::classify_event_type;
use billing_sync::events::is_stale;
use billing_sync::events::normalize_event_type;
use billing_sync::events::EventKind;
use billing_sync::events::EventPayload;
use billing_sync::events::ProviderEvent;
use billing_sync::ledger::Ledger;
use billing_sync::ledger::ProcessedEvent;
use billing_sync::poller::order_events;
use billing_sync::poller::PageDecision;
use billing_sync::poller::Poller;
use billing_sync::poller::STALE_PAGE_LIMIT;
use billing_sync::text::str_lt;

fn event(id: &str, created_at: i64) -> ProviderEvent {
    ProviderEvent {
        id: id.to_string(),
        event_type: "customer.updated".to_string(),
        created_at,
        payload: EventPayload::Other,
    }
}

fn ids(events: &[ProviderEvent]) -> Vec<String> {
    events.iter().map(|e| e.id.clone()).collect()
}

/// A ledger holding every identifier `evt_0` .. `evt_{n-1}`.
fn ledger_with(n: usize) -> Ledger {
    let mut ledger = Ledger::new();
    for i in 0..n {
        ledger.mark_processed(ProcessedEvent {
            event_id: format!("evt_{}", i),
            event_type: "customer.updated".to_string(),
            created_at: 0,
        });
    }
    ledger
}

/// A page of the recorded events `evt_{from}` .. `evt_{from+n-1}`.
fn old_page(from: usize, n: usize) -> Vec<ProviderEvent> {
    (from..from + n).map(|i| event(&format!("evt_{}", i), i as i64)).collect()
}

#[test]
fn events_are_ordered_by_time_then_id() {
    let ordered = order_events(vec![event("B", 2), event("A", 1), event("C", 1)]);
    assert_eq!(ids(&ordered), vec!["A", "C", "B"]);
}

#[test]
fn ordering_keeps_every_event() {
    let ordered = order_events(vec![event("b", 5), event("a", 5), event("a", 5), event("z", -3)]);
    assert_eq!(ids(&ordered), vec!["z", "a", "a", "b"]);
    assert!(order_events(Vec::new()).is_empty());
}

#[test]
fn page_after_three_stale_pages_is_fetched() {
    let ledger = ledger_with(40);
    let mut poller = Poller::new();
    for k in 0..3 {
        assert_eq!(poller.accept_page(old_page(k * 10, 10), true, &ledger), PageDecision::FetchNext);
    }
    assert_eq!(poller.stale_pages, 3);
    let mut page = old_page(30, 9);
    page.push(event("evt_new", 99));
    assert_eq!(poller.accept_page(page, false, &ledger), PageDecision::Stop);
    assert_eq!(ids(&poller.collected), vec!["evt_new"]);
    assert_eq!(poller.stale_pages, 0);
}

#[test]
fn four_consecutive_stale_pages_stop_paging() {
    let ledger = ledger_with(40);
    let mut poller = Poller::new();
    for k in 0..3 {
        assert_eq!(poller.accept_page(old_page(k * 10, 10), true, &ledger), PageDecision::FetchNext);
    }
    assert_eq!(poller.accept_page(old_page(30, 10), true, &ledger), PageDecision::Stop);
    assert_eq!(poller.stale_pages, STALE_PAGE_LIMIT);
    assert!(poller.collected.is_empty());
}

#[test]
fn new_events_reset_the_stale_count() {
    let ledger = ledger_with(60);
    let mut poller = Poller::new();
    let mut k = 0;
    for round in 0..2 {
        for _ in 0..3 {
            assert_eq!(poller.accept_page(old_page(k * 10, 10), true, &ledger), PageDecision::FetchNext);
            k += 1;
        }
        let page = vec![event(&format!("new_{}", round), 1000 + round)];
        assert_eq!(poller.accept_page(page, true, &ledger), PageDecision::FetchNext);
        assert_eq!(poller.stale_pages, 0);
    }
    assert_eq!(ids(&poller.collected), vec!["new_0", "new_1"]);
}

#[test]
fn empty_page_counts_as_stale() {
    let ledger = Ledger::new();
    let mut poller = Poller::new();
    assert_eq!(poller.accept_page(Vec::new(), true, &ledger), PageDecision::FetchNext);
    assert_eq!(poller.stale_pages, 1);
}

#[test]
fn ledger_records_each_event_once() {
    let mut ledger = ledger_with(2);
    ledger.mark_processed(ProcessedEvent {
        event_id: "evt_1".to_string(),
        event_type: "customer.created".to_string(),
        created_at: 5,
    });
    assert_eq!(ledger.records.len(), 2);
    assert!(ledger.is_processed("evt_0"));
    assert!(!ledger.is_processed("evt_2"));
    let asked = vec!["evt_9".to_string(), "evt_1".to_string(), "evt_0".to_string()];
    assert_eq!(ledger.has_processed(&asked), vec!["evt_1".to_string(), "evt_0".to_string()]);
}

#[test]
fn event_type_quotes_are_removed() {
    assert_eq!(normalize_event_type("\"customer.created\""), "customer.created");
    assert_eq!(normalize_event_type("customer.created"), "customer.created");
    assert_eq!(normalize_event_type("\"\""), "");
    assert_eq!(normalize_event_type("\"a\"b\""), "a\"b");
}

#[test]
fn event_types_are_classified() {
    assert_eq!(classify_event_type("\"customer.created\""), EventKind::CustomerCreated);
    assert_eq!(classify_event_type("customer.updated"), EventKind::CustomerUpdated);
    assert_eq!(classify_event_type("customer.subscription.created"), EventKind::SubscriptionCreated);
    assert_eq!(classify_event_type("customer.subscription.updated"), EventKind::SubscriptionUpdated);
    assert_eq!(classify_event_type("customer.subscription.paused"), EventKind::SubscriptionPaused);
    assert_eq!(classify_event_type("customer.subscription.resumed"), EventKind::SubscriptionResumed);
    assert_eq!(classify_event_type("customer.subscription.deleted"), EventKind::SubscriptionDeleted);
    assert_eq!(classify_event_type("invoice.paid"), EventKind::Ignored);
}

#[test]
fn staleness_horizon_is_one_day() {
    assert!(!is_stale(86_400, 0));
    assert!(is_stale(86_401, 0));
    assert!(is_stale(i64::MAX, i64::MIN));
    assert!(!is_stale(i64::MIN, i64::MAX));
}

#[test]
fn identifiers_compare_lexicographically() {
    assert!(str_lt("A", "C"));
    assert!(!str_lt("C", "A"));
    assert!(str_lt("evt_1", "evt_10"));
    assert!(!str_lt("evt_1", "evt_1"));
    assert!(str_lt("", "a"));
}
