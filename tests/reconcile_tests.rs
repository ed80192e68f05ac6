use billing_sync::dispatch::process_event_at;
use billing_sync::dispatch::EventOutcome;
use billing_sync::events::CustomerSnapshot;
use billing_sync::events::EventPayload;
use billing_sync::events::ProviderEvent;
use billing_sync::events::SubscriptionSnapshot;
use billing_sync::ledger::Ledger;
use billing_sync::model::CancellationReason;
use billing_sync::model::SubscriptionKind;
use billing_sync::model::SubscriptionStatus;
use billing_sync::reconcile::find_or_create_billing_customer;
use billing_sync::reconcile::ProviderAction;
use billing_sync::reconcile::SyncError;
use billing_sync::store::Account;
use billing_sync::store::BillingStore;

const NOW: i64 = 1_750_000_000;

fn store_with_account(id: u64, email: &str) -> BillingStore {
    let mut store = BillingStore::new();
    store.accounts.push(Account { id, email: email.to_string(), is_staff: false });
    store
}

fn snapshot(id: &str, customer: &str, status: SubscriptionStatus) -> SubscriptionSnapshot {
    SubscriptionSnapshot {
        id: id.to_string(),
        customer_id: customer.to_string(),
        status,
        cancel_at: None,
        cancellation_reason: None,
        period_start: NOW - 100,
        period_end: NOW + 1000,
    }
}

fn fetched(id: &str, email: &str) -> Option<CustomerSnapshot> {
    Some(CustomerSnapshot { id: id.to_string(), email: Some(email.to_string()) })
}

fn subscription_event(id: &str, event_type: &str, snap: SubscriptionSnapshot) -> ProviderEvent {
    ProviderEvent {
        id: id.to_string(),
        event_type: event_type.to_string(),
        created_at: NOW - 10,
        payload: EventPayload::Subscription(snap),
    }
}

/// A store whose account 7 has customer "cus_1" with an active subscription "sub_old" of `kind`.
fn store_with_active(kind: SubscriptionKind) -> BillingStore {
    let mut store = store_with_account(7, "a@example.com");
    let r = store.sync_subscription(
        &snapshot("sub_old", "cus_1", SubscriptionStatus::Active),
        Some(kind),
        &fetched("cus_1", "a@example.com"),
    );
    assert!(r.is_ok());
    store
}

#[test]
fn replayed_subscription_event_leaves_same_state() {
    let mut store = store_with_account(7, "a@example.com");
    let event = subscription_event(
        "evt_1",
        "customer.subscription.created",
        snapshot("sub_1", "cus_1", SubscriptionStatus::Trialing),
    );
    let mut first_ledger = Ledger::new();
    let kind = Some(SubscriptionKind::ZedProTrial);
    let f = fetched("cus_1", "a@example.com");
    process_event_at(NOW, &mut store, &mut first_ledger, &event, kind, &f);
    let once = format!("{:?}", store);
    // The ledger write was lost: the same event is applied again.
    let mut second_ledger = Ledger::new();
    process_event_at(NOW, &mut store, &mut second_ledger, &event, kind, &f);
    assert_eq!(format!("{:?}", store), once);
    assert_eq!(store.subscriptions.len(), 1);
    assert_eq!(store.customers.len(), 1);
}

#[test]
fn replayed_customer_event_leaves_same_state() {
    let mut store = store_with_account(7, "a@example.com");
    let c = CustomerSnapshot { id: "cus_1".to_string(), email: Some("a@example.com".to_string()) };
    assert!(store.handle_customer_event(&c).is_ok());
    assert!(store.handle_customer_event(&c).is_ok());
    assert_eq!(store.customers.len(), 1);
    assert_eq!(store.customers[0].account_id, 7);
    assert_eq!(store.customers[0].provider_customer_id, "cus_1");
}

#[test]
fn stale_event_is_recorded_without_handling() {
    let mut store = store_with_account(7, "a@example.com");
    let mut ledger = Ledger::new();
    let event = ProviderEvent {
        id: "evt_old".to_string(),
        event_type: "customer.created".to_string(),
        created_at: NOW - 86_401,
        payload: EventPayload::Customer(CustomerSnapshot {
            id: "cus_1".to_string(),
            email: Some("a@example.com".to_string()),
        }),
    };
    let r = process_event_at(NOW, &mut store, &mut ledger, &event, None, &None);
    assert!(matches!(r, EventOutcome::Stale));
    assert!(store.customers.is_empty());
    assert_eq!(ledger.records.len(), 1);
    assert_eq!(ledger.records[0].event_id, "evt_old");
    assert_eq!(ledger.records[0].event_type, "customer.created");
    assert_eq!(ledger.records[0].created_at, NOW - 86_401);
}

#[test]
fn event_at_the_horizon_is_still_handled() {
    let mut store = store_with_account(7, "a@example.com");
    let mut ledger = Ledger::new();
    let event = ProviderEvent {
        id: "evt_edge".to_string(),
        event_type: "\"customer.updated\"".to_string(),
        created_at: NOW - 86_400,
        payload: EventPayload::Customer(CustomerSnapshot {
            id: "cus_1".to_string(),
            email: Some("a@example.com".to_string()),
        }),
    };
    let r = process_event_at(NOW, &mut store, &mut ledger, &event, None, &None);
    assert!(matches!(r, EventOutcome::CustomerApplied));
    assert_eq!(store.customers.len(), 1);
    assert_eq!(ledger.records[0].event_type, "customer.updated");
}

#[test]
fn trial_start_is_set_once() {
    let mut store = store_with_account(7, "a@example.com");
    let f = fetched("cus_1", "a@example.com");
    let kind = Some(SubscriptionKind::ZedProTrial);
    let mut first = snapshot("sub_1", "cus_1", SubscriptionStatus::Trialing);
    first.period_start = 1_000;
    assert!(store.sync_subscription(&first, kind, &f).is_ok());
    assert_eq!(store.customers[0].trial_started_at, Some(1_000));
    let mut second = snapshot("sub_2", "cus_1", SubscriptionStatus::Trialing);
    second.period_start = 2_000;
    assert!(store.sync_subscription(&second, kind, &f).is_ok());
    assert_eq!(store.customers[0].trial_started_at, Some(1_000));
}

#[test]
fn free_subscription_is_replaced_by_trial() {
    let mut store = store_with_active(SubscriptionKind::ZedFree);
    let r = store
        .sync_subscription(
            &snapshot("sub_trial", "cus_1", SubscriptionStatus::Trialing),
            Some(SubscriptionKind::ZedProTrial),
            &None,
        )
        .unwrap();
    assert_eq!(r.actions.len(), 1);
    assert!(matches!(&r.actions[0], ProviderAction::CancelSubscription(id) if id == "sub_old"));
    assert_eq!(store.subscriptions.len(), 2);
    assert_eq!(store.subscriptions[0].status, SubscriptionStatus::Canceled);
    let active: Vec<_> = store.subscriptions.iter().filter(|s| s.status.is_active()).collect();
    assert_eq!(active.len(), 1);
    assert_eq!(active[0].provider_subscription_id, "sub_trial");
    assert_eq!(active[0].kind, Some(SubscriptionKind::ZedProTrial));
}

#[test]
fn new_subscription_is_skipped_beside_a_paid_one() {
    let mut store = store_with_active(SubscriptionKind::ZedPro);
    let mut ledger = Ledger::new();
    let event = subscription_event(
        "evt_2",
        "customer.subscription.created",
        snapshot("sub_other", "cus_1", SubscriptionStatus::Active),
    );
    let r = process_event_at(NOW, &mut store, &mut ledger, &event, Some(SubscriptionKind::ZedPro), &None);
    match r {
        EventOutcome::SubscriptionApplied(o) => assert!(o.actions.is_empty()),
        other => panic!("unexpected outcome {:?}", other),
    }
    assert_eq!(store.subscriptions.len(), 1);
    assert_eq!(store.subscriptions[0].provider_subscription_id, "sub_old");
    assert_eq!(ledger.records.len(), 1);
    assert_eq!(ledger.records[0].event_id, "evt_2");
}

#[test]
fn existing_row_is_updated_in_place() {
    let mut store = store_with_active(SubscriptionKind::ZedPro);
    let mut snap = snapshot("sub_old", "cus_1", SubscriptionStatus::PastDue);
    snap.cancel_at = Some(NOW + 500);
    snap.cancellation_reason = Some(CancellationReason::CancellationRequested);
    assert!(store.sync_subscription(&snap, Some(SubscriptionKind::ZedPro), &None).is_ok());
    assert_eq!(store.subscriptions.len(), 1);
    let row = &store.subscriptions[0];
    assert_eq!(row.status, SubscriptionStatus::PastDue);
    assert_eq!(row.cancel_at, Some(NOW + 500));
    assert_eq!(row.cancellation_reason, Some(CancellationReason::CancellationRequested));
    assert_eq!(row.period_start, Some(NOW - 100));
    assert_eq!(row.period_end, Some(NOW + 1000));
}

#[test]
fn cancel_time_out_of_range_is_dropped() {
    let mut store = store_with_active(SubscriptionKind::ZedPro);
    let mut snap = snapshot("sub_old", "cus_1", SubscriptionStatus::Active);
    snap.cancel_at = Some(i64::MAX);
    assert!(store.sync_subscription(&snap, Some(SubscriptionKind::ZedPro), &None).is_ok());
    assert_eq!(store.subscriptions[0].cancel_at, None);
    snap.cancel_at = Some(8_210_266_876_799);
    assert!(store.sync_subscription(&snap, Some(SubscriptionKind::ZedPro), &None).is_ok());
    assert_eq!(store.subscriptions[0].cancel_at, Some(8_210_266_876_799));
    snap.cancel_at = Some(8_210_266_876_800);
    assert!(store.sync_subscription(&snap, Some(SubscriptionKind::ZedPro), &None).is_ok());
    assert_eq!(store.subscriptions[0].cancel_at, None);
    snap.cancel_at = Some(-8_334_601_228_800);
    assert!(store.sync_subscription(&snap, Some(SubscriptionKind::ZedPro), &None).is_ok());
    assert_eq!(store.subscriptions[0].cancel_at, Some(-8_334_601_228_800));
    snap.cancel_at = Some(-8_334_601_228_801);
    assert!(store.sync_subscription(&snap, Some(SubscriptionKind::ZedPro), &None).is_ok());
    assert_eq!(store.subscriptions[0].cancel_at, None);
}

#[test]
fn trial_with_unrepresentable_start_fails() {
    let mut store = store_with_account(7, "a@example.com");
    let mut snap = snapshot("sub_1", "cus_1", SubscriptionStatus::Trialing);
    snap.period_start = i64::MIN;
    let r = store.sync_subscription(&snap, Some(SubscriptionKind::ZedProTrial), &fetched("cus_1", "a@example.com"));
    assert_eq!(r.unwrap_err(), SyncError::InvalidTrialStart);
    assert!(store.customers.is_empty());
    assert!(store.subscriptions.is_empty());
}

#[test]
fn payment_failure_sets_overdue_flag_and_falls_back_to_free() {
    let mut store = store_with_active(SubscriptionKind::ZedPro);
    let mut ledger = Ledger::new();
    let mut snap = snapshot("sub_old", "cus_1", SubscriptionStatus::Canceled);
    snap.cancellation_reason = Some(CancellationReason::PaymentFailed);
    let event = subscription_event("evt_3", "customer.subscription.deleted", snap);
    let r = process_event_at(NOW, &mut store, &mut ledger, &event, Some(SubscriptionKind::ZedPro), &None);
    match r {
        EventOutcome::SubscriptionApplied(o) => {
            assert_eq!(o.account_id, 7);
            assert_eq!(o.actions.len(), 1);
            assert!(matches!(&o.actions[0], ProviderAction::SubscribeToFree(c) if c == "cus_1"));
        }
        other => panic!("unexpected outcome {:?}", other),
    }
    assert!(store.customers[0].has_overdue_invoices);
    // The provider call is still pending: the event is not recorded yet.
    assert!(ledger.records.is_empty());
}

#[test]
fn customer_without_match_fails_subscription_event() {
    let mut store = BillingStore::new();
    let r = store.sync_subscription(
        &snapshot("sub_1", "cus_9", SubscriptionStatus::Active),
        None,
        &fetched("cus_9", "nobody@example.com"),
    );
    assert_eq!(r.unwrap_err(), SyncError::CustomerNotFound);
}

#[test]
fn mismatched_payload_is_a_failure() {
    let mut store = store_with_account(7, "a@example.com");
    let mut ledger = Ledger::new();
    let event = ProviderEvent {
        id: "evt_4".to_string(),
        event_type: "customer.created".to_string(),
        created_at: NOW,
        payload: EventPayload::Subscription(snapshot("sub_1", "cus_1", SubscriptionStatus::Active)),
    };
    let r = process_event_at(NOW, &mut store, &mut ledger, &event, None, &None);
    assert!(matches!(r, EventOutcome::Failed(SyncError::UnexpectedPayload)));
    assert!(ledger.records.is_empty());
}

#[test]
fn account_bound_twice_is_refused() {
    let mut store = store_with_account(7, "a@example.com");
    let first = CustomerSnapshot { id: "cus_1".to_string(), email: Some("a@example.com".to_string()) };
    let second = CustomerSnapshot { id: "cus_2".to_string(), email: Some("a@example.com".to_string()) };
    assert!(store.handle_customer_event(&first).is_ok());
    assert_eq!(store.handle_customer_event(&second), Err(SyncError::AccountAlreadyLinked));
    assert_eq!(store.customers.len(), 1);
}

#[test]
fn customer_event_without_email_or_account_is_a_no_op() {
    let mut store = store_with_account(7, "a@example.com");
    let no_email = CustomerSnapshot { id: "cus_1".to_string(), email: None };
    let unknown = CustomerSnapshot { id: "cus_1".to_string(), email: Some("b@example.com".to_string()) };
    assert!(store.handle_customer_event(&no_email).is_ok());
    assert!(store.handle_customer_event(&unknown).is_ok());
    assert!(store.customers.is_empty());
}

#[test]
fn ignored_event_type_is_recorded() {
    let mut store = BillingStore::new();
    let mut ledger = Ledger::new();
    let event = ProviderEvent {
        id: "evt_5".to_string(),
        event_type: "invoice.paid".to_string(),
        created_at: NOW,
        payload: EventPayload::Other,
    };
    let r = process_event_at(NOW, &mut store, &mut ledger, &event, None, &None);
    assert!(matches!(r, EventOutcome::Ignored));
    assert_eq!(ledger.records.len(), 1);
}

#[test]
fn find_or_create_binds_by_fetched_email() {
    let mut store = store_with_account(7, "a@example.com");
    assert_eq!(find_or_create_billing_customer(&mut store, &"cus_1".to_string(), &None), None);
    assert_eq!(
        find_or_create_billing_customer(&mut store, &"cus_1".to_string(), &fetched("cus_1", "a@example.com")),
        Some(0)
    );
    assert_eq!(find_or_create_billing_customer(&mut store, &"cus_1".to_string(), &None), Some(0));
    assert_eq!(store.customers.len(), 1);
    assert_eq!(store.customers[0].trial_started_at, None);
    assert!(!store.customers[0].has_overdue_invoices);
}

#[test]
fn clock_driven_processing_drops_ancient_events() {
    let mut store = store_with_account(7, "a@example.com");
    let mut ledger = Ledger::new();
    let event = ProviderEvent {
        id: "evt_epoch".to_string(),
        event_type: "customer.created".to_string(),
        created_at: 0,
        payload: EventPayload::Customer(CustomerSnapshot {
            id: "cus_1".to_string(),
            email: Some("a@example.com".to_string()),
        }),
    };
    let r = billing_sync::dispatch::process_event(&mut store, &mut ledger, &event, None, &None);
    assert!(matches!(r, EventOutcome::Stale));
    assert!(store.customers.is_empty());
    assert_eq!(ledger.records.len(), 1);
}

#[test]
fn clock_driven_processing_applies_recent_events() {
    let mut store = store_with_account(7, "a@example.com");
    let mut ledger = Ledger::new();
    let event = ProviderEvent {
        id: "evt_future".to_string(),
        event_type: "customer.created".to_string(),
        created_at: i64::MAX,
        payload: EventPayload::Customer(CustomerSnapshot {
            id: "cus_1".to_string(),
            email: Some("a@example.com".to_string()),
        }),
    };
    let r = billing_sync::dispatch::process_event(&mut store, &mut ledger, &event, None, &None);
    assert!(matches!(r, EventOutcome::CustomerApplied));
    assert_eq!(store.customers.len(), 1);
}

#[test]
fn find_or_create_refuses_an_account_with_a_customer() {
    let mut store = store_with_account(7, "a@example.com");
    assert_eq!(
        find_or_create_billing_customer(&mut store, &"cus_1".to_string(), &fetched("cus_1", "a@example.com")),
        Some(0)
    );
    assert_eq!(
        find_or_create_billing_customer(&mut store, &"cus_2".to_string(), &fetched("cus_2", "a@example.com")),
        None
    );
    assert_eq!(store.customers.len(), 1);
}

#[test]
fn failed_event_is_not_recorded() {
    let mut store = BillingStore::new();
    let mut ledger = Ledger::new();
    let event = subscription_event(
        "evt_6",
        "customer.subscription.updated",
        snapshot("sub_1", "cus_unknown", SubscriptionStatus::Active),
    );
    let r = process_event_at(NOW, &mut store, &mut ledger, &event, None, &None);
    assert!(matches!(r, EventOutcome::Failed(SyncError::CustomerNotFound)));
    assert!(ledger.records.is_empty());
    assert!(store.subscriptions.is_empty());
}
