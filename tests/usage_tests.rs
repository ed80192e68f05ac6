use billing_sync::model::SubscriptionKind;
use billing_sync::model::SubscriptionStatus;
use billing_sync::store::Account;
use billing_sync::store::BillingStore;
use billing_sync::store::Customer;
use billing_sync::store::Subscription;
use billing_sync::usage::account_usage_actions;
use billing_sync::usage::meter_event_name;
use billing_sync::usage::price_lookup_key;
use billing_sync::usage::CompletionMode;
use billing_sync::usage::MeteredPrice;
use billing_sync::usage::UsageAction;
use billing_sync::usage::UsageMeter;

fn prices() -> Vec<MeteredPrice> {
    let pairs = [
        ("opus-4", CompletionMode::Max),
        ("opus-4", CompletionMode::Normal),
        ("sonnet-4", CompletionMode::Max),
        ("sonnet-4", CompletionMode::Normal),
        ("3-7-sonnet", CompletionMode::Max),
        ("3-7-sonnet", CompletionMode::Normal),
        ("3-5-sonnet", CompletionMode::Normal),
    ];
    pairs
        .iter()
        .map(|(model, mode)| MeteredPrice {
            model: model.to_string(),
            mode: *mode,
            price_id: format!("price_{}", price_lookup_key(model, *mode)),
        })
        .collect()
}

#[test]
fn zero_usage_is_still_reported() {
    let prices = vec![MeteredPrice {
        model: "sonnet-4".to_string(),
        mode: CompletionMode::Normal,
        price_id: "price_s4".to_string(),
    }];
    let actions = account_usage_actions(&"cus_1".to_string(), &"sub_1".to_string(), 7, &Vec::new(), &prices);
    assert_eq!(actions.len(), 1);
    match &actions[0] {
        UsageAction::ReportUsage { customer_id, meter_event_name, quantity } => {
            assert_eq!(customer_id, "cus_1");
            assert_eq!(meter_event_name, "sonnet_4/requests");
            assert_eq!(*quantity, 0);
        }
        other => panic!("unexpected action {:?}", other),
    }
}

#[test]
fn usage_subscribes_to_price_before_reporting() {
    let meters = vec![
        UsageMeter { account_id: 8, model: "opus-4".to_string(), mode: CompletionMode::Max, requests: 99 },
        UsageMeter { account_id: 7, model: "opus-4".to_string(), mode: CompletionMode::Max, requests: 12 },
        UsageMeter { account_id: 7, model: "opus-4".to_string(), mode: CompletionMode::Max, requests: 50 },
        UsageMeter { account_id: 7, model: "opus-4".to_string(), mode: CompletionMode::Normal, requests: 0 },
    ];
    let actions = account_usage_actions(&"cus_1".to_string(), &"sub_1".to_string(), 7, &meters, &prices());
    assert_eq!(actions.len(), 8);
    match &actions[0] {
        UsageAction::SubscribeToPrice { subscription_id, price_id } => {
            assert_eq!(subscription_id, "sub_1");
            assert_eq!(price_id, "price_opus-4-requests-max");
        }
        other => panic!("unexpected action {:?}", other),
    }
    match &actions[1] {
        UsageAction::ReportUsage { meter_event_name, quantity, .. } => {
            assert_eq!(meter_event_name, "opus_4/requests/max");
            assert_eq!(*quantity, 12);
        }
        other => panic!("unexpected action {:?}", other),
    }
    for a in &actions[2..] {
        assert!(matches!(a, UsageAction::ReportUsage { quantity: 0, .. }));
    }
}

#[test]
fn price_keys_and_meter_names() {
    assert_eq!(price_lookup_key("sonnet-4", CompletionMode::Max), "sonnet-4-requests-max");
    assert_eq!(price_lookup_key("3-7-sonnet", CompletionMode::Normal), "3-7-sonnet-requests");
    assert_eq!(meter_event_name("opus-4", CompletionMode::Normal), "opus_4/requests");
    assert_eq!(meter_event_name("3-7-sonnet", CompletionMode::Max), "3_7_sonnet/requests/max");
    assert_eq!(meter_event_name("", CompletionMode::Normal), "/requests");
}

fn subscription(id: usize, customer_id: usize, pid: &str, kind: SubscriptionKind, status: SubscriptionStatus) -> Subscription {
    Subscription {
        id,
        customer_id,
        provider_subscription_id: pid.to_string(),
        kind: Some(kind),
        status,
        cancel_at: None,
        cancellation_reason: None,
        period_start: Some(0),
        period_end: Some(10),
    }
}

#[test]
fn staff_and_unpaid_subscriptions_are_not_billed() {
    let mut store = BillingStore::new();
    store.accounts.push(Account { id: 1, email: "a@x".to_string(), is_staff: false });
    store.accounts.push(Account { id: 2, email: "b@x".to_string(), is_staff: true });
    for (i, account) in [1u64, 2].iter().enumerate() {
        store.customers.push(Customer {
            id: i,
            account_id: *account,
            provider_customer_id: format!("cus_{}", account),
            trial_started_at: None,
            has_overdue_invoices: false,
        });
    }
    store.subscriptions.push(subscription(0, 0, "sub_a", SubscriptionKind::ZedPro, SubscriptionStatus::Active));
    store.subscriptions.push(subscription(1, 1, "sub_b", SubscriptionKind::ZedPro, SubscriptionStatus::Active));
    store.subscriptions.push(subscription(2, 0, "sub_c", SubscriptionKind::ZedFree, SubscriptionStatus::Active));
    store.subscriptions.push(subscription(3, 0, "sub_d", SubscriptionKind::ZedPro, SubscriptionStatus::Canceled));
    let billed = store.billable_accounts();
    assert_eq!(billed.len(), 1);
    assert_eq!(billed[0].account_id, 1);
    assert_eq!(billed[0].customer_id, "cus_1");
    assert_eq!(billed[0].subscription_id, "sub_a");
}
