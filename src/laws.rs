use vstd::prelude::*;

use crate::clock::representable;
use crate::dispatch::event_step;
use crate::dispatch::records_event;
use crate::dispatch::route_at;
use crate::dispatch::EventOutcome;
use crate::dispatch::Route;
use crate::events::is_stale_at;
use crate::events::CustomerSnapshot;
use crate::events::EventPayload;
use crate::events::ProviderEvent;
use crate::events::SubscriptionSnapshot;
use crate::ledger::Ledger;
use crate::model::SubscriptionKind;
use crate::model::SubscriptionStatus;
use crate::reconcile::customer_after;
use crate::reconcile::customer_event_model;
use crate::reconcile::resolve_customer;
use crate::reconcile::upsert_model;
use crate::reconcile::created_row;
use crate::reconcile::updated_row;
use crate::reconcile::with_subscriptions;
use crate::reconcile::starts_trial;
use crate::reconcile::sync_model;
use crate::reconcile::ProviderAction;
use crate::store::active_subscription_of;
use crate::store::customer_has_provider_id;
use crate::store::subscription_has_provider_id;
use crate::store::Subscription;
use crate::store::lemma_first_index_meaning;
use crate::store::lemma_first_index_of;
use crate::store::BillingStore;
use crate::store::StoreModel;
use crate::usage::meter_event_of;
use crate::usage::request_count;
use crate::usage::usage_actions;
use crate::usage::MeteredPrice;
use crate::usage::UsageActionView;
use crate::usage::UsageMeter;

verus! {

/// The store after applying a subscription snapshot; unchanged where it fails.
pub open spec fn store_after_sync(
    m: StoreModel,
    s: SubscriptionSnapshot,
    kind: Option<SubscriptionKind>,
    fetched: Option<CustomerSnapshot>,
) -> StoreModel {
    match sync_model(m, s, kind, fetched) {
        Ok((m1, _, _)) => m1,
        Err(_) => m,
    }
}

/// The store after applying a customer event; unchanged where it fails.
pub open spec fn store_after_customer_event(m: StoreModel, c: CustomerSnapshot) -> StoreModel {
    match customer_event_model(m, c) {
        Ok(m1) => m1,
        Err(_) => m,
    }
}

/// An event past the staleness horizon is recorded in the ledger and nothing
/// else happens: no handler runs and the store is as it was.
pub proof fn lemma_stale_event_only_recorded(
    now: int,
    s0: BillingStore,
    l0: Ledger,
    e: ProviderEvent,
    kind: Option<SubscriptionKind>,
    fetched: Option<CustomerSnapshot>,
    s1: BillingStore,
    l1: Ledger,
    r: EventOutcome,
)
    requires
        event_step(now, s0, l0, e, kind, fetched, s1, l1, r),
        is_stale_at(now, e.created_at as int),
    ensures
        r is Stale,
        s1@ == s0@,
        records_event(l0, l1, e),
{
}

/// Every priced pair is reported with the account's request count, also when
/// that count is zero.
pub proof fn lemma_usage_always_reported(
    customer_id: Seq<char>,
    subscription_id: Seq<char>,
    account_id: u64,
    meters: Seq<UsageMeter>,
    prices: Seq<MeteredPrice>,
    i: int,
)
    requires
        0 <= i < prices.len(),
    ensures
        usage_actions(customer_id, subscription_id, account_id, meters, prices).contains(
            UsageActionView::ReportUsage {
                customer_id,
                meter_event_name: meter_event_of(prices[i].model@, prices[i].mode),
                quantity: request_count(meters, account_id, prices[i].model@, prices[i].mode),
            },
        ),
    decreases prices.len(),
{
    let p = prices.last();
    let head = usage_actions(customer_id, subscription_id, account_id, meters, prices.drop_last());
    let all = usage_actions(customer_id, subscription_id, account_id, meters, prices);
    let count = request_count(meters, account_id, p.model@, p.mode);
    if i == prices.len() - 1 {
        if count > 0 {
            assert(all[head.len() as int + 1] == UsageActionView::ReportUsage {
                customer_id,
                meter_event_name: meter_event_of(p.model@, p.mode),
                quantity: count,
            });
        } else {
            assert(all[head.len() as int] == UsageActionView::ReportUsage {
                customer_id,
                meter_event_name: meter_event_of(p.model@, p.mode),
                quantity: count,
            });
        }
    } else {
        lemma_usage_always_reported(
            customer_id,
            subscription_id,
            account_id,
            meters,
            prices.drop_last(),
            i,
        );
        assert(prices.drop_last()[i] == prices[i]);
        let w = choose|w: int|
            0 <= w < head.len() && head[w] == UsageActionView::ReportUsage {
                customer_id,
                meter_event_name: meter_event_of(prices[i].model@, prices[i].mode),
                quantity: request_count(meters, account_id, prices[i].model@, prices[i].mode),
            };
        assert(all[w] == head[w]);
    }
}

/// A trial start, once set, is never changed by applying a snapshot.
pub proof fn lemma_trial_start_kept(
    m: StoreModel,
    s: SubscriptionSnapshot,
    kind: Option<SubscriptionKind>,
    fetched: Option<CustomerSnapshot>,
    i: int,
)
    requires
        0 <= i < m.customers.len(),
        m.customers[i].trial_started_at is Some,
    ensures
        store_after_sync(m, s, kind, fetched).customers[i].trial_started_at
            == m.customers[i].trial_started_at,
{
    lemma_first_index_meaning(m.customers, customer_has_provider_id(s.customer_id@));
    if let Some((m1, ci)) = resolve_customer(m, s.customer_id, fetched) {
        assert(0 <= ci < m1.customers.len());
        if !(starts_trial(s, kind) && !representable(s.period_start as int)) {
            let m2 = StoreModel {
                customers: m1.customers.update(ci, customer_after(m1.customers[ci], s, kind)),
                ..m1
            };
            lemma_upsert_keeps_customers(m2, ci, s, kind);
            assert(m1.customers[i] == m.customers[i]);
            assert(m2.customers[i].trial_started_at == m.customers[i].trial_started_at);
        }
    }
}

/// Writing the subscription row of a snapshot leaves the customers as they are.
proof fn lemma_upsert_keeps_customers(
    m: StoreModel,
    ci: int,
    s: SubscriptionSnapshot,
    kind: Option<SubscriptionKind>,
)
    ensures
        upsert_model(m, ci, s, kind) matches Ok((m3, c, _)) && m3.customers == m.customers && c
            == ci,
{
}

/// A snapshot of a new provider subscription for a customer who already has an
/// active subscription creates no row, unless a trial replaces a free one: a
/// paid subscription is kept and the new one skipped. The event still counts as
/// handled and is recorded.
pub proof fn lemma_conflict_skipped(
    now: int,
    s0: BillingStore,
    l0: Ledger,
    e: ProviderEvent,
    kind: Option<SubscriptionKind>,
    fetched: Option<CustomerSnapshot>,
    s1: BillingStore,
    l1: Ledger,
    r: EventOutcome,
    snap: SubscriptionSnapshot,
    ci: int,
    a: int,
)
    requires
        event_step(now, s0, l0, e, kind, fetched, s1, l1, r),
        route_at(now, e) == Route::Subscription,
        e.payload == EventPayload::Subscription(snap),
        s0@.customer_by_provider_id(snap.customer_id@) == Some(ci),
        s0@.subscription_by_provider_id(snap.id@) is None,
        s0@.active_subscription(ci as usize) == Some(a),
        !(s0@.subscriptions[a].kind == Some(SubscriptionKind::ZedFree) && kind == Some(
            SubscriptionKind::ZedProTrial,
        )),
        !(starts_trial(snap, kind) && !representable(snap.period_start as int)),
    ensures
        s1@.subscriptions == s0@.subscriptions,
        r matches EventOutcome::SubscriptionApplied(o) && o.actions@.len() == 0,
        records_event(l0, l1, e),
{
}

/// A trial snapshot for a customer whose one active subscription is a free one
/// cancels the free one and leaves the new trial as the customer's only active
/// subscription.
pub proof fn lemma_free_to_trial_upgrade(
    m: StoreModel,
    s: SubscriptionSnapshot,
    fetched: Option<CustomerSnapshot>,
    ci: int,
    a: int,
)
    requires
        m.wf(),
        m.customer_by_provider_id(s.customer_id@) == Some(ci),
        m.subscription_by_provider_id(s.id@) is None,
        m.active_subscription(ci as usize) == Some(a),
        m.subscriptions[a].kind == Some(SubscriptionKind::ZedFree),
        forall|k: int|
            0 <= k < m.subscriptions.len() && k != a ==> !active_subscription_of(ci as usize)(
                #[trigger] m.subscriptions[k],
            ),
        s.status == SubscriptionStatus::Trialing,
        representable(s.period_start as int),
    ensures
        sync_model(m, s, Some(SubscriptionKind::ZedProTrial), fetched) matches Ok((m1, c, actions))
            && c == ci && m1.subscriptions.len() == m.subscriptions.len() + 1
            && m1.subscriptions[a].status == SubscriptionStatus::Canceled && actions == seq![
            ProviderAction::CancelSubscription(m.subscriptions[a].provider_subscription_id),
        ] && m1.subscriptions[m.subscriptions.len() as int].kind == Some(
            SubscriptionKind::ZedProTrial,
        ) && forall|k: int|
            0 <= k < m1.subscriptions.len() ==> (active_subscription_of(ci as usize)(
                #[trigger] m1.subscriptions[k],
            ) <==> k == m.subscriptions.len()),
{
    lemma_first_index_meaning(m.subscriptions, active_subscription_of(ci as usize));
    let kind = Some(SubscriptionKind::ZedProTrial);
    let n = m.subscriptions.len() as int;
    let subs = m.subscriptions.update(
        a,
        Subscription { status: SubscriptionStatus::Canceled, ..m.subscriptions[a] },
    ).push(created_row(n, ci as usize, s, kind));
    assert forall|k: int| 0 <= k < subs.len() implies (active_subscription_of(ci as usize)(
        #[trigger] subs[k],
    ) <==> k == n) by {
        if k < n && k != a {
            assert(subs[k] == m.subscriptions[k]);
        }
    }
}

/// Applying a customer event a second time changes nothing more.
pub proof fn lemma_customer_event_idempotent(m: StoreModel, c: CustomerSnapshot)
    ensures
        store_after_customer_event(store_after_customer_event(m, c), c)
            == store_after_customer_event(m, c),
{
    if let Ok(m1) = customer_event_model(m, c) {
        if m1 != m {
            let n = m.customers.len() as int;
            let p = customer_has_provider_id(c.id@);
            lemma_first_index_meaning(m.customers, p);
            assert forall|j: int| 0 <= j < n implies !p(m1.customers[j]) by {
                assert(m1.customers[j] == m.customers[j]);
            }
            lemma_first_index_of(m1.customers, p, n);
        }
    }
}

/// Applying the same subscription snapshot twice leaves the store as applying
/// it once: a handler run again after a lost ledger write changes nothing more.
pub proof fn lemma_sync_idempotent(
    m: StoreModel,
    s: SubscriptionSnapshot,
    kind: Option<SubscriptionKind>,
    fetched: Option<CustomerSnapshot>,
)
    ensures
        store_after_sync(store_after_sync(m, s, kind, fetched), s, kind, fetched)
            == store_after_sync(m, s, kind, fetched),
{
    if let Some((m1, ci)) = resolve_customer(m, s.customer_id, fetched) {
        if !(starts_trial(s, kind) && !representable(s.period_start as int)) {
            let pc = customer_has_provider_id(s.customer_id@);
            lemma_first_index_meaning(m.customers, pc);
            let m2 = StoreModel {
                customers: m1.customers.update(ci, customer_after(m1.customers[ci], s, kind)),
                ..m1
            };
            assert forall|j: int| 0 <= j < ci implies !pc(m2.customers[j]) by {
                assert(m2.customers[j] == m.customers[j]);
            }
            lemma_first_index_of(m2.customers, pc, ci);
            lemma_upsert_keeps_customers(m2, ci, s, kind);
            lemma_upsert_idempotent(m2, ci, s, kind);
            let m3 = store_after_sync(m, s, kind, fetched);
            assert(m3.customers == m2.customers);
            assert(m3.customer_by_provider_id(s.customer_id@) == Some(ci));
            let m2b = StoreModel {
                customers: m3.customers.update(ci, customer_after(m3.customers[ci], s, kind)),
                ..m3
            };
            assert(m2b.customers =~= m3.customers);
            assert(m2b == m3);
        }
    }
}

/// Writing the row of a snapshot a second time leaves the store as writing it once.
proof fn lemma_upsert_idempotent(
    m: StoreModel,
    ci: int,
    s: SubscriptionSnapshot,
    kind: Option<SubscriptionKind>,
)
    requires
        0 <= ci < m.customers.len(),
    ensures
        upsert_model(m, ci, s, kind) matches Ok((m3, _, _)) && upsert_model(m3, ci, s, kind) matches Ok(
            (m4, _, _),
        ) && m4 == m3,
{
    let cid = ci as usize;
    let p = subscription_has_provider_id(s.id@);
    let subs = m.subscriptions;
    let n = subs.len() as int;
    lemma_first_index_meaning(subs, p);
    lemma_upsert_keeps_customers(m, ci, s, kind);
    match m.subscription_by_provider_id(s.id@) {
        Some(j) => {
            let m3 = with_subscriptions(m, subs.update(j, updated_row(subs[j], cid, s, kind)));
            assert forall|k: int| 0 <= k < j implies !p(m3.subscriptions[k]) by {
                assert(m3.subscriptions[k] == subs[k]);
            }
            lemma_first_index_of(m3.subscriptions, p, j);
            assert(m3.subscriptions.update(j, updated_row(m3.subscriptions[j], cid, s, kind))
                =~= m3.subscriptions);
        },
        None => {
            match m.active_subscription(cid) {
                Some(a) => {
                    if subs[a].kind == Some(SubscriptionKind::ZedFree) && kind == Some(
                        SubscriptionKind::ZedProTrial,
                    ) {
                        let m3 = with_subscriptions(
                            m,
                            subs.update(
                                a,
                                Subscription { status: SubscriptionStatus::Canceled, ..subs[a] },
                            ).push(created_row(n, cid, s, kind)),
                        );
                        lemma_first_index_meaning(subs, active_subscription_of(cid));
                        assert forall|k: int| 0 <= k < n implies !p(m3.subscriptions[k]) by {
                            assert(m3.subscriptions[k].provider_subscription_id
                                == subs[k].provider_subscription_id);
                        }
                        lemma_first_index_of(m3.subscriptions, p, n);
                        assert(m3.subscriptions.update(
                            n,
                            updated_row(m3.subscriptions[n], cid, s, kind),
                        ) =~= m3.subscriptions);
                    }
                },
                None => {
                    let m3 = with_subscriptions(m, subs.push(created_row(n, cid, s, kind)));
                    assert forall|k: int| 0 <= k < n implies !p(m3.subscriptions[k]) by {
                        assert(m3.subscriptions[k] == subs[k]);
                    }
                    lemma_first_index_of(m3.subscriptions, p, n);
                    assert(m3.subscriptions.update(n, updated_row(m3.subscriptions[n], cid, s, kind))
                        =~= m3.subscriptions);
                },
            }
        },
    }
}

} // verus!
