use vstd::prelude::*;

use crate::clock::now_timestamp;
use crate::events::classify_event_type;
use crate::events::is_stale;
use crate::events::is_stale_at;
use crate::events::kind_of_name;
use crate::events::normalize_event_type;
use crate::events::normalized_type;
use crate::events::CustomerSnapshot;
use crate::events::EventKind;
use crate::events::EventPayload;
use crate::events::ProviderEvent;
use crate::ledger::Ledger;
use crate::ledger::ProcessedEvent;
use crate::model::SubscriptionKind;
use crate::reconcile::customer_event_model;
use crate::reconcile::sync_model;
use crate::reconcile::SyncError;
use crate::reconcile::SyncOutcome;
use crate::store::BillingStore;

verus! {

/// Which handler an event goes to.
#[derive(Clone, Copy, Debug, PartialEq, Eq, Structural)]
pub enum Route {
    /// Past the staleness horizon: recorded, not applied.
    Stale,
    /// Customer created or updated.
    Customer,
    /// Subscription created, updated, paused, resumed or deleted.
    Subscription,
    /// A type that is asked for but needs no handling.
    Ignored,
}

/// What became of one event.
#[derive(Debug)]
pub enum EventOutcome {
    /// Too old to apply; recorded.
    Stale,
    /// Needed no handling; recorded.
    Ignored,
    /// A customer event was applied; recorded.
    CustomerApplied,
    /// A subscription event was applied. It is recorded when the outcome lists
    /// no provider call; otherwise the caller records it once the calls succeed.
    SubscriptionApplied(SyncOutcome),
    /// The handler failed; not recorded, so that the next poll tries it again.
    Failed(SyncError),
}

/// The handler of an event at time `now`.
pub open spec fn route_at(now: int, e: ProviderEvent) -> Route {
    if is_stale_at(now, e.created_at as int) {
        Route::Stale
    } else {
        match kind_of_name(normalized_type(e.event_type@)) {
            EventKind::CustomerCreated | EventKind::CustomerUpdated => Route::Customer,
            EventKind::Ignored => Route::Ignored,
            _ => Route::Subscription,
        }
    }
}

/// Whether `rec` is the ledger record of `e`.
pub open spec fn is_record_of(rec: ProcessedEvent, e: ProviderEvent) -> bool {
    rec.event_id@ == e.id@ && rec.event_type@ == normalized_type(e.event_type@) && rec.created_at
        == e.created_at
}

/// Whether `after` is `before` with `e` recorded: one record more, unless it was there.
pub open spec fn records_event(before: Ledger, after: Ledger, e: ProviderEvent) -> bool {
    if before.has_id(e.id@) {
        after.records@ == before.records@
    } else {
        after.records@.len() == before.records@.len() + 1 && after.records@.take(
            before.records@.len() as int,
        ) == before.records@ && is_record_of(after.records@.last(), e)
    }
}

/// One event handled at time `now`: from store `s0` and ledger `l0` to `s1`
/// and `l1` with outcome `r`. `kind` is the price catalog's class of the
/// subscription a subscription event carries; `fetched` the provider's record
/// of its customer.
pub open spec fn event_step(
    now: int,
    s0: BillingStore,
    l0: Ledger,
    e: ProviderEvent,
    kind: Option<SubscriptionKind>,
    fetched: Option<CustomerSnapshot>,
    s1: BillingStore,
    l1: Ledger,
    r: EventOutcome,
) -> bool {
    match route_at(now, e) {
        Route::Stale => r is Stale && s1@ == s0@ && records_event(l0, l1, e),
        Route::Ignored => r is Ignored && s1@ == s0@ && records_event(l0, l1, e),
        Route::Customer => match e.payload {
            EventPayload::Customer(c) => match customer_event_model(s0@, c) {
                Ok(m) => r is CustomerApplied && s1@ == m && records_event(l0, l1, e),
                Err(err) => r == EventOutcome::Failed(err) && s1@ == s0@ && l1 == l0,
            },
            _ => r == EventOutcome::Failed(SyncError::UnexpectedPayload) && s1@ == s0@ && l1 == l0,
        },
        Route::Subscription => match e.payload {
            EventPayload::Subscription(snap) => match sync_model(s0@, snap, kind, fetched) {
                Ok((m, ci, actions)) => r matches EventOutcome::SubscriptionApplied(o) && s1@ == m
                    && o.customer_id == ci && o.account_id == m.customers[ci].account_id
                    && o.actions@ == actions && (if actions.len() == 0 {
                    records_event(l0, l1, e)
                } else {
                    l1 == l0
                }),
                Err(err) => r == EventOutcome::Failed(err) && s1@ == s0@ && l1 == l0,
            },
            _ => r == EventOutcome::Failed(SyncError::UnexpectedPayload) && s1@ == s0@ && l1 == l0,
        },
    }
}

/// The handler of an event at time `now`.
pub fn route_event_at(now: i64, e: &ProviderEvent) -> (r: Route)
    ensures
        r == route_at(now as int, *e),
{
    if is_stale(now, e.created_at) {
        return Route::Stale;
    }
    match classify_event_type(e.event_type.as_str()) {
        EventKind::CustomerCreated | EventKind::CustomerUpdated => Route::Customer,
        EventKind::Ignored => Route::Ignored,
        _ => Route::Subscription,
    }
}

/// The ledger record of `e`.
pub fn processed_record(e: &ProviderEvent) -> (r: ProcessedEvent)
    ensures
        is_record_of(r, *e),
{
    ProcessedEvent {
        event_id: e.id.clone(),
        event_type: normalize_event_type(e.event_type.as_str()),
        created_at: e.created_at,
    }
}

/// Records `e` in the ledger.
pub fn record_event(ledger: &mut Ledger, e: &ProviderEvent)
    requires
        old(ledger).wf(),
    ensures
        final(ledger).wf(),
        records_event(*old(ledger), *final(ledger), *e),
{
    let rec = processed_record(e);
    ledger.mark_processed(rec);
    proof {
        if !old(ledger).has_id(e.id@) {
            assert(final(ledger).records@.take(old(ledger).records@.len() as int)
                =~= old(ledger).records@);
        }
    }
}

/// Handles one event at time `now`: drops it if stale, applies it through its
/// handler otherwise, and records it in the ledger when handling succeeded.
pub fn process_event_at(
    now: i64,
    store: &mut BillingStore,
    ledger: &mut Ledger,
    e: &ProviderEvent,
    kind: Option<SubscriptionKind>,
    fetched: &Option<CustomerSnapshot>,
) -> (r: EventOutcome)
    requires
        old(store)@.wf(),
        old(ledger).wf(),
    ensures
        final(store)@.wf(),
        final(ledger).wf(),
        event_step(
            now as int,
            *old(store),
            *old(ledger),
            *e,
            kind,
            *fetched,
            *final(store),
            *final(ledger),
            r,
        ),
{
    match route_event_at(now, e) {
        Route::Stale => {
            record_event(ledger, e);
            EventOutcome::Stale
        },
        Route::Ignored => {
            record_event(ledger, e);
            EventOutcome::Ignored
        },
        Route::Customer => match &e.payload {
            EventPayload::Customer(c) => match store.handle_customer_event(c) {
                Ok(()) => {
                    record_event(ledger, e);
                    EventOutcome::CustomerApplied
                },
                Err(err) => EventOutcome::Failed(err),
            },
            _ => EventOutcome::Failed(SyncError::UnexpectedPayload),
        },
        Route::Subscription => match &e.payload {
            EventPayload::Subscription(snap) => match store.sync_subscription(snap, kind, fetched) {
                Ok(o) => {
                    if o.actions.len() == 0 {
                        record_event(ledger, e);
                    }
                    EventOutcome::SubscriptionApplied(o)
                },
                Err(err) => EventOutcome::Failed(err),
            },
            _ => EventOutcome::Failed(SyncError::UnexpectedPayload),
        },
    }
}

/// Handles one event now, as `process_event_at` does at the time the clock gives.
pub fn process_event(
    store: &mut BillingStore,
    ledger: &mut Ledger,
    e: &ProviderEvent,
    kind: Option<SubscriptionKind>,
    fetched: &Option<CustomerSnapshot>,
) -> (r: EventOutcome)
    requires
        old(store)@.wf(),
        old(ledger).wf(),
    ensures
        final(store)@.wf(),
        final(ledger).wf(),
        exists|now: i64|
            event_step(
                now as int,
                *old(store),
                *old(ledger),
                *e,
                kind,
                *fetched,
                *final(store),
                *final(ledger),
                r,
            ),
{
    let now = now_timestamp();
    process_event_at(now, store, ledger, e, kind, fetched)
}

} // verus!
