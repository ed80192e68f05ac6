use vstd::prelude::*;

use crate::clock::representable;
use crate::clock::utc_from_timestamp;
use crate::events::CustomerSnapshot;
use crate::events::SubscriptionSnapshot;
use crate::model::CancellationReason;
use crate::model::SubscriptionKind;
use crate::model::SubscriptionStatus;
use crate::store::as_pos;
use crate::store::lemma_first_index_meaning;
use crate::store::lemma_first_index_none;
use crate::store::BillingStore;
use crate::store::Customer;
use crate::store::StoreModel;
use crate::store::Subscription;
use crate::store::customer_has_provider_id;
use crate::store::customer_of_account;
use crate::store::subscription_has_provider_id;

verus! {

/// Why an event could not be applied. The event stays unrecorded and is tried
/// again on the next poll.
#[derive(Clone, Copy, Debug, PartialEq, Eq, Structural)]
pub enum SyncError {
    /// The event's object is not of the kind its type announces.
    UnexpectedPayload,
    /// No local customer is, or can be, bound to the provider customer.
    CustomerNotFound,
    /// The account found by email is already bound to another provider customer.
    AccountAlreadyLinked,
    /// A trial's period start is not a second a date-time can hold.
    InvalidTrialStart,
}

/// A call the provider is to receive for a reconciliation to be complete.
#[derive(Clone, Debug)]
pub enum ProviderAction {
    /// Cancel the provider subscription with this identifier.
    CancelSubscription(String),
    /// Enroll the provider customer with this identifier in the free plan.
    SubscribeToFree(String),
}

/// What applying a subscription snapshot led to.
#[derive(Clone, Debug)]
pub struct SyncOutcome {
    pub customer_id: usize,
    pub account_id: u64,
    pub actions: Vec<ProviderAction>,
}

/// The account, found by email, that a new customer would be bound to.
pub open spec fn binding_account(m: StoreModel, email: Option<String>) -> Option<int> {
    match email {
        None => None,
        Some(e) => m.account_by_email(e@),
    }
}

/// Whether the account at position `a` already has a customer.
pub open spec fn account_is_linked(m: StoreModel, a: int) -> bool {
    m.customer_by_account(m.accounts[a].id) is Some
}

/// The row of a customer created for account `account_id` and provider customer `id`.
pub open spec fn new_customer(m: StoreModel, account_id: u64, id: String) -> Customer {
    Customer {
        id: m.customers.len() as usize,
        account_id,
        provider_customer_id: id,
        trial_started_at: None,
        has_overdue_invoices: false,
    }
}

/// `m` with the customer `c` added.
pub open spec fn with_customer(m: StoreModel, c: Customer) -> StoreModel {
    StoreModel { customers: m.customers.push(c), ..m }
}

/// The store after a customer event: nothing changes without an email address,
/// without an account that has it, or when the provider customer is already
/// bound; otherwise the account is bound to it, unless it already has a customer.
pub open spec fn customer_event_model(m: StoreModel, c: CustomerSnapshot) -> Result<
    StoreModel,
    SyncError,
> {
    match binding_account(m, c.email) {
        None => Ok(m),
        Some(a) => if m.customer_by_provider_id(c.id@) is Some {
            Ok(m)
        } else if account_is_linked(m, a) {
            Err(SyncError::AccountAlreadyLinked)
        } else {
            Ok(with_customer(m, new_customer(m, m.accounts[a].id, c.id)))
        },
    }
}

/// The customer bound to provider customer `id`, found or created from
/// `fetched`, the provider's record of it, and the store that results.
pub open spec fn resolve_customer(m: StoreModel, id: String, fetched: Option<CustomerSnapshot>) -> Option<
    (StoreModel, int),
> {
    match m.customer_by_provider_id(id@) {
        Some(i) => Some((m, i)),
        None => match fetched {
            None => None,
            Some(f) => match binding_account(m, f.email) {
                None => None,
                Some(a) => if account_is_linked(m, a) {
                    None
                } else {
                    Some(
                        (
                            with_customer(m, new_customer(m, m.accounts[a].id, id)),
                            m.customers.len() as int,
                        ),
                    )
                },
            },
        },
    }
}

/// Whether the snapshot is a trial in its trial period.
pub open spec fn starts_trial(s: SubscriptionSnapshot, kind: Option<SubscriptionKind>) -> bool {
    kind == Some(SubscriptionKind::ZedProTrial) && s.status == SubscriptionStatus::Trialing
}

/// Whether the provider canceled the subscription because a payment failed.
pub open spec fn canceled_for_payment_failure(s: SubscriptionSnapshot) -> bool {
    s.status == SubscriptionStatus::Canceled && s.cancellation_reason == Some(
        CancellationReason::PaymentFailed,
    )
}

/// Whether the snapshot ends the subscription, so that the customer may need the free plan.
pub open spec fn ends_subscription(s: SubscriptionSnapshot) -> bool {
    s.status == SubscriptionStatus::Canceled || s.status == SubscriptionStatus::Paused
}

/// The customer after the trial and overdue bookkeeping of a snapshot: the
/// trial start is set once and never changed; the overdue flag is only set.
pub open spec fn customer_after(c: Customer, s: SubscriptionSnapshot, kind: Option<SubscriptionKind>) -> Customer {
    Customer {
        trial_started_at: if starts_trial(s, kind) && c.trial_started_at is None {
            Some(s.period_start)
        } else {
            c.trial_started_at
        },
        has_overdue_invoices: c.has_overdue_invoices || canceled_for_payment_failure(s),
        ..c
    }
}

/// The scheduled cancellation kept of a snapshot: none where the time is not
/// one a date-time can hold.
pub open spec fn stored_cancel_at(s: SubscriptionSnapshot) -> Option<i64> {
    match s.cancel_at {
        Some(t) => if representable(t as int) {
            Some(t)
        } else {
            None
        },
        None => None,
    }
}

/// An existing row brought up to date with a snapshot.
pub open spec fn updated_row(
    row: Subscription,
    customer_id: usize,
    s: SubscriptionSnapshot,
    kind: Option<SubscriptionKind>,
) -> Subscription {
    Subscription {
        customer_id,
        kind,
        status: s.status,
        cancel_at: stored_cancel_at(s),
        cancellation_reason: s.cancellation_reason,
        period_start: Some(s.period_start),
        period_end: Some(s.period_end),
        ..row
    }
}

/// The row created for a snapshot at position `id`.
pub open spec fn created_row(
    id: int,
    customer_id: usize,
    s: SubscriptionSnapshot,
    kind: Option<SubscriptionKind>,
) -> Subscription {
    Subscription {
        id: id as usize,
        customer_id,
        provider_subscription_id: s.id,
        kind,
        status: s.status,
        cancel_at: stored_cancel_at(s),
        cancellation_reason: s.cancellation_reason,
        period_start: Some(s.period_start),
        period_end: Some(s.period_end),
    }
}

/// `m` with its subscriptions replaced by `subs`.
pub open spec fn with_subscriptions(m: StoreModel, subs: Seq<Subscription>) -> StoreModel {
    StoreModel { subscriptions: subs, ..m }
}

/// The free-plan fallback: a customer left with no active subscription by a
/// snapshot that ends one is enrolled in the free plan.
pub open spec fn with_fallback(
    m: StoreModel,
    ci: int,
    actions: Seq<ProviderAction>,
    s: SubscriptionSnapshot,
) -> Result<(StoreModel, int, Seq<ProviderAction>), SyncError> {
    if ends_subscription(s) && m.active_subscription(ci as usize) is None {
        Ok(
            (
                m,
                ci,
                actions.push(ProviderAction::SubscribeToFree(m.customers[ci].provider_customer_id)),
            ),
        )
    } else {
        Ok((m, ci, actions))
    }
}

/// The subscription row written for a snapshot once the customer at `ci` is
/// known: an existing row is updated; a new one is created unless the customer
/// already has an active subscription, in which case nothing is written, but
/// for a free one that a trial replaces: that one is canceled.
pub open spec fn upsert_model(
    m: StoreModel,
    ci: int,
    s: SubscriptionSnapshot,
    kind: Option<SubscriptionKind>,
) -> Result<(StoreModel, int, Seq<ProviderAction>), SyncError> {
    let cid = ci as usize;
    let subs = m.subscriptions;
    match m.subscription_by_provider_id(s.id@) {
        Some(j) => with_fallback(
            with_subscriptions(m, subs.update(j, updated_row(subs[j], cid, s, kind))),
            ci,
            Seq::empty(),
            s,
        ),
        None => match m.active_subscription(cid) {
            Some(a) => if subs[a].kind == Some(SubscriptionKind::ZedFree) && kind == Some(
                SubscriptionKind::ZedProTrial,
            ) {
                with_fallback(
                    with_subscriptions(
                        m,
                        subs.update(
                            a,
                            Subscription { status: SubscriptionStatus::Canceled, ..subs[a] },
                        ).push(created_row(subs.len() as int, cid, s, kind)),
                    ),
                    ci,
                    seq![ProviderAction::CancelSubscription(subs[a].provider_subscription_id)],
                    s,
                )
            } else {
                Ok((m, ci, Seq::empty()))
            },
            None => with_fallback(
                with_subscriptions(m, subs.push(created_row(subs.len() as int, cid, s, kind))),
                ci,
                Seq::empty(),
                s,
            ),
        },
    }
}

/// Applying a subscription snapshot: the store after it, the position of the
/// customer, and the calls the provider is to receive; or why it fails, in
/// which case nothing is written.
pub open spec fn sync_model(
    m: StoreModel,
    s: SubscriptionSnapshot,
    kind: Option<SubscriptionKind>,
    fetched: Option<CustomerSnapshot>,
) -> Result<(StoreModel, int, Seq<ProviderAction>), SyncError> {
    match resolve_customer(m, s.customer_id, fetched) {
        None => Err(SyncError::CustomerNotFound),
        Some((m1, ci)) => if starts_trial(s, kind) && !representable(s.period_start as int) {
            Err(SyncError::InvalidTrialStart)
        } else {
            let m2 = StoreModel {
                customers: m1.customers.update(ci, customer_after(m1.customers[ci], s, kind)),
                ..m1
            };
            upsert_model(m2, ci, s, kind)
        },
    }
}

/// The kept scheduled cancellation of a snapshot.
fn cancel_at_of(s: &SubscriptionSnapshot) -> (r: Option<i64>)
    ensures
        r == stored_cancel_at(*s),
{
    match s.cancel_at {
        Some(t) => utc_from_timestamp(t),
        None => None,
    }
}

impl BillingStore {
    /// The account, found by email, that a new customer would be bound to.
    fn binding_account_for(&self, email: &Option<String>) -> (r: Option<usize>)
        ensures
            as_pos(r) == binding_account(self@, *email),
            r matches Some(a) ==> a < self@.accounts.len(),
    {
        match email {
            None => None,
            Some(e) => self.find_account_by_email(e.as_str()),
        }
    }

    /// Adds the customer bound to `account_id` and the provider customer `id`.
    fn add_customer(&mut self, account_id: u64, id: &String) -> (r: usize)
        requires
            old(self)@.wf(),
            old(self)@.customer_by_provider_id(id@) is None,
            old(self)@.customer_by_account(account_id) is None,
        ensures
            final(self)@ == with_customer(old(self)@, new_customer(old(self)@, account_id, *id)),
            final(self)@.wf(),
            r == old(self)@.customers.len(),
    {
        proof {
            lemma_first_index_meaning(self@.customers, customer_has_provider_id(id@));
            lemma_first_index_meaning(self@.customers, customer_of_account(account_id));
        }
        let n = self.customers.len();
        self.customers.push(
            Customer {
                id: n,
                account_id,
                provider_customer_id: id.clone(),
                trial_started_at: None,
                has_overdue_invoices: false,
            },
        );
        n
    }

    /// Applies a customer event: binds the account that has the customer's
    /// email address to the provider customer, unless the event carries no
    /// address, no account has it, or the provider customer is already bound.
    pub fn handle_customer_event(&mut self, c: &CustomerSnapshot) -> (r: Result<(), SyncError>)
        requires
            old(self)@.wf(),
        ensures
            final(self)@.wf(),
            match customer_event_model(old(self)@, *c) {
                Ok(m) => r is Ok && final(self)@ == m,
                Err(e) => r == Err::<(), SyncError>(e) && final(self)@ == old(self)@,
            },
    {
        let a = match self.binding_account_for(&c.email) {
            None => return Ok(()),
            Some(a) => a,
        };
        if self.find_customer_by_provider_id(c.id.as_str()).is_some() {
            return Ok(());
        }
        let account_id = self.accounts[a].id;
        if self.find_customer_by_account(account_id).is_some() {
            return Err(SyncError::AccountAlreadyLinked);
        }
        self.add_customer(account_id, &c.id);
        Ok(())
    }

    /// Applies a provider subscription snapshot, classified as `kind` by the
    /// price catalog. `fetched` is the provider's record of the snapshot's
    /// customer, read where no local customer is bound to it yet. On success
    /// the store is as `sync_model` gives it and the outcome lists the calls
    /// the provider is to receive; on failure nothing is written.
    pub fn sync_subscription(
        &mut self,
        s: &SubscriptionSnapshot,
        kind: Option<SubscriptionKind>,
        fetched: &Option<CustomerSnapshot>,
    ) -> (r: Result<SyncOutcome, SyncError>)
        requires
            old(self)@.wf(),
        ensures
            final(self)@.wf(),
            match sync_model(old(self)@, *s, kind, *fetched) {
                Ok((m, ci, actions)) => r matches Ok(o) && final(self)@ == m && o.customer_id == ci
                    && o.account_id == m.customers[ci].account_id && o.actions@ == actions,
                Err(e) => r == Err::<SyncOutcome, SyncError>(e) && final(self)@ == old(self)@,
            },
    {
        let ghost m0 = self@;
        let found = self.find_customer_by_provider_id(s.customer_id.as_str());
        let mut bind_to: u64 = 0;
        if found.is_none() {
            let f = match fetched {
                None => return Err(SyncError::CustomerNotFound),
                Some(f) => f,
            };
            let a = match self.binding_account_for(&f.email) {
                None => return Err(SyncError::CustomerNotFound),
                Some(a) => a,
            };
            bind_to = self.accounts[a].id;
            if self.find_customer_by_account(bind_to).is_some() {
                return Err(SyncError::CustomerNotFound);
            }
        }
        let trial = match kind {
            Some(SubscriptionKind::ZedProTrial) => s.status == SubscriptionStatus::Trialing,
            _ => false,
        };
        if trial && utc_from_timestamp(s.period_start).is_none() {
            return Err(SyncError::InvalidTrialStart);
        }
        let ci = match found {
            Some(i) => i,
            None => self.add_customer(bind_to, &s.customer_id),
        };
        let ghost m1 = self@;
        assert(resolve_customer(m0, s.customer_id, *fetched) == Some((m1, ci as int)));
        proof {
            lemma_first_index_meaning(m0.customers, customer_has_provider_id(s.customer_id@));
        }
        let payment_failed = s.status == SubscriptionStatus::Canceled && match s.cancellation_reason {
            Some(CancellationReason::PaymentFailed) => true,
            _ => false,
        };
        let started = self.customers[ci].trial_started_at;
        let trial_started_at = if trial && started.is_none() {
            Some(s.period_start)
        } else {
            started
        };
        let overdue = self.customers[ci].has_overdue_invoices || payment_failed;
        self.customers[ci].trial_started_at = trial_started_at;
        self.customers[ci].has_overdue_invoices = overdue;
        let ghost m2 = self@;
        assert(m2.customers =~= m1.customers.update(ci as int, customer_after(m1.customers[ci as int], *s, kind)));
        assert(m2 == StoreModel {
            customers: m1.customers.update(ci as int, customer_after(m1.customers[ci as int], *s, kind)),
            ..m1
        });
        proof {
            m1.lemma_update_customer_wf(
                ci as int,
                customer_after(m1.customers[ci as int], *s, kind),
            );
        }
        assert(m2.wf());
        let account_id = self.customers[ci].account_id;
        let mut actions: Vec<ProviderAction> = Vec::new();
        let cancel_at = cancel_at_of(s);
        match self.find_subscription_by_provider_id(s.id.as_str()) {
            Some(j) => {
                let row = Subscription {
                    id: self.subscriptions[j].id,
                    customer_id: ci,
                    provider_subscription_id: self.subscriptions[j].provider_subscription_id.clone(),
                    kind,
                    status: s.status,
                    cancel_at,
                    cancellation_reason: s.cancellation_reason,
                    period_start: Some(s.period_start),
                    period_end: Some(s.period_end),
                };
                self.subscriptions.set(j, row);
                proof {
                    m2.lemma_update_subscription_wf(j as int, self@.subscriptions[j as int]);
                    assert(self@.subscriptions[j as int] == updated_row(m2.subscriptions[j as int], ci, *s, kind));
                    assert(self@.subscriptions =~= m2.subscriptions.update(
                        j as int,
                        updated_row(m2.subscriptions[j as int], ci, *s, kind),
                    ));
                }
                assert(self@.wf());
            },
            None => {
                proof {
                    lemma_first_index_meaning(m2.subscriptions, subscription_has_provider_id(s.id@));
                }
                match self.find_active_subscription(ci) {
                    Some(a) => {
                        let replaces_free = match (self.subscriptions[a].kind, kind) {
                            (Some(SubscriptionKind::ZedFree), Some(SubscriptionKind::ZedProTrial)) => true,
                            _ => false,
                        };
                        if !replaces_free {
                            return Ok(SyncOutcome { customer_id: ci, account_id, actions });
                        }
                        actions.push(
                            ProviderAction::CancelSubscription(
                                self.subscriptions[a].provider_subscription_id.clone(),
                            ),
                        );
                        self.subscriptions[a].status = SubscriptionStatus::Canceled;
                        let n = self.subscriptions.len();
                        self.subscriptions.push(
                            Subscription {
                                id: n,
                                customer_id: ci,
                                provider_subscription_id: s.id.clone(),
                                kind,
                                status: s.status,
                                cancel_at,
                                cancellation_reason: s.cancellation_reason,
                                period_start: Some(s.period_start),
                                period_end: Some(s.period_end),
                            },
                        );
                        proof {
                            let expected = m2.subscriptions.update(
                                a as int,
                                Subscription {
                                    status: SubscriptionStatus::Canceled,
                                    ..m2.subscriptions[a as int]
                                },
                            ).push(created_row(m2.subscriptions.len() as int, ci, *s, kind));
                            m2.lemma_update_subscription_wf(
                                a as int,
                                Subscription {
                                    status: SubscriptionStatus::Canceled,
                                    ..m2.subscriptions[a as int]
                                },
                            );
                            let m3 = StoreModel {
                                subscriptions: m2.subscriptions.update(
                                    a as int,
                                    Subscription {
                                        status: SubscriptionStatus::Canceled,
                                        ..m2.subscriptions[a as int]
                                    },
                                ),
                                ..m2
                            };
                            assert(m3.subscriptions =~= m2.subscriptions.update(
                                a as int,
                                Subscription {
                                    status: SubscriptionStatus::Canceled,
                                    ..m2.subscriptions[a as int]
                                },
                            ));
                            lemma_first_index_meaning(m2.subscriptions, subscription_has_provider_id(s.id@));
                            assert forall|k: int| 0 <= k < m3.subscriptions.len() implies !subscription_has_provider_id(s.id@)(m3.subscriptions[k]) by {
                                assert(m3.subscriptions[k].provider_subscription_id == m2.subscriptions[k].provider_subscription_id);
                            }
                            lemma_first_index_none(m3.subscriptions, subscription_has_provider_id(s.id@));
                            m3.lemma_push_subscription_wf(
                                created_row(m2.subscriptions.len() as int, ci, *s, kind),
                            );
                            assert(self@.subscriptions =~= expected);
                            assert(actions@ =~= seq![
                                ProviderAction::CancelSubscription(
                                    m2.subscriptions[a as int].provider_subscription_id,
                                ),
                            ]);
                        }
                        assert(self@.wf());
                    },
                    None => {
                        let n = self.subscriptions.len();
                        self.subscriptions.push(
                            Subscription {
                                id: n,
                                customer_id: ci,
                                provider_subscription_id: s.id.clone(),
                                kind,
                                status: s.status,
                                cancel_at,
                                cancellation_reason: s.cancellation_reason,
                                period_start: Some(s.period_start),
                                period_end: Some(s.period_end),
                            },
                        );
                        proof {
                            m2.lemma_push_subscription_wf(
                                created_row(m2.subscriptions.len() as int, ci, *s, kind),
                            );
                            assert(self@.subscriptions =~= m2.subscriptions.push(
                                created_row(m2.subscriptions.len() as int, ci, *s, kind),
                            ));
                        }
                        assert(self@.wf());
                    },
                }
            },
        }
        assert(self@.wf());
        let ends = s.status == SubscriptionStatus::Canceled || s.status == SubscriptionStatus::Paused;
        if ends && self.find_active_subscription(ci).is_none() {
            actions.push(
                ProviderAction::SubscribeToFree(self.customers[ci].provider_customer_id.clone()),
            );
        }
        Ok(SyncOutcome { customer_id: ci, account_id, actions })
    }
}

/// The customer bound to the provider customer `customer_id`. Where there is
/// none, one is created from `fetched`, the provider's record of that
/// customer, for the account with its email address, if that account has no
/// customer yet.
pub fn find_or_create_billing_customer(
    store: &mut BillingStore,
    customer_id: &String,
    fetched: &Option<CustomerSnapshot>,
) -> (r: Option<usize>)
    requires
        old(store)@.wf(),
    ensures
        final(store)@.wf(),
        match resolve_customer(old(store)@, *customer_id, *fetched) {
            Some((m, i)) => r == Some(i as usize) && final(store)@ == m,
            None => r is None && final(store)@ == old(store)@,
        },
{
    if let Some(i) = store.find_customer_by_provider_id(customer_id.as_str()) {
        return Some(i);
    }
    let f = match fetched {
        None => return None,
        Some(f) => f,
    };
    let a = match store.binding_account_for(&f.email) {
        None => return None,
        Some(a) => a,
    };
    let account_id = store.accounts[a].id;
    if store.find_customer_by_account(account_id).is_some() {
        return None;
    }
    let i = store.add_customer(account_id, customer_id);
    Some(i)
}

} // verus!
