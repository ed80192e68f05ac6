use vstd::prelude::*;

use crate::model::is_active_status;
use crate::model::CancellationReason;
use crate::model::SubscriptionKind;
use crate::model::SubscriptionStatus;
use crate::text::str_eq;

verus! {

/// A local account, as far as reconciliation reads it.
#[derive(Clone, Debug)]
pub struct Account {
    pub id: u64,
    pub email: String,
    pub is_staff: bool,
}

/// The local billing customer bound to one account and one provider customer.
#[derive(Clone, Debug)]
pub struct Customer {
    pub id: usize,
    pub account_id: u64,
    pub provider_customer_id: String,
    pub trial_started_at: Option<i64>,
    pub has_overdue_invoices: bool,
}

/// A local subscription row, keyed by the provider's subscription identifier.
#[derive(Clone, Debug)]
pub struct Subscription {
    pub id: usize,
    pub customer_id: usize,
    pub provider_subscription_id: String,
    pub kind: Option<SubscriptionKind>,
    pub status: SubscriptionStatus,
    pub cancel_at: Option<i64>,
    pub cancellation_reason: Option<CancellationReason>,
    pub period_start: Option<i64>,
    pub period_end: Option<i64>,
}

/// The rows that reconciliation reads and writes.
#[derive(Clone, Debug)]
pub struct BillingStore {
    pub accounts: Vec<Account>,
    pub customers: Vec<Customer>,
    pub subscriptions: Vec<Subscription>,
}

/// The contents of a store.
pub ghost struct StoreModel {
    pub accounts: Seq<Account>,
    pub customers: Seq<Customer>,
    pub subscriptions: Seq<Subscription>,
}

impl View for BillingStore {
    type V = StoreModel;

    open spec fn view(&self) -> StoreModel {
        StoreModel {
            accounts: self.accounts@,
            customers: self.customers@,
            subscriptions: self.subscriptions@,
        }
    }
}

/// The position of the first element of `s` that meets `p`.
pub open spec fn first_index<A>(s: Seq<A>, p: spec_fn(A) -> bool) -> Option<int>
    decreases s.len(),
{
    if s.len() == 0 {
        None
    } else {
        match first_index(s.drop_last(), p) {
            Some(i) => Some(i),
            None => if p(s.last()) {
                Some(s.len() - 1)
            } else {
                None
            },
        }
    }
}

pub proof fn lemma_first_index_step<A>(s: Seq<A>, p: spec_fn(A) -> bool, i: int)
    requires
        0 <= i < s.len(),
    ensures
        first_index(s.take(i + 1), p) == (match first_index(s.take(i), p) {
            Some(j) => Some(j),
            None => if p(s[i]) {
                Some(i)
            } else {
                None
            },
        }),
{
    assert(s.take(i + 1).drop_last() =~= s.take(i));
}

pub proof fn lemma_first_index_meaning<A>(s: Seq<A>, p: spec_fn(A) -> bool)
    ensures
        match first_index(s, p) {
            Some(i) => 0 <= i < s.len() && p(s[i]) && forall|j: int| 0 <= j < i ==> !p(s[j]),
            None => forall|j: int| 0 <= j < s.len() ==> !p(s[j]),
        },
    decreases s.len(),
{
    if s.len() > 0 {
        let t = s.drop_last();
        lemma_first_index_meaning(t, p);
        assert forall|j: int| 0 <= j < t.len() implies t[j] == s[j] by {}
    }
}

pub proof fn lemma_first_index_none<A>(s: Seq<A>, p: spec_fn(A) -> bool)
    requires
        forall|j: int| 0 <= j < s.len() ==> !p(s[j]),
    ensures
        first_index(s, p) is None,
    decreases s.len(),
{
    if s.len() > 0 {
        let t = s.drop_last();
        assert forall|j: int| 0 <= j < t.len() implies !p(t[j]) by {
            assert(t[j] == s[j]);
        }
        lemma_first_index_none(t, p);
    }
}

pub proof fn lemma_first_index_of<A>(s: Seq<A>, p: spec_fn(A) -> bool, i: int)
    requires
        0 <= i < s.len(),
        p(s[i]),
        forall|j: int| 0 <= j < i ==> !p(s[j]),
    ensures
        first_index(s, p) == Some(i),
    decreases s.len(),
{
    if i == s.len() - 1 {
        lemma_first_index_meaning(s.drop_last(), p);
        if first_index(s.drop_last(), p) is Some {
            let k = first_index(s.drop_last(), p)->0;
            assert(s.drop_last()[k] == s[k]);
        }
    } else {
        lemma_first_index_of(s.drop_last(), p, i);
    }
}

/// The position `r` of a search, as the model counts positions.
pub open spec fn as_pos(r: Option<usize>) -> Option<int> {
    match r {
        Some(i) => Some(i as int),
        None => None,
    }
}

pub open spec fn customer_has_provider_id(id: Seq<char>) -> spec_fn(Customer) -> bool {
    |c: Customer| c.provider_customer_id@ == id
}

pub open spec fn customer_of_account(account_id: u64) -> spec_fn(Customer) -> bool {
    |c: Customer| c.account_id == account_id
}

pub open spec fn account_has_email(email: Seq<char>) -> spec_fn(Account) -> bool {
    |a: Account| a.email@ == email
}

pub open spec fn subscription_has_provider_id(id: Seq<char>) -> spec_fn(Subscription) -> bool {
    |s: Subscription| s.provider_subscription_id@ == id
}

pub open spec fn active_subscription_of(customer_id: usize) -> spec_fn(Subscription) -> bool {
    |s: Subscription| s.customer_id == customer_id && is_active_status(s.status)
}

impl StoreModel {
    /// Row identifiers are positions; provider identifiers are unique; no
    /// account has two customers; every subscription names an existing customer.
    pub open spec fn wf(self) -> bool {
        &&& forall|i: int| 0 <= i < self.customers.len() ==> #[trigger] self.customers[i].id == i
        &&& forall|i: int, j: int|
            0 <= i < self.customers.len() && 0 <= j < self.customers.len() && i != j
                ==> #[trigger] self.customers[i].provider_customer_id@
                != #[trigger] self.customers[j].provider_customer_id@
        &&& forall|i: int, j: int|
            0 <= i < self.customers.len() && 0 <= j < self.customers.len() && i != j
                ==> #[trigger] self.customers[i].account_id != #[trigger] self.customers[j].account_id
        &&& forall|i: int|
            0 <= i < self.subscriptions.len() ==> #[trigger] self.subscriptions[i].id == i
                && self.subscriptions[i].customer_id < self.customers.len()
        &&& forall|i: int, j: int|
            0 <= i < self.subscriptions.len() && 0 <= j < self.subscriptions.len() && i != j
                ==> #[trigger] self.subscriptions[i].provider_subscription_id@
                != #[trigger] self.subscriptions[j].provider_subscription_id@
    }

    pub open spec fn customer_by_provider_id(self, id: Seq<char>) -> Option<int> {
        first_index(self.customers, customer_has_provider_id(id))
    }

    pub open spec fn customer_by_account(self, account_id: u64) -> Option<int> {
        first_index(self.customers, customer_of_account(account_id))
    }

    pub open spec fn account_by_email(self, email: Seq<char>) -> Option<int> {
        first_index(self.accounts, account_has_email(email))
    }

    pub open spec fn subscription_by_provider_id(self, id: Seq<char>) -> Option<int> {
        first_index(self.subscriptions, subscription_has_provider_id(id))
    }

    /// The customer's active subscription: the first one in row order.
    pub open spec fn active_subscription(self, customer_id: usize) -> Option<int> {
        first_index(self.subscriptions, active_subscription_of(customer_id))
    }
}

impl StoreModel {
    /// Replacing a subscription row by one with the same identifiers keeps the
    /// store well formed.
    pub proof fn lemma_update_subscription_wf(self, j: int, row: Subscription)
        requires
            self.wf(),
            0 <= j < self.subscriptions.len(),
            row.id == self.subscriptions[j].id,
            row.provider_subscription_id@ == self.subscriptions[j].provider_subscription_id@,
            row.customer_id < self.customers.len(),
        ensures
            (StoreModel { subscriptions: self.subscriptions.update(j, row), ..self }).wf(),
    {
        let t = StoreModel { subscriptions: self.subscriptions.update(j, row), ..self };
        assert forall|a: int, b: int|
            0 <= a < t.subscriptions.len() && 0 <= b < t.subscriptions.len() && a != b implies #[trigger] t.subscriptions[a].provider_subscription_id@
            != #[trigger] t.subscriptions[b].provider_subscription_id@ by {
            assert(t.subscriptions[a].provider_subscription_id@
                == self.subscriptions[a].provider_subscription_id@);
            assert(t.subscriptions[b].provider_subscription_id@
                == self.subscriptions[b].provider_subscription_id@);
        }
        assert forall|a: int| 0 <= a < t.subscriptions.len() implies #[trigger] t.subscriptions[a].id
            == a && t.subscriptions[a].customer_id < t.customers.len() by {
            assert(t.subscriptions[a].id == self.subscriptions[a].id);
        }
    }
}

impl StoreModel {
    /// Replacing a customer row by one with the same identifiers and account
    /// keeps the store well formed.
    pub proof fn lemma_update_customer_wf(self, i: int, c: Customer)
        requires
            self.wf(),
            0 <= i < self.customers.len(),
            c.id == self.customers[i].id,
            c.provider_customer_id@ == self.customers[i].provider_customer_id@,
            c.account_id == self.customers[i].account_id,
        ensures
            (StoreModel { customers: self.customers.update(i, c), ..self }).wf(),
    {
        let t = StoreModel { customers: self.customers.update(i, c), ..self };
        assert forall|a: int, b: int|
            0 <= a < t.customers.len() && 0 <= b < t.customers.len() && a != b implies #[trigger] t.customers[a].provider_customer_id@
            != #[trigger] t.customers[b].provider_customer_id@ by {
            assert(t.customers[a].provider_customer_id@ == self.customers[a].provider_customer_id@);
            assert(t.customers[b].provider_customer_id@ == self.customers[b].provider_customer_id@);
        }
        assert forall|a: int, b: int|
            0 <= a < t.customers.len() && 0 <= b < t.customers.len() && a != b implies #[trigger] t.customers[a].account_id
            != #[trigger] t.customers[b].account_id by {
            assert(t.customers[a].account_id == self.customers[a].account_id);
            assert(t.customers[b].account_id == self.customers[b].account_id);
        }
        assert forall|a: int| 0 <= a < t.customers.len() implies #[trigger] t.customers[a].id == a by {
            assert(t.customers[a].id == self.customers[a].id);
        }
    }

    /// Adding a subscription row at the next position, for an existing customer
    /// and a provider identifier not yet stored, keeps the store well formed.
    pub proof fn lemma_push_subscription_wf(self, row: Subscription)
        requires
            self.wf(),
            row.id == self.subscriptions.len(),
            row.customer_id < self.customers.len(),
            self.subscription_by_provider_id(row.provider_subscription_id@) is None,
        ensures
            (StoreModel { subscriptions: self.subscriptions.push(row), ..self }).wf(),
    {
        let t = StoreModel { subscriptions: self.subscriptions.push(row), ..self };
        lemma_first_index_meaning(
            self.subscriptions,
            subscription_has_provider_id(row.provider_subscription_id@),
        );
        let n = self.subscriptions.len() as int;
        assert forall|a: int, b: int|
            0 <= a < t.subscriptions.len() && 0 <= b < t.subscriptions.len() && a != b implies #[trigger] t.subscriptions[a].provider_subscription_id@
            != #[trigger] t.subscriptions[b].provider_subscription_id@ by {
            if a < n && b < n {
                assert(t.subscriptions[a] == self.subscriptions[a]);
                assert(t.subscriptions[b] == self.subscriptions[b]);
            } else if a < n {
                assert(t.subscriptions[a] == self.subscriptions[a]);
            } else {
                assert(t.subscriptions[b] == self.subscriptions[b]);
            }
        }
        assert forall|a: int| 0 <= a < t.subscriptions.len() implies #[trigger] t.subscriptions[a].id
            == a && t.subscriptions[a].customer_id < t.customers.len() by {
            if a < n {
                assert(t.subscriptions[a] == self.subscriptions[a]);
            }
        }
    }
}

impl BillingStore {
    /// A store with no rows.
    pub fn new() -> (r: BillingStore)
        ensures
            r@.accounts.len() == 0,
            r@.customers.len() == 0,
            r@.subscriptions.len() == 0,
            r@.wf(),
    {
        BillingStore { accounts: Vec::new(), customers: Vec::new(), subscriptions: Vec::new() }
    }

    /// The customer bound to the provider customer `id`.
    pub fn find_customer_by_provider_id(&self, id: &str) -> (r: Option<usize>)
        ensures
            r matches Some(i) ==> i < self.customers@.len(),
            as_pos(r) == self@.customer_by_provider_id(id@),
    {
        let ghost p = customer_has_provider_id(id@);
        let mut i: usize = 0;
        while i < self.customers.len()
            invariant
                i <= self.customers@.len(),
                p == customer_has_provider_id(id@),
                first_index(self.customers@.take(i as int), p) is None,
            decreases self.customers@.len() - i,
        {
            proof {
                lemma_first_index_step(self.customers@, p, i as int);
            }
            if str_eq(self.customers[i].provider_customer_id.as_str(), id) {
                proof {
                    lemma_first_index_meaning(self.customers@.take(i as int), p);
                    assert forall|j: int| 0 <= j < i implies !p(self.customers@[j]) by {
                        assert(self.customers@.take(i as int)[j] == self.customers@[j]);
                    }
                    lemma_first_index_of(self.customers@, p, i as int);
                }
                return Some(i);
            }
            i = i + 1;
        }
        assert(self.customers@.take(i as int) =~= self.customers@);
        None
    }

    /// The customer bound to the account `account_id`.
    pub fn find_customer_by_account(&self, account_id: u64) -> (r: Option<usize>)
        ensures
            r matches Some(i) ==> i < self.customers@.len(),
            as_pos(r) == self@.customer_by_account(account_id),
    {
        let ghost p = customer_of_account(account_id);
        let mut i: usize = 0;
        while i < self.customers.len()
            invariant
                i <= self.customers@.len(),
                p == customer_of_account(account_id),
                first_index(self.customers@.take(i as int), p) is None,
            decreases self.customers@.len() - i,
        {
            proof {
                lemma_first_index_step(self.customers@, p, i as int);
            }
            if self.customers[i].account_id == account_id {
                proof {
                    lemma_first_index_meaning(self.customers@.take(i as int), p);
                    assert forall|j: int| 0 <= j < i implies !p(self.customers@[j]) by {
                        assert(self.customers@.take(i as int)[j] == self.customers@[j]);
                    }
                    lemma_first_index_of(self.customers@, p, i as int);
                }
                return Some(i);
            }
            i = i + 1;
        }
        assert(self.customers@.take(i as int) =~= self.customers@);
        None
    }

    /// The first account with this email address.
    pub fn find_account_by_email(&self, email: &str) -> (r: Option<usize>)
        ensures
            r matches Some(i) ==> i < self.accounts@.len(),
            as_pos(r) == self@.account_by_email(email@),
    {
        let ghost p = account_has_email(email@);
        let mut i: usize = 0;
        while i < self.accounts.len()
            invariant
                i <= self.accounts@.len(),
                p == account_has_email(email@),
                first_index(self.accounts@.take(i as int), p) is None,
            decreases self.accounts@.len() - i,
        {
            proof {
                lemma_first_index_step(self.accounts@, p, i as int);
            }
            if str_eq(self.accounts[i].email.as_str(), email) {
                proof {
                    lemma_first_index_meaning(self.accounts@.take(i as int), p);
                    assert forall|j: int| 0 <= j < i implies !p(self.accounts@[j]) by {
                        assert(self.accounts@.take(i as int)[j] == self.accounts@[j]);
                    }
                    lemma_first_index_of(self.accounts@, p, i as int);
                }
                return Some(i);
            }
            i = i + 1;
        }
        assert(self.accounts@.take(i as int) =~= self.accounts@);
        None
    }

    /// The subscription row for the provider subscription `id`.
    pub fn find_subscription_by_provider_id(&self, id: &str) -> (r: Option<usize>)
        ensures
            r matches Some(i) ==> i < self.subscriptions@.len(),
            as_pos(r) == self@.subscription_by_provider_id(id@),
    {
        let ghost p = subscription_has_provider_id(id@);
        let mut i: usize = 0;
        while i < self.subscriptions.len()
            invariant
                i <= self.subscriptions@.len(),
                p == subscription_has_provider_id(id@),
                first_index(self.subscriptions@.take(i as int), p) is None,
            decreases self.subscriptions@.len() - i,
        {
            proof {
                lemma_first_index_step(self.subscriptions@, p, i as int);
            }
            if str_eq(self.subscriptions[i].provider_subscription_id.as_str(), id) {
                proof {
                    lemma_first_index_meaning(self.subscriptions@.take(i as int), p);
                    assert forall|j: int| 0 <= j < i implies !p(self.subscriptions@[j]) by {
                        assert(self.subscriptions@.take(i as int)[j] == self.subscriptions@[j]);
                    }
                    lemma_first_index_of(self.subscriptions@, p, i as int);
                }
                return Some(i);
            }
            i = i + 1;
        }
        assert(self.subscriptions@.take(i as int) =~= self.subscriptions@);
        None
    }

    /// The customer's active subscription, the first in row order.
    pub fn find_active_subscription(&self, customer_id: usize) -> (r: Option<usize>)
        ensures
            r matches Some(i) ==> i < self.subscriptions@.len(),
            as_pos(r) == self@.active_subscription(customer_id),
    {
        let ghost p = active_subscription_of(customer_id);
        let mut i: usize = 0;
        while i < self.subscriptions.len()
            invariant
                i <= self.subscriptions@.len(),
                p == active_subscription_of(customer_id),
                first_index(self.subscriptions@.take(i as int), p) is None,
            decreases self.subscriptions@.len() - i,
        {
            proof {
                lemma_first_index_step(self.subscriptions@, p, i as int);
            }
            if self.subscriptions[i].customer_id == customer_id
                && self.subscriptions[i].status.is_active() {
                proof {
                    lemma_first_index_meaning(self.subscriptions@.take(i as int), p);
                    assert forall|j: int| 0 <= j < i implies !p(self.subscriptions@[j]) by {
                        assert(self.subscriptions@.take(i as int)[j] == self.subscriptions@[j]);
                    }
                    lemma_first_index_of(self.subscriptions@, p, i as int);
                }
                return Some(i);
            }
            i = i + 1;
        }
        assert(self.subscriptions@.take(i as int) =~= self.subscriptions@);
        None
    }
}

} // verus!
