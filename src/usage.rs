use vstd::prelude::*;

use crate::model::is_active_status;
use crate::model::SubscriptionKind;
use crate::store::first_index;
use crate::store::lemma_first_index_meaning;
use crate::store::lemma_first_index_step;
use crate::store::lemma_first_index_of;
use crate::store::BillingStore;
use crate::store::Account;
use crate::store::StoreModel;
use crate::store::Subscription;
use crate::text::chars_of;
use crate::text::str_eq;

verus! {

/// The mode a request was completed in.
#[derive(Clone, Copy, Debug, PartialEq, Eq, Structural)]
pub enum CompletionMode {
    Normal,
    Max,
}

/// An account's request count for one model and mode in the current period.
#[derive(Clone, Debug)]
pub struct UsageMeter {
    pub account_id: u64,
    pub model: String,
    pub mode: CompletionMode,
    pub requests: i32,
}

/// One billed (model, mode) pair with the provider price it is billed under.
#[derive(Clone, Debug)]
pub struct MeteredPrice {
    pub model: String,
    pub mode: CompletionMode,
    pub price_id: String,
}

/// A call to the provider that usage billing makes.
#[derive(Clone, Debug)]
pub enum UsageAction {
    /// Make sure the subscription includes the metered price.
    SubscribeToPrice { subscription_id: String, price_id: String },
    /// Report the customer's request count under a meter event name.
    ReportUsage { customer_id: String, meter_event_name: String, quantity: i32 },
}

/// A `UsageAction` with its text as character sequences.
pub ghost enum UsageActionView {
    SubscribeToPrice { subscription_id: Seq<char>, price_id: Seq<char> },
    ReportUsage { customer_id: Seq<char>, meter_event_name: Seq<char>, quantity: i32 },
}

impl View for UsageAction {
    type V = UsageActionView;

    open spec fn view(&self) -> UsageActionView {
        match self {
            UsageAction::SubscribeToPrice { subscription_id, price_id } => {
                UsageActionView::SubscribeToPrice {
                    subscription_id: subscription_id@,
                    price_id: price_id@,
                }
            },
            UsageAction::ReportUsage { customer_id, meter_event_name, quantity } => {
                UsageActionView::ReportUsage {
                    customer_id: customer_id@,
                    meter_event_name: meter_event_name@,
                    quantity: *quantity,
                }
            },
        }
    }
}

/// A subscription whose usage is billed, with the provider identifiers that the
/// billing calls name.
#[derive(Clone, Debug)]
pub struct BillableAccount {
    pub account_id: u64,
    pub customer_id: String,
    pub subscription_id: String,
}

/// The suffix that marks the price or the meter of requests in max mode.
pub open spec fn mode_suffix(mode: CompletionMode, max_suffix: Seq<char>) -> Seq<char> {
    match mode {
        CompletionMode::Normal => Seq::empty(),
        CompletionMode::Max => max_suffix,
    }
}

/// The catalog lookup key of the price a model's requests in `mode` are billed under.
pub open spec fn lookup_key_of(model: Seq<char>, mode: CompletionMode) -> Seq<char> {
    model + "-requests"@ + mode_suffix(mode, "-max"@)
}

/// A model name with each dash written as an underscore.
pub open spec fn underscored(s: Seq<char>) -> Seq<char> {
    s.map_values(|c: char| if c == '-' { '_' } else { c })
}

/// The meter event name a model's requests in `mode` are reported under.
pub open spec fn meter_event_of(model: Seq<char>, mode: CompletionMode) -> Seq<char> {
    underscored(model) + "/requests"@ + mode_suffix(mode, "/max"@)
}

/// The catalog lookup key of the price a model's requests in `mode` are billed under.
pub fn price_lookup_key(model: &str, mode: CompletionMode) -> (r: String)
    ensures
        r@ == lookup_key_of(model@, mode),
{
    let mut r = model.to_owned();
    r.append("-requests");
    match mode {
        CompletionMode::Normal => {
            assert(r@ =~= lookup_key_of(model@, mode));
        },
        CompletionMode::Max => {
            r.append("-max");
        },
    }
    r
}

/// The meter event name a model's requests in `mode` are reported under.
pub fn meter_event_name(model: &str, mode: CompletionMode) -> (r: String)
    ensures
        r@ == meter_event_of(model@, mode),
{
    let cs = chars_of(model);
    let mut r = String::new();
    let mut i: usize = 0;
    while i < cs.len()
        invariant
            i <= cs@.len(),
            cs@ == model@,
            r@ == underscored(model@.take(i as int)),
        decreases cs@.len() - i,
    {
        if cs[i] == '-' {
            r.append("_");
            proof {
                reveal_strlit("_");
            }
        } else {
            r.append(model.substring_char(i, i + 1));
        }
        assert(model@.take(i + 1) =~= model@.take(i as int).push(model@[i as int]));
        assert(r@ =~= underscored(model@.take(i + 1)));
        i = i + 1;
    }
    assert(model@.take(i as int) =~= model@);
    r.append("/requests");
    match mode {
        CompletionMode::Normal => {
            assert(r@ =~= meter_event_of(model@, mode));
        },
        CompletionMode::Max => {
            r.append("/max");
        },
    }
    r
}

pub open spec fn meter_matches(account_id: u64, model: Seq<char>, mode: CompletionMode) -> spec_fn(UsageMeter) -> bool {
    |m: UsageMeter| m.account_id == account_id && m.model@ == model && m.mode == mode
}

/// The account's request count for a pair: that of its first meter for the
/// pair, zero where it has none.
pub open spec fn request_count(meters: Seq<UsageMeter>, account_id: u64, model: Seq<char>, mode: CompletionMode) -> i32 {
    match first_index(meters, meter_matches(account_id, model, mode)) {
        Some(i) => meters[i].requests,
        None => 0,
    }
}

/// The calls for one priced pair: the price is added to the subscription where
/// requests were made, and the count is reported in any case, zero included.
pub open spec fn pair_actions(customer_id: Seq<char>, subscription_id: Seq<char>, count: i32, p: MeteredPrice) -> Seq<UsageActionView> {
    let report = UsageActionView::ReportUsage {
        customer_id,
        meter_event_name: meter_event_of(p.model@, p.mode),
        quantity: count,
    };
    if count > 0 {
        seq![UsageActionView::SubscribeToPrice { subscription_id, price_id: p.price_id@ }, report]
    } else {
        seq![report]
    }
}

/// The calls that bill an account's usage, pair after pair in the order of `prices`.
pub open spec fn usage_actions(
    customer_id: Seq<char>,
    subscription_id: Seq<char>,
    account_id: u64,
    meters: Seq<UsageMeter>,
    prices: Seq<MeteredPrice>,
) -> Seq<UsageActionView>
    decreases prices.len(),
{
    if prices.len() == 0 {
        Seq::empty()
    } else {
        let p = prices.last();
        usage_actions(customer_id, subscription_id, account_id, meters, prices.drop_last())
            + pair_actions(customer_id, subscription_id, request_count(meters, account_id, p.model@, p.mode), p)
    }
}

/// The account's request count for a pair.
pub fn find_request_count(meters: &Vec<UsageMeter>, account_id: u64, model: &str, mode: CompletionMode) -> (r: i32)
    ensures
        r == request_count(meters@, account_id, model@, mode),
{
    let ghost p = meter_matches(account_id, model@, mode);
    let mut i: usize = 0;
    while i < meters.len()
        invariant
            i <= meters@.len(),
            p == meter_matches(account_id, model@, mode),
            first_index(meters@.take(i as int), p) is None,
        decreases meters@.len() - i,
    {
        proof {
            lemma_first_index_step(meters@, p, i as int);
        }
        let m = &meters[i];
        if m.account_id == account_id && m.mode == mode && str_eq(m.model.as_str(), model) {
            proof {
                lemma_first_index_meaning(meters@.take(i as int), p);
                assert forall|j: int| 0 <= j < i implies !p(meters@[j]) by {
                    assert(meters@.take(i as int)[j] == meters@[j]);
                }
                lemma_first_index_of(meters@, p, i as int);
            }
            return m.requests;
        }
        i = i + 1;
    }
    assert(meters@.take(i as int) =~= meters@);
    0
}

/// The calls that bill an account's usage for each priced pair.
pub fn account_usage_actions(
    customer_id: &String,
    subscription_id: &String,
    account_id: u64,
    meters: &Vec<UsageMeter>,
    prices: &Vec<MeteredPrice>,
) -> (r: Vec<UsageAction>)
    ensures
        r@.map_values(|a: UsageAction| a@) == usage_actions(
            customer_id@,
            subscription_id@,
            account_id,
            meters@,
            prices@,
        ),
{
    let mut r: Vec<UsageAction> = Vec::new();
    let mut i: usize = 0;
    while i < prices.len()
        invariant
            i <= prices@.len(),
            r@.map_values(|a: UsageAction| a@) == usage_actions(
                customer_id@,
                subscription_id@,
                account_id,
                meters@,
                prices@.take(i as int),
            ),
        decreases prices@.len() - i,
    {
        let p = &prices[i];
        let count = find_request_count(meters, account_id, p.model.as_str(), p.mode);
        let ghost before = r@;
        if count > 0 {
            r.push(UsageAction::SubscribeToPrice {
                subscription_id: subscription_id.clone(),
                price_id: p.price_id.clone(),
            });
        }
        r.push(UsageAction::ReportUsage {
            customer_id: customer_id.clone(),
            meter_event_name: meter_event_name(p.model.as_str(), p.mode),
            quantity: count,
        });
        proof {
            assert(prices@.take(i + 1).drop_last() =~= prices@.take(i as int));
            assert(r@.map_values(|a: UsageAction| a@) =~= before.map_values(|a: UsageAction| a@)
                + pair_actions(customer_id@, subscription_id@, count, prices@[i as int]));
        }
        i = i + 1;
    }
    assert(prices@.take(i as int) =~= prices@);
    r
}

/// Whether the account `account_id` is flagged as staff.
pub open spec fn is_staff_account(accounts: Seq<Account>, account_id: u64) -> bool {
    exists|i: int| 0 <= i < accounts.len() && accounts[i].id == account_id && accounts[i].is_staff
}

/// Whether a subscription's usage is billed: an active paid subscription of a
/// customer whose account is not staff.
pub open spec fn is_billable(m: StoreModel, s: Subscription) -> bool {
    &&& s.kind == Some(SubscriptionKind::ZedPro)
    &&& is_active_status(s.status)
    &&& s.customer_id < m.customers.len()
    &&& !is_staff_account(m.accounts, m.customers[s.customer_id as int].account_id)
}

/// The account and provider identifiers that billing names for a subscription.
pub open spec fn billing_target(m: StoreModel, s: Subscription) -> (u64, Seq<char>, Seq<char>) {
    let c = m.customers[s.customer_id as int];
    (c.account_id, c.provider_customer_id@, s.provider_subscription_id@)
}

impl BillableAccount {
    pub open spec fn target(self) -> (u64, Seq<char>, Seq<char>) {
        (self.account_id, self.customer_id@, self.subscription_id@)
    }
}

/// Whether the account `account_id` is flagged as staff.
pub fn is_staff(accounts: &Vec<Account>, account_id: u64) -> (r: bool)
    ensures
        r == is_staff_account(accounts@, account_id),
{
    let mut i: usize = 0;
    while i < accounts.len()
        invariant
            i <= accounts@.len(),
            forall|j: int| 0 <= j < i ==> !(accounts@[j].id == account_id && accounts@[j].is_staff),
        decreases accounts@.len() - i,
    {
        if accounts[i].id == account_id && accounts[i].is_staff {
            return true;
        }
        i = i + 1;
    }
    false
}

impl BillingStore {
    /// The subscriptions whose usage is billed, in row order.
    pub fn billable_accounts(&self) -> (r: Vec<BillableAccount>)
        requires
            self@.wf(),
        ensures
            r@.map_values(|b: BillableAccount| b.target()) == self@.subscriptions.filter(
                |s: Subscription| is_billable(self@, s),
            ).map_values(|s: Subscription| billing_target(self@, s)),
    {
        let ghost m = self@;
        let ghost pred = |s: Subscription| is_billable(m, s);
        let ghost f = |s: Subscription| billing_target(m, s);
        let ghost g = |b: BillableAccount| b.target();
        let mut r: Vec<BillableAccount> = Vec::new();
        let mut i: usize = 0;
        while i < self.subscriptions.len()
            invariant
                i <= self@.subscriptions.len(),
                m == self@,
                m.wf(),
                pred == (|s: Subscription| is_billable(m, s)),
                f == (|s: Subscription| billing_target(m, s)),
                g == (|b: BillableAccount| b.target()),
                r@.map_values(g) == m.subscriptions.take(
                    i as int,
                ).filter(pred).map_values(f),
            decreases self@.subscriptions.len() - i,
        {
            let ghost before = r@;
            proof {
                m.subscriptions.take(i as int).lemma_filter_push(m.subscriptions[i as int], pred);
                assert(m.subscriptions.take(i + 1) =~= m.subscriptions.take(i as int).push(
                    m.subscriptions[i as int],
                ));
            }
            let s = &self.subscriptions[i];
            assert(m.subscriptions[i as int].id == i);
            let paid = match s.kind {
                Some(SubscriptionKind::ZedPro) => true,
                _ => false,
            };
            if paid && s.status.is_active() {
                let c = &self.customers[s.customer_id];
                if !is_staff(&self.accounts, c.account_id) {
                    r.push(
                        BillableAccount {
                            account_id: c.account_id,
                            customer_id: c.provider_customer_id.clone(),
                            subscription_id: s.provider_subscription_id.clone(),
                        },
                    );
                    proof {
                        assert(r@.map_values(g) =~= before.map_values(g).push(
                            f(m.subscriptions[i as int]),
                        ));
                        assert(m.subscriptions.take(i as int).filter(pred).push(
                            m.subscriptions[i as int],
                        ).map_values(f) =~= m.subscriptions.take(i as int).filter(pred).map_values(
                            f,
                        ).push(f(m.subscriptions[i as int])));
                    }
                }
            }
            i = i + 1;
        }
        assert(m.subscriptions.take(i as int) =~= m.subscriptions);
        assert(r@.map_values(g) == r@.map_values(|b: BillableAccount| b.target()));
        r
    }
}

} // verus!
