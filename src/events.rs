use vstd::prelude::*;

use crate::model::CancellationReason;
use crate::model::SubscriptionStatus;
use crate::text::chars_of;
use crate::text::str_eq;

verus! {

/// Events older than this many seconds are recorded without being applied.
pub const STALE_EVENT_HORIZON_SECS: i64 = 86_400;

/// The provider's customer record, as an event carries it.
#[derive(Clone, Debug)]
pub struct CustomerSnapshot {
    pub id: String,
    pub email: Option<String>,
}

/// The provider's subscription record, as an event carries it. Times are in
/// seconds since the Unix epoch.
#[derive(Clone, Debug)]
pub struct SubscriptionSnapshot {
    pub id: String,
    pub customer_id: String,
    pub status: SubscriptionStatus,
    pub cancel_at: Option<i64>,
    pub cancellation_reason: Option<CancellationReason>,
    pub period_start: i64,
    pub period_end: i64,
}

/// The object an event is about.
#[derive(Clone, Debug)]
pub enum EventPayload {
    Customer(CustomerSnapshot),
    Subscription(SubscriptionSnapshot),
    Other,
}

/// One entry of the provider's event log.
#[derive(Clone, Debug)]
pub struct ProviderEvent {
    pub id: String,
    pub event_type: String,
    pub created_at: i64,
    pub payload: EventPayload,
}

/// The event types this engine asks the provider for, and how each is handled.
#[derive(Clone, Copy, Debug, PartialEq, Eq, Structural)]
pub enum EventKind {
    CustomerCreated,
    CustomerUpdated,
    SubscriptionCreated,
    SubscriptionUpdated,
    SubscriptionPaused,
    SubscriptionResumed,
    SubscriptionDeleted,
    Ignored,
}

/// Drops every leading double quote.
pub open spec fn trim_leading_quotes(s: Seq<char>) -> Seq<char>
    decreases s.len(),
{
    if s.len() > 0 && s[0] == '"' {
        trim_leading_quotes(s.drop_first())
    } else {
        s
    }
}

/// Drops every trailing double quote.
pub open spec fn trim_trailing_quotes(s: Seq<char>) -> Seq<char>
    decreases s.len(),
{
    if s.len() > 0 && s.last() == '"' {
        trim_trailing_quotes(s.drop_last())
    } else {
        s
    }
}

/// An event type name with the quoting that its serialisation may add taken off.
pub open spec fn normalized_type(s: Seq<char>) -> Seq<char> {
    trim_trailing_quotes(trim_leading_quotes(s))
}

/// The provider's name of each event type that is handled.
pub open spec fn event_type_name(k: EventKind) -> Seq<char> {
    match k {
        EventKind::CustomerCreated => "customer.created"@,
        EventKind::CustomerUpdated => "customer.updated"@,
        EventKind::SubscriptionCreated => "customer.subscription.created"@,
        EventKind::SubscriptionUpdated => "customer.subscription.updated"@,
        EventKind::SubscriptionPaused => "customer.subscription.paused"@,
        EventKind::SubscriptionResumed => "customer.subscription.resumed"@,
        EventKind::SubscriptionDeleted => "customer.subscription.deleted"@,
        EventKind::Ignored => Seq::empty(),
    }
}

/// The kind of an event whose normalised type name is `name`; a name outside
/// the handled vocabulary is `Ignored`.
pub open spec fn kind_of_name(name: Seq<char>) -> EventKind {
    if name == "customer.created"@ {
        EventKind::CustomerCreated
    } else if name == "customer.updated"@ {
        EventKind::CustomerUpdated
    } else if name == "customer.subscription.created"@ {
        EventKind::SubscriptionCreated
    } else if name == "customer.subscription.updated"@ {
        EventKind::SubscriptionUpdated
    } else if name == "customer.subscription.paused"@ {
        EventKind::SubscriptionPaused
    } else if name == "customer.subscription.resumed"@ {
        EventKind::SubscriptionResumed
    } else if name == "customer.subscription.deleted"@ {
        EventKind::SubscriptionDeleted
    } else {
        EventKind::Ignored
    }
}

/// Whether an event created at `created_at` is past the staleness horizon at `now`.
pub open spec fn is_stale_at(now: int, created_at: int) -> bool {
    now - created_at > STALE_EVENT_HORIZON_SECS
}

/// Takes off the double quotes around an event type name.
pub fn normalize_event_type(raw: &str) -> (r: String)
    ensures
        r@ == normalized_type(raw@),
{
    let cs = chars_of(raw);
    let mut lo: usize = 0;
    assert(cs@.skip(0) =~= cs@);
    while lo < cs.len() && cs[lo] == '"'
        invariant
            lo <= cs@.len(),
            cs@ == raw@,
            trim_leading_quotes(raw@) == trim_leading_quotes(cs@.skip(lo as int)),
        decreases cs@.len() - lo,
    {
        assert(cs@.skip(lo as int).drop_first() =~= cs@.skip(lo + 1));
        lo = lo + 1;
    }
    assert(trim_leading_quotes(raw@) == cs@.skip(lo as int));
    let mut hi: usize = cs.len();
    assert(cs@.subrange(lo as int, hi as int) =~= cs@.skip(lo as int));
    while hi > lo && cs[hi - 1] == '"'
        invariant
            lo <= hi <= cs@.len(),
            cs@ == raw@,
            normalized_type(raw@) == trim_trailing_quotes(cs@.subrange(lo as int, hi as int)),
        decreases hi,
    {
        assert(cs@.subrange(lo as int, hi as int).drop_last() =~= cs@.subrange(
            lo as int,
            hi - 1,
        ));
        hi = hi - 1;
    }
    raw.substring_char(lo, hi).to_owned()
}

/// The kind of an event, read from its type name after normalisation.
pub fn classify_event_type(raw: &str) -> (r: EventKind)
    ensures
        r == kind_of_name(normalized_type(raw@)),
{
    let name = normalize_event_type(raw);
    let n = name.as_str();
    if str_eq(n, "customer.created") {
        EventKind::CustomerCreated
    } else if str_eq(n, "customer.updated") {
        EventKind::CustomerUpdated
    } else if str_eq(n, "customer.subscription.created") {
        EventKind::SubscriptionCreated
    } else if str_eq(n, "customer.subscription.updated") {
        EventKind::SubscriptionUpdated
    } else if str_eq(n, "customer.subscription.paused") {
        EventKind::SubscriptionPaused
    } else if str_eq(n, "customer.subscription.resumed") {
        EventKind::SubscriptionResumed
    } else if str_eq(n, "customer.subscription.deleted") {
        EventKind::SubscriptionDeleted
    } else {
        EventKind::Ignored
    }
}

/// Whether an event created at `created_at` is past the staleness horizon at `now`.
pub fn is_stale(now: i64, created_at: i64) -> (r: bool)
    ensures
        r == is_stale_at(now as int, created_at as int),
{
    (now as i128) - (created_at as i128) > STALE_EVENT_HORIZON_SECS as i128
}

} // verus!
