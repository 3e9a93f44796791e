//! The data model: subscriptions, balances, the persisted key space, and the
//! error kinds with which an operation aborts.

use vstd::prelude::*;

verus! {

/// Identity of a party (an owner, subscriber, or recipient): the host
/// environment's notion of an account, carried through the engine as a plain
/// numeric handle. The engine only ever compares identities for equality and
/// uses them as keys.
pub type Address = u64;

/// The whole range of a split, in basis points: 10000 basis points = 100%.
pub const MAX_SPLIT_PERCENTAGE: u32 = 10000;

/// Seconds in one whole day of a billing period.
pub const SECONDS_PER_DAY: u64 = 86400;

/// One subscription agreement, owned by the store.
///
/// `amount`, `period_days`, `split_percentage`, `owner`, `subscriber`,
/// `recipient` and `created_at` are set at creation and never change again.
/// `next_billing_date` and `last_payment_date` move on every successful
/// renewal; `is_active` starts `true` and becomes `false`, permanently, when
/// the subscription is cancelled.
#[derive(Clone, Copy, PartialEq, Eq, Structural, Debug)]
pub struct Subscription {
    pub id: u64,
    pub owner: Address,
    pub subscriber: Address,
    pub amount: i128,
    pub period_days: u32,
    pub recipient: Address,
    pub split_percentage: u32,
    pub next_billing_date: u64,
    pub last_payment_date: u64,
    pub is_active: bool,
    pub created_at: u64,
}

/// Accrued, unwithdrawn revenue owed to one recipient identity: the record
/// shape under the `DataKey::RecipientBalance` key.
#[derive(Clone, Copy, PartialEq, Eq, Structural, Debug)]
pub struct RecipientBalance {
    pub address: Address,
    pub balance: i128,
}

/// The persisted key space, by logical key. These keys and their value
/// shapes are the storage contract: `Subscription(id)` holds a
/// [`Subscription`], `OwnerSubscriptions(owner)` the owner's sequence of
/// subscription ids, `RecipientBalance(address)` an accrued amount,
/// `SubscriptionCounter` the id counter, and `Initialized` the one-time
/// setup marker.
#[derive(Clone, Copy, PartialEq, Eq, Structural, Debug)]
pub enum DataKey {
    Subscription(u64),
    OwnerSubscriptions(Address),
    RecipientBalance(Address),
    SubscriptionCounter,
    Initialized,
}

/// Why an operation aborted. Every error is fatal to the enclosing
/// operation: the operation returns with the store exactly as it found it.
#[derive(Clone, Copy, PartialEq, Eq, Structural, Debug)]
pub enum Error {
    /// A subscription was to be created with `amount <= 0`.
    InvalidAmount,
    /// A subscription was to be created with `period_days == 0`.
    InvalidPeriod,
    /// A subscription was to be created with a split over 10000 basis points.
    InvalidSplit,
    /// No subscription is stored under the given id.
    NotFound,
    /// The subscription to cancel had already been cancelled.
    AlreadyCancelled,
    /// The subscription to renew is no longer active.
    InactiveSubscription,
    /// The named principal did not authorize the operation.
    Unauthorized,
    /// The id counter cannot be incremented any further.
    CounterOverflow,
    /// A billing-date or balance computation would overflow its domain.
    ArithmeticOverflow,
}

/// The fields every stored subscription satisfies: they are checked at
/// creation and immutable afterwards.
pub open spec fn subscription_fields_wf(s: Subscription) -> bool {
    &&& 0 < s.amount
    &&& 1 <= s.period_days
    &&& s.split_percentage <= MAX_SPLIT_PERCENTAGE
}

} // verus!
