//! The store: the whole persisted state of the billing engine as one value,
//! with its well-formedness invariant and the one-time setup operation.

use std::collections::HashMap;
use vstd::prelude::*;

use crate::types::{Address, Subscription, MAX_SPLIT_PERCENTAGE};

verus! {

/// The recurring-billing ledger: every record the engine persists, as one
/// explicit value. The host environment owns a `SubSor` for the contract's
/// lifetime and hands it to each operation.
///
/// The fields mirror the persisted key space of [`crate::types::DataKey`]:
/// `subscriptions` holds the `Subscription(id)` records, `owner_subscriptions`
/// the `OwnerSubscriptions(owner)` id sequences, `recipient_balances` the
/// `RecipientBalance(address)` amounts, and the two scalars hold the
/// `SubscriptionCounter` and `Initialized` entries.
#[verifier::ext_equal]
pub struct SubSor {
    pub subscriptions: HashMap<u64, Subscription>,
    pub owner_subscriptions: HashMap<Address, Vec<u64>>,
    pub recipient_balances: HashMap<Address, i128>,
    pub subscription_counter: u64,
    pub initialized: bool,
}

/// The state `initialize` leaves behind: untouched when the marker is
/// already set, otherwise the same store with the counter at 0 and the
/// marker set.
pub open spec fn initialized_form(s: SubSor) -> SubSor {
    if s.initialized {
        s
    } else {
        SubSor { subscription_counter: 0, initialized: true, ..s }
    }
}

impl SubSor {
    /// The sequence of subscription ids recorded for `owner`, in insertion
    /// order, oldest first; empty when the owner has no index entry.
    pub open spec fn owner_ids(self, owner: Address) -> Seq<u64> {
        if self.owner_subscriptions@.contains_key(owner) {
            self.owner_subscriptions@[owner]@
        } else {
            Seq::empty()
        }
    }

    /// The accrued balance of `a`: 0 when no record exists for it.
    pub open spec fn balance_of(self, a: Address) -> i128 {
        crate::billing::balance_in(self.recipient_balances@, a)
    }

    /// Well-formedness of the store: every stored subscription sits under
    /// its own id, its id is in `1 ..= subscription_counter`, its immutable
    /// fields passed validation, and no accrued balance is negative.
    pub open spec fn wf(self) -> bool {
        &&& forall|id: u64| #[trigger] self.subscriptions@.contains_key(id) ==> {
            let s = self.subscriptions@[id];
            &&& s.id == id
            &&& 1 <= id
            &&& id <= self.subscription_counter
            &&& crate::types::subscription_fields_wf(s)
        }
        &&& forall|a: Address| #[trigger] self.recipient_balances@.contains_key(a)
            ==> 0 <= self.recipient_balances@[a]
    }

    /// An empty store, not yet initialized: no records, counter at 0.
    pub fn new() -> (s: SubSor)
        ensures
            s.subscriptions@ == Map::<u64, Subscription>::empty(),
            s.owner_subscriptions@ == Map::<Address, Vec<u64>>::empty(),
            s.recipient_balances@ == Map::<Address, i128>::empty(),
            s.subscription_counter == 0,
            !s.initialized,
            s.wf(),
    {
        SubSor {
            subscriptions: HashMap::new(),
            owner_subscriptions: HashMap::new(),
            recipient_balances: HashMap::new(),
            subscription_counter: 0,
            initialized: false,
        }
    }

    /// One-time setup. When the `initialized` marker is already set the call
    /// is a no-op; otherwise it sets the counter to 0 and sets the marker.
    /// Safe to call any number of times: every call after the first leaves
    /// the store exactly as it was.
    pub fn initialize(&mut self)
        ensures
            *final(self) == initialized_form(*old(self)),
            final(self).initialized,
            old(self).initialized ==> *final(self) == *old(self),
            !old(self).initialized ==> final(self).subscription_counter == 0,
    {
        if self.initialized {
            return;
        }
        self.subscription_counter = 0;
        self.initialized = true;
    }
}

} // verus!
