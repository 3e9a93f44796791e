//! The subscription registry: creation with validation, cancellation, and
//! record lookup, together with the owner index and the id counter.

use vstd::prelude::*;

use crate::store::SubSor;
use crate::types::{Address, Error, Subscription, MAX_SPLIT_PERCENTAGE, SECONDS_PER_DAY};

verus! {

/// The record a successful creation stores: active, never yet paid, first
/// due one whole period after `now`.
pub open spec fn created_subscription(
    id: u64,
    owner: Address,
    subscriber: Address,
    amount: i128,
    period_days: u32,
    recipient: Address,
    split_percentage: u32,
    now: u64,
) -> Subscription {
    Subscription {
        id,
        owner,
        subscriber,
        amount,
        period_days,
        recipient,
        split_percentage,
        next_billing_date: (now + period_days * (SECONDS_PER_DAY as int)) as u64,
        last_payment_date: 0,
        is_active: true,
        created_at: now,
    }
}

/// No stored subscription that was cancelled is ever touched again: every
/// operation keeps each inactive record present and inactive.
pub open spec fn keeps_cancelled(pre: SubSor, post: SubSor) -> bool {
    forall|i: u64|
        pre.subscriptions@.contains_key(i) && !pre.subscriptions@[i].is_active
            ==> #[trigger] post.subscriptions@.contains_key(i)
                && !post.subscriptions@[i].is_active
}

impl SubSor {
    /// Creates a subscription for `owner`, who must be the principal that
    /// authorized the call. Validates the agreement, assigns the next id,
    /// schedules the first billing date one period after `now`, appends the
    /// id to the owner's index, and opens the recipient's balance record at
    /// 0 if — and only if — none exists yet.
    pub fn create_subscription(
        &mut self,
        caller: Address,
        owner: Address,
        subscriber: Address,
        amount: i128,
        period_days: u32,
        recipient: Address,
        split_percentage: u32,
        now: u64,
    ) -> (r: Result<u64, Error>)
        requires
            old(self).wf(),
        ensures
            final(self).wf(),
            keeps_cancelled(*old(self), *final(self)),
            match r {
                Err(Error::Unauthorized) => caller != owner && *final(self) == *old(self),
                Err(Error::InvalidAmount) => caller == owner && amount <= 0 && *final(self)
                    == *old(self),
                Err(Error::InvalidPeriod) => caller == owner && 0 < amount && period_days == 0
                    && *final(self) == *old(self),
                Err(Error::InvalidSplit) => caller == owner && 0 < amount && 1 <= period_days
                    && split_percentage > MAX_SPLIT_PERCENTAGE && *final(self) == *old(self),
                Err(Error::CounterOverflow) => caller == owner && 0 < amount && 1 <= period_days
                    && split_percentage <= MAX_SPLIT_PERCENTAGE && old(self).subscription_counter
                    == u64::MAX && *final(self) == *old(self),
                Err(Error::ArithmeticOverflow) => caller == owner && 0 < amount && 1 <= period_days
                    && split_percentage <= MAX_SPLIT_PERCENTAGE && old(self).subscription_counter
                    < u64::MAX && now + period_days * (SECONDS_PER_DAY as int) > u64::MAX
                    && *final(self) == *old(self),
                Ok(id) => {
                    &&& caller == owner
                    &&& 0 < amount
                    &&& 1 <= period_days
                    &&& split_percentage <= MAX_SPLIT_PERCENTAGE
                    &&& now + period_days * (SECONDS_PER_DAY as int) <= u64::MAX
                    &&& id == old(self).subscription_counter + 1
                    &&& !old(self).subscriptions@.contains_key(id)
                    &&& final(self).subscription_counter == id
                    &&& final(self).subscriptions@ == old(self).subscriptions@.insert(
                        id,
                        created_subscription(
                            id,
                            owner,
                            subscriber,
                            amount,
                            period_days,
                            recipient,
                            split_percentage,
                            now,
                        ),
                    )
                    &&& final(self).owner_ids(owner) == old(self).owner_ids(owner).push(id)
                    &&& forall|a: Address|
                        a != owner ==> #[trigger] final(self).owner_ids(a) == old(self).owner_ids(a)
                    &&& final(self).recipient_balances@ == (if old(self)
                        .recipient_balances@.contains_key(recipient) {
                        old(self).recipient_balances@
                    } else {
                        old(self).recipient_balances@.insert(recipient, 0)
                    })
                    &&& final(self).initialized == old(self).initialized
                },
                _ => false,
            },
    {
        if caller != owner {
            return Err(Error::Unauthorized);
        }
        if amount <= 0 {
            return Err(Error::InvalidAmount);
        }
        if period_days == 0 {
            return Err(Error::InvalidPeriod);
        }
        if split_percentage > MAX_SPLIT_PERCENTAGE {
            return Err(Error::InvalidSplit);
        }
        if self.subscription_counter == u64::MAX {
            return Err(Error::CounterOverflow);
        }
        let id = self.subscription_counter + 1;
        let period_seconds: u64 = (period_days as u64) * SECONDS_PER_DAY;
        if now > u64::MAX - period_seconds {
            return Err(Error::ArithmeticOverflow);
        }
        let next_billing: u64 = now + period_seconds;
        self.subscription_counter = id;
        let sub = Subscription {
            id,
            owner,
            subscriber,
            amount,
            period_days,
            recipient,
            split_percentage,
            next_billing_date: next_billing,
            last_payment_date: 0,
            is_active: true,
            created_at: now,
        };
        self.subscriptions.insert(id, sub);
        let ghost index_before = self.owner_subscriptions@;
        let mut ids: Vec<u64> = match self.owner_subscriptions.remove(&owner) {
            Some(v) => v,
            None => Vec::new(),
        };
        ids.push(id);
        self.owner_subscriptions.insert(owner, ids);
        proof {
            assert(self.owner_subscriptions@ =~= index_before.insert(
                owner,
                self.owner_subscriptions@[owner],
            ));
        }
        if !self.recipient_balances.contains_key(&recipient) {
            self.recipient_balances.insert(recipient, 0);
        }
        Ok(id)
    }

    /// Cancels an active subscription. Only the owner of record may cancel;
    /// cancellation flips `is_active` to `false` and changes nothing else.
    /// There is no way back: no operation ever reactivates the record.
    pub fn cancel_subscription(&mut self, caller: Address, subscription_id: u64) -> (r: Result<
        (),
        Error,
    >)
        requires
            old(self).wf(),
        ensures
            final(self).wf(),
            keeps_cancelled(*old(self), *final(self)),
            match r {
                Err(Error::NotFound) => !old(self).subscriptions@.contains_key(subscription_id)
                    && *final(self) == *old(self),
                Err(Error::Unauthorized) => old(self).subscriptions@.contains_key(subscription_id)
                    && caller != old(self).subscriptions@[subscription_id].owner && *final(self)
                    == *old(self),
                Err(Error::AlreadyCancelled) => old(self).subscriptions@.contains_key(
                    subscription_id,
                ) && caller == old(self).subscriptions@[subscription_id].owner
                    && !old(self).subscriptions@[subscription_id].is_active
                    && *final(self) == *old(self),
                Ok(u) => {
                    let s = old(self).subscriptions@[subscription_id];
                    &&& old(self).subscriptions@.contains_key(subscription_id)
                    &&& caller == s.owner
                    &&& s.is_active
                    &&& final(self).subscriptions@ == old(self).subscriptions@.insert(
                        subscription_id,
                        Subscription { is_active: false, ..s },
                    )
                    &&& final(self).owner_subscriptions@ == old(self).owner_subscriptions@
                    &&& final(self).recipient_balances@ == old(self).recipient_balances@
                    &&& final(self).subscription_counter == old(self).subscription_counter
                    &&& final(self).initialized == old(self).initialized
                },
                _ => false,
            },
    {
        let sub = match self.subscriptions.get(&subscription_id) {
            Some(s) => *s,
            None => { return Err(Error::NotFound) },
        };
        if caller != sub.owner {
            return Err(Error::Unauthorized);
        }
        if !sub.is_active {
            return Err(Error::AlreadyCancelled);
        }
        let mut cancelled_sub = sub;
        cancelled_sub.is_active = false;
        self.subscriptions.insert(subscription_id, cancelled_sub);
        Ok(())
    }

    /// Returns a copy of the stored subscription, or `NotFound`.
    pub fn get_subscription(&self, subscription_id: u64) -> (r: Result<Subscription, Error>)
        ensures
            match r {
                Ok(s) => self.subscriptions@.contains_key(subscription_id) && s
                    == self.subscriptions@[subscription_id],
                Err(Error::NotFound) => !self.subscriptions@.contains_key(subscription_id),
                _ => false,
            },
    {
        match self.subscriptions.get(&subscription_id) {
            Some(s) => Ok(*s),
            None => Err(Error::NotFound),
        }
    }
}

} // verus!
