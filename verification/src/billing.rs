//! The billing engine: due-date computation, basis-point split settlement,
//! and single renewal.

use vstd::prelude::*;

use vstd::arithmetic::div_mod::{
    lemma_div_pos_is_pos, lemma_fundamental_div_mod, lemma_hoist_over_denominator,
    lemma_multiply_divide_le,
};
use vstd::arithmetic::mul::{
    lemma_mul_inequality, lemma_mul_is_associative, lemma_mul_is_commutative,
    lemma_mul_is_distributive_add_other_way, lemma_mul_nonnegative, lemma_mul_upper_bound,
};

use crate::registry::keeps_cancelled;
use crate::store::SubSor;
use crate::types::{Address, Error, Subscription, MAX_SPLIT_PERCENTAGE, SECONDS_PER_DAY};

verus! {

/// The balance recorded in `bals` for `a`, reading an absent record as 0.
pub open spec fn balance_in(bals: Map<Address, i128>, a: Address) -> i128 {
    if bals.contains_key(a) {
        bals[a]
    } else {
        0
    }
}

/// The recipient's share of one period's charge: `amount * bps / 10000`,
/// rounded toward zero (both factors are non-negative wherever this is
/// applied, so this is the integer floor).
pub open spec fn split_amount_of(amount: int, bps: int) -> int {
    amount * bps / (MAX_SPLIT_PERCENTAGE as int)
}

/// A subscription is due at `now` when it is still active and `now` has
/// reached its next billing date.
pub open spec fn is_due(s: Subscription, now: u64) -> bool {
    s.is_active && now >= s.next_billing_date
}

/// The length of `s`'s billing period in seconds.
pub open spec fn period_seconds_of(s: Subscription) -> int {
    s.period_days * (SECONDS_PER_DAY as int)
}

/// The subscription record a renewal executed at `now` leaves behind: the
/// last payment date becomes `now` and the next billing date is anchored at
/// `now + period` (not at the previous due date: lateness is absorbed, never
/// made up). Meaningful where `now + period` fits in `u64`.
pub open spec fn renewed_at(s: Subscription, now: u64) -> Subscription {
    Subscription {
        next_billing_date: (now + period_seconds_of(s)) as u64,
        last_payment_date: now,
        ..s
    }
}

/// Basis-point decomposition: splitting the numerator as
/// `a == q * 10000 + r` computes the exact quotient `a * s / 10000` without
/// ever needing an intermediate wider than `a * 10000`, and the share never
/// exceeds the charge itself.
proof fn lemma_split_decompose(a: int, s: int)
    requires
        0 <= a,
        0 <= s <= 10000,
    ensures
        (a / 10000) * s + (a % 10000) * s / 10000 == a * s / 10000,
        0 <= (a / 10000) * s <= a,
        0 <= (a % 10000) * s <= 9999 * 10000,
        0 <= a * s / 10000 <= a,
{
    let q = a / 10000;
    let r = a % 10000;
    lemma_fundamental_div_mod(a, 10000);
    assert(a == 10000 * q + r);
    assert(0 <= q && 0 <= r < 10000);
    lemma_mul_nonnegative(q, s);
    lemma_mul_nonnegative(r, s);
    lemma_mul_upper_bound(r, 9999, s, 10000);
    // q * s <= 10000 * q <= a
    lemma_mul_inequality(s, 10000, q);
    lemma_mul_is_commutative(s, q);
    lemma_mul_is_commutative(q, 10000);
    assert(q * s <= a);
    // a * s == 10000 * (q * s) + r * s
    lemma_mul_is_distributive_add_other_way(s, 10000 * q, r);
    assert((10000 * q + r) * s == (10000 * q) * s + r * s);
    lemma_mul_is_associative(10000, q, s);
    assert(a * s == 10000 * (q * s) + r * s);
    // hence a * s / 10000 == q * s + (r * s) / 10000
    lemma_hoist_over_denominator(r * s, q * s, 10000nat);
    assert((r * s) / 10000 + q * s == (r * s + (q * s) * 10000) / 10000);
    lemma_mul_is_commutative(q * s, 10000);
    assert(r * s + (q * s) * 10000 == a * s);
    // and the quotient is bounded by a
    lemma_mul_nonnegative(a, s);
    lemma_div_pos_is_pos(a * s, 10000);
    lemma_mul_inequality(s, 10000, a);
    lemma_mul_is_commutative(s, a);
    lemma_mul_is_commutative(a, 10000);
    lemma_multiply_divide_le(a * s, 10000, a);
    lemma_div_pos_is_pos(r * s, 10000);
}

/// The recipient's share of one period's charge, computed exactly.
///
/// The multiply is performed in the unsigned 128-bit domain on a decomposed
/// numerator, so the full quotient `amount * bps / 10000` is obtained for
/// every positive `amount` without overflowing any intermediate.
pub fn split_share(amount: i128, bps: u32) -> (r: i128)
    requires
        0 < amount,
        bps <= MAX_SPLIT_PERCENTAGE,
    ensures
        r == split_amount_of(amount as int, bps as int),
        0 <= r <= amount,
{
    let a: u128 = amount as u128;
    let s: u128 = bps as u128;
    proof {
        lemma_split_decompose(a as int, s as int);
    }
    let q: u128 = a / 10000;
    let rem: u128 = a % 10000;
    let share: u128 = q * s + (rem * s) / 10000;
    share as i128
}

/// A renewal of `s` at `now` cannot be settled: crediting the split would
/// push the recipient's balance past `i128::MAX`, or the next billing date
/// would pass `u64::MAX`.
pub open spec fn renewal_overflows(bals: Map<Address, i128>, s: Subscription, now: u64) -> bool {
    ||| balance_in(bals, s.recipient) + split_amount_of(s.amount as int, s.split_percentage as int)
        > i128::MAX
    ||| now + period_seconds_of(s) > u64::MAX
}

impl SubSor {
    /// Renews one subscription at time `now`. Deliberately permissionless:
    /// renewal is a maintenance operation, so no principal is named.
    ///
    /// Returns `Ok(false)`, mutating nothing, when the subscription is not
    /// yet due — a normal outcome, not an error. When due, credits
    /// `amount * split_percentage / 10000` to the recipient's accrued
    /// balance, stamps the payment at `now`, and anchors the next billing
    /// date at `now + period` (a late renewal never collects more than one
    /// period's charge, and the schedule resets relative to `now`).
    pub fn renew_subscription(&mut self, subscription_id: u64, now: u64) -> (r: Result<bool, Error>)
        requires
            old(self).wf(),
        ensures
            final(self).wf(),
            keeps_cancelled(*old(self), *final(self)),
            match r {
                Err(Error::NotFound) => !old(self).subscriptions@.contains_key(subscription_id)
                    && *final(self) == *old(self),
                Err(Error::InactiveSubscription) => old(self).subscriptions@.contains_key(
                    subscription_id,
                ) && !old(self).subscriptions@[subscription_id].is_active
                    && *final(self) == *old(self),
                Ok(false) => {
                    let s = old(self).subscriptions@[subscription_id];
                    &&& old(self).subscriptions@.contains_key(subscription_id)
                    &&& s.is_active
                    &&& now < s.next_billing_date
                    &&& *final(self) == *old(self)
                },
                Err(Error::ArithmeticOverflow) => {
                    let s = old(self).subscriptions@[subscription_id];
                    &&& old(self).subscriptions@.contains_key(subscription_id)
                    &&& is_due(s, now)
                    &&& renewal_overflows(old(self).recipient_balances@, s, now)
                    &&& *final(self) == *old(self)
                },
                Ok(true) => {
                    let s = old(self).subscriptions@[subscription_id];
                    let split = split_amount_of(s.amount as int, s.split_percentage as int);
                    &&& old(self).subscriptions@.contains_key(subscription_id)
                    &&& is_due(s, now)
                    &&& !renewal_overflows(old(self).recipient_balances@, s, now)
                    &&& final(self).subscriptions@ == old(self).subscriptions@.insert(
                        subscription_id,
                        renewed_at(s, now),
                    )
                    &&& final(self).recipient_balances@ == old(self).recipient_balances@.insert(
                        s.recipient,
                        (balance_in(old(self).recipient_balances@, s.recipient) + split) as i128,
                    )
                    &&& final(self).balance_of(s.recipient) == old(self).balance_of(s.recipient)
                        + split
                    &&& final(self).owner_subscriptions@ == old(self).owner_subscriptions@
                    &&& final(self).subscription_counter == old(self).subscription_counter
                    &&& final(self).initialized == old(self).initialized
                },
                _ => false,
            },
    {
        let sub = match self.subscriptions.get(&subscription_id) {
            Some(s) => *s,
            None => { return Err(Error::NotFound) },
        };
        if !sub.is_active {
            return Err(Error::InactiveSubscription);
        }
        if now < sub.next_billing_date {
            return Ok(false);
        }
        let split = split_share(sub.amount, sub.split_percentage);
        let bal: i128 = match self.recipient_balances.get(&sub.recipient) {
            Some(b) => *b,
            None => 0,
        };
        if bal > i128::MAX - split {
            return Err(Error::ArithmeticOverflow);
        }
        let period_seconds: u64 = (sub.period_days as u64) * SECONDS_PER_DAY;
        if now > u64::MAX - period_seconds {
            return Err(Error::ArithmeticOverflow);
        }
        self.recipient_balances.insert(sub.recipient, bal + split);
        let mut renewed_sub = sub;
        renewed_sub.last_payment_date = now;
        renewed_sub.next_billing_date = now + period_seconds;
        self.subscriptions.insert(subscription_id, renewed_sub);
        Ok(true)
    }

    /// Renews, in index order, every subscription of `owner` that is active
    /// and due at `now`, stopping once `max_count` renewals are done or the
    /// index is exhausted. Index entries whose record is missing are
    /// silently skipped. Returns how many renewals were performed; an
    /// arithmetic overflow in any renewal aborts the whole batch with the
    /// store exactly as it was.
    pub fn process_due_subscriptions(&mut self, owner: Address, max_count: u32, now: u64) -> (r:
        Result<u32, Error>)
        requires
            old(self).wf(),
        ensures
            final(self).wf(),
            keeps_cancelled(*old(self), *final(self)),
            final(self).owner_subscriptions@ == old(self).owner_subscriptions@,
            final(self).subscription_counter == old(self).subscription_counter,
            final(self).initialized == old(self).initialized,
            ({
                let outcome = run_batch(
                    old(self).subscriptions@,
                    old(self).recipient_balances@,
                    old(self).owner_ids(owner),
                    now,
                    max_count as nat,
                );
                match r {
                    Ok(n) => !outcome.3 && n as nat == outcome.2 && final(self).subscriptions@
                        == outcome.0 && final(self).recipient_balances@ == outcome.1,
                    Err(Error::ArithmeticOverflow) => outcome.3 && final(self).subscriptions@
                        == old(self).subscriptions@ && final(self).recipient_balances@ == old(
                        self,
                    ).recipient_balances@,
                    _ => false,
                }
            }),
    {
        let ghost subs0 = self.subscriptions@;
        let ghost bals0 = self.recipient_balances@;
        let ghost all_ids = self.owner_ids(owner);
        let ghost outcome = run_batch(subs0, bals0, all_ids, now, max_count as nat);
        let saved_subs = self.subscriptions.clone();
        let saved_bals = self.recipient_balances.clone();
        let n: usize = match self.owner_subscriptions.get(&owner) {
            Some(v) => v.len(),
            None => 0,
        };
        let mut renewed: u32 = 0;
        let mut i: usize = 0;
        proof {
            assert(all_ids.skip(0) =~= all_ids);
        }
        while i < n && renewed < max_count
            invariant
                old(self).wf(),
                self.wf(),
                subs0 == old(self).subscriptions@,
                bals0 == old(self).recipient_balances@,
                all_ids == old(self).owner_ids(owner),
                outcome == run_batch(subs0, bals0, all_ids, now, max_count as nat),
                saved_subs@ == subs0,
                saved_bals@ == bals0,
                self.owner_subscriptions@ == old(self).owner_subscriptions@,
                self.subscription_counter == old(self).subscription_counter,
                self.initialized == old(self).initialized,
                keeps_cancelled(*old(self), *self),
                n == all_ids.len(),
                i <= n,
                renewed <= max_count,
                ({
                    let rest = run_batch(
                        self.subscriptions@,
                        self.recipient_balances@,
                        all_ids.skip(i as int),
                        now,
                        (max_count - renewed) as nat,
                    );
                    &&& outcome.0 == rest.0
                    &&& outcome.1 == rest.1
                    &&& outcome.2 == renewed + rest.2
                    &&& outcome.3 == rest.3
                }),
            decreases n - i,
        {
            let id: u64 = match self.owner_subscriptions.get(&owner) {
                Some(v) => v[i],
                None => {
                    proof {
                        assert(false);
                    }
                    0
                },
            };
            proof {
                assert(all_ids.skip(i as int)[0] == all_ids[i as int]);
                assert(all_ids.skip(i as int).drop_first() =~= all_ids.skip(i as int + 1));
            }
            let do_renew: bool = match self.subscriptions.get(&id) {
                Some(s) => s.is_active && now >= s.next_billing_date,
                None => false,
            };
            if do_renew {
                let ghost pre = *self;
                match self.renew_subscription(id, now) {
                    Ok(b) => {
                        proof {
                            assert(b == true);
                            assert(keeps_cancelled(*old(self), *self));
                        }
                        renewed = renewed + 1;
                    },
                    Err(e) => {
                        proof {
                            assert(e == Error::ArithmeticOverflow);
                            assert(outcome.3);
                        }
                        self.subscriptions = saved_subs.clone();
                        self.recipient_balances = saved_bals.clone();
                        proof {
                            assert(self.subscriptions@ == old(self).subscriptions@);
                            assert(self.recipient_balances@ == old(self).recipient_balances@);
                            assert(self.wf());
                        }
                        return Err(Error::ArithmeticOverflow);
                    },
                }
            }
            i = i + 1;
        }
        proof {
            if i == n {
                assert(all_ids.skip(i as int) =~= Seq::<u64>::empty());
            }
        }
        Ok(renewed)
    }
}

/// One pass of the batch renewer over the id sequence `ids`, against the
/// subscription records `subs` and the balances `bals` at time `now`, with
/// `budget` renewals left to spend.
///
/// The result carries, in order: the records after the pass, the balances
/// after the pass, how many renewals the pass performed, and whether some
/// renewal hit an arithmetic overflow — in which case the whole batch is
/// void and the first two components are meaningless to the caller.
///
/// Each step reads the store as the previous steps left it: a renewal that
/// happens earlier in the pass can make a later duplicate index entry no
/// longer due.
pub open spec fn run_batch(
    subs: Map<u64, Subscription>,
    bals: Map<Address, i128>,
    ids: Seq<u64>,
    now: u64,
    budget: nat,
) -> (Map<u64, Subscription>, Map<Address, i128>, nat, bool)
    decreases ids.len(),
{
    if ids.len() == 0 || budget == 0 {
        (subs, bals, 0nat, false)
    } else {
        let id = ids[0];
        if subs.contains_key(id) && is_due(subs[id], now) {
            let s = subs[id];
            if renewal_overflows(bals, s, now) {
                (subs, bals, 0nat, true)
            } else {
                let split = split_amount_of(s.amount as int, s.split_percentage as int);
                let rest = run_batch(
                    subs.insert(id, renewed_at(s, now)),
                    bals.insert(s.recipient, (balance_in(bals, s.recipient) + split) as i128),
                    ids.drop_first(),
                    now,
                    (budget - 1) as nat,
                );
                (rest.0, rest.1, rest.2 + 1, rest.3)
            }
        } else {
            run_batch(subs, bals, ids.drop_first(), now, budget)
        }
    }
}

} // verus!
