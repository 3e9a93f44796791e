//! Laws of the engine that span more than one operation, stated over the
//! same spec functions the operations' contracts use, and proved once.

use vstd::prelude::*;

use crate::billing::{period_seconds_of, renewed_at};
use crate::query::after_cursor;
use crate::registry::keeps_cancelled;
use crate::store::{initialized_form, SubSor};
use crate::types::{Subscription, SECONDS_PER_DAY};

verus! {

/// Cancellation is permanent across any chain of operations: each mutating
/// operation promises `keeps_cancelled` between its pre- and post-state,
/// and the relation composes, so a record once inactive stays present and
/// inactive forever after.
pub proof fn lemma_keeps_cancelled_transitive(a: SubSor, b: SubSor, c: SubSor)
    requires
        keeps_cancelled(a, b),
        keeps_cancelled(b, c),
    ensures
        keeps_cancelled(a, c),
{
}

/// Initialization is idempotent: running the setup on an already
/// initialized store changes nothing, so any number of `initialize` calls
/// leaves the same store as the first one — in particular, two calls on a
/// fresh store leave the counter at 0 — and no call ever touches the
/// records themselves.
pub proof fn lemma_initialize_idempotent(s: SubSor)
    ensures
        initialized_form(initialized_form(s)) == initialized_form(s),
        !s.initialized ==> initialized_form(s).subscription_counter == 0,
        initialized_form(s).subscriptions@ == s.subscriptions@,
        initialized_form(s).owner_subscriptions@ == s.owner_subscriptions@,
        initialized_form(s).recipient_balances@ == s.recipient_balances@,
{
}

/// Ids are never reused: in a well-formed store every stored id lies in
/// `1 ..= subscription_counter`, so the id the next successful creation
/// assigns — the counter plus one — is not in use, however many
/// subscriptions were created or cancelled before.
pub proof fn lemma_next_id_fresh(s: SubSor)
    requires
        s.wf(),
        s.subscription_counter < u64::MAX,
    ensures
        !s.subscriptions@.contains_key((s.subscription_counter + 1) as u64),
{
    if s.subscriptions@.contains_key((s.subscription_counter + 1) as u64) {
        assert(s.subscription_counter + 1 <= s.subscription_counter);
    }
}

/// A due renewal only ever moves the next billing date forward: it lands
/// exactly one whole period after the renewal's execution time, which is at
/// or past the old due date.
pub proof fn lemma_renewal_advances_due_date(s: Subscription, now: u64)
    requires
        1 <= s.period_days,
        now >= s.next_billing_date,
        now + period_seconds_of(s) <= u64::MAX,
    ensures
        renewed_at(s, now).next_billing_date == now + s.period_days * (SECONDS_PER_DAY as int),
        renewed_at(s, now).next_billing_date > s.next_billing_date,
        renewed_at(s, now).last_payment_date == now,
{
    assert(s.period_days * (SECONDS_PER_DAY as int) >= 1 * (SECONDS_PER_DAY as int));
}

/// A cursor that occurs nowhere in an owner's index yields an empty
/// starting suffix, so a paginated listing that begins there collects
/// nothing at all.
pub proof fn lemma_absent_cursor_empty(ids: Seq<u64>, c: u64)
    requires
        !ids.contains(c),
    ensures
        after_cursor(ids, Some(c)) =~= Seq::<u64>::empty(),
    decreases ids.len(),
{
    if ids.len() > 0 {
        assert(ids[0] != c);
        assert(!ids.drop_first().contains(c)) by {
            if ids.drop_first().contains(c) {
                let j = choose|j: int|
                    0 <= j < ids.drop_first().len() && ids.drop_first()[j] == c;
                assert(ids[j + 1] == c);
            }
        }
        lemma_absent_cursor_empty(ids.drop_first(), c);
    }
}

} // verus!
