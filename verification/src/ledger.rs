//! The revenue ledger: reading a recipient's accrued balance and the
//! zero-balance withdrawal.

use vstd::prelude::*;

use crate::store::SubSor;
use crate::types::{Address, Error};

verus! {

impl SubSor {
    /// The accrued balance of `recipient`; 0 when no record exists. Never
    /// fails.
    pub fn get_balance(&self, recipient: Address) -> (r: i128)
        ensures
            r == self.balance_of(recipient),
    {
        match self.recipient_balances.get(&recipient) {
            Some(b) => *b,
            None => 0,
        }
    }

    /// Withdraws `recipient`'s accrued revenue. Only the recipient may
    /// withdraw. A balance of 0 or below is reported as 0 with no mutation;
    /// a positive balance is reset to 0 and returned, for a settlement
    /// layer to pay out. Withdrawing a second time before further renewals
    /// therefore returns 0.
    pub fn withdraw_revenue(&mut self, caller: Address, recipient: Address) -> (r: Result<
        i128,
        Error,
    >)
        ensures
            old(self).wf() ==> final(self).wf(),
            final(self).subscriptions@ == old(self).subscriptions@,
            final(self).owner_subscriptions@ == old(self).owner_subscriptions@,
            final(self).subscription_counter == old(self).subscription_counter,
            final(self).initialized == old(self).initialized,
            match r {
                Err(Error::Unauthorized) => caller != recipient && *final(self) == *old(self),
                Ok(amount) => {
                    &&& caller == recipient
                    &&& if old(self).balance_of(recipient) > 0 {
                        &&& amount == old(self).balance_of(recipient)
                        &&& final(self).recipient_balances@ == old(self)
                            .recipient_balances@.insert(recipient, 0)
                        &&& final(self).balance_of(recipient) == 0
                    } else {
                        &&& amount == 0
                        &&& *final(self) == *old(self)
                    }
                },
                _ => false,
            },
    {
        if caller != recipient {
            return Err(Error::Unauthorized);
        }
        let balance: i128 = match self.recipient_balances.get(&recipient) {
            Some(b) => *b,
            None => 0,
        };
        if balance <= 0 {
            return Ok(0);
        }
        self.recipient_balances.insert(recipient, 0);
        Ok(balance)
    }
}

} // verus!
