//! The query layer: full and cursor-paginated listings over an owner's
//! subscriptions, self-healing against index entries whose record is gone.

use vstd::prelude::*;

use crate::store::SubSor;
use crate::types::{Address, Subscription};

verus! {

/// The suffix of `ids` at which a paginated listing begins: all of `ids`
/// when there is no cursor; with a cursor, everything after the cursor's
/// first occurrence; empty when the cursor occurs nowhere — the scan never
/// finds a start, so nothing is ever collected.
pub open spec fn after_cursor(ids: Seq<u64>, cursor: Option<u64>) -> Seq<u64>
    decreases ids.len(),
{
    match cursor {
        Option::None => ids,
        Option::Some(c) => if ids.len() == 0 {
            ids
        } else if ids[0] == c {
            ids.drop_first()
        } else {
            after_cursor(ids.drop_first(), cursor)
        },
    }
}

/// The subscription records collected along the id sequence `ids`, in
/// order, keeping only ids whose record exists in `subs` and stopping once
/// `limit` of them are taken. An id whose record is missing is skipped
/// without counting toward the limit.
pub open spec fn collect_limited(
    subs: Map<u64, Subscription>,
    ids: Seq<u64>,
    limit: nat,
) -> Seq<Subscription>
    decreases ids.len(),
{
    if ids.len() == 0 || limit == 0 {
        Seq::empty()
    } else if subs.contains_key(ids[0]) {
        seq![subs[ids[0]]] + collect_limited(subs, ids.drop_first(), (limit - 1) as nat)
    } else {
        collect_limited(subs, ids.drop_first(), limit)
    }
}

/// The subscription records collected along the whole of `ids`, in order,
/// skipping ids whose record is missing.
pub open spec fn collect_existing(subs: Map<u64, Subscription>, ids: Seq<u64>) -> Seq<Subscription>
    decreases ids.len(),
{
    if ids.len() == 0 {
        Seq::empty()
    } else if subs.contains_key(ids[0]) {
        seq![subs[ids[0]]] + collect_existing(subs, ids.drop_first())
    } else {
        collect_existing(subs, ids.drop_first())
    }
}

impl SubSor {
    /// Lists up to `limit` of `owner`'s subscriptions in stored (insertion)
    /// order. With `start_after`, entries up to and including the first
    /// occurrence of that id are skipped and collection begins at the next
    /// entry; a cursor that occurs nowhere in the index yields an empty
    /// result. Index entries whose record is missing are skipped without
    /// counting toward `limit`.
    pub fn list_subscriptions(&self, owner: Address, start_after: Option<u64>, limit: u32) -> (r:
        Vec<Subscription>)
        ensures
            r@ == collect_limited(
                self.subscriptions@,
                after_cursor(self.owner_ids(owner), start_after),
                limit as nat,
            ),
    {
        let ghost all_ids = self.owner_ids(owner);
        let ghost target = collect_limited(
            self.subscriptions@,
            after_cursor(all_ids, start_after),
            limit as nat,
        );
        let mut result: Vec<Subscription> = Vec::new();
        let ids: &Vec<u64> = match self.owner_subscriptions.get(&owner) {
            Some(v) => v,
            None => {
                assert(target =~= Seq::<Subscription>::empty());
                return result;
            },
        };
        let (has_cursor, cursor_val): (bool, u64) = match start_after {
            Some(c) => (true, c),
            None => (false, 0),
        };
        let mut found_start: bool = !has_cursor;
        let mut count: u32 = 0;
        let mut i: usize = 0;
        proof {
            assert(all_ids.skip(0) =~= all_ids);
            if !has_cursor {
                assert(target =~= result@ + collect_limited(
                    self.subscriptions@,
                    all_ids,
                    limit as nat,
                ));
            }
        }
        while i < ids.len() && count < limit
            invariant
                ids@ == all_ids,
                i <= ids.len(),
                count <= limit,
                has_cursor <==> start_after is Some,
                has_cursor ==> start_after == Some(cursor_val),
                target == collect_limited(
                    self.subscriptions@,
                    after_cursor(all_ids, start_after),
                    limit as nat,
                ),
                !found_start ==> {
                    &&& has_cursor
                    &&& count == 0
                    &&& result@ == Seq::<Subscription>::empty()
                    &&& after_cursor(all_ids, start_after) == after_cursor(
                        all_ids.skip(i as int),
                        start_after,
                    )
                },
                found_start ==> {
                    &&& count as nat == result@.len()
                    &&& target == result@ + collect_limited(
                        self.subscriptions@,
                        all_ids.skip(i as int),
                        (limit - count) as nat,
                    )
                },
            decreases ids.len() - i,
        {
            let id = ids[i];
            proof {
                assert(all_ids.skip(i as int)[0] == all_ids[i as int]);
                assert(all_ids.skip(i as int).drop_first() =~= all_ids.skip(i as int + 1));
            }
            if !found_start {
                if id == cursor_val {
                    found_start = true;
                    proof {
                        assert(after_cursor(all_ids.skip(i as int), start_after) == all_ids.skip(
                            i as int + 1,
                        ));
                        assert(target =~= result@ + collect_limited(
                            self.subscriptions@,
                            all_ids.skip(i as int + 1),
                            (limit - count) as nat,
                        ));
                    }
                }
            } else {
                match self.subscriptions.get(&id) {
                    Some(sub) => {
                        result.push(*sub);
                        count = count + 1;
                        proof {
                            assert(collect_limited(
                                self.subscriptions@,
                                all_ids.skip(i as int),
                                (limit - (count - 1)) as nat,
                            ) == seq![self.subscriptions@[id]] + collect_limited(
                                self.subscriptions@,
                                all_ids.skip(i as int + 1),
                                (limit - count) as nat,
                            ));
                            assert(target =~= result@ + collect_limited(
                                self.subscriptions@,
                                all_ids.skip(i as int + 1),
                                (limit - count) as nat,
                            ));
                        }
                    },
                    None => {},
                }
            }
            i = i + 1;
        }
        proof {
            if !found_start {
                if limit > 0 {
                    assert(i == ids.len());
                    assert(after_cursor(all_ids.skip(i as int), start_after) =~= Seq::<
                        u64,
                    >::empty());
                }
                assert(target =~= Seq::<Subscription>::empty());
            } else {
                if count < limit {
                    assert(all_ids.skip(i as int) =~= Seq::<u64>::empty());
                }
                assert(collect_limited(
                    self.subscriptions@,
                    all_ids.skip(i as int),
                    (limit - count) as nat,
                ) =~= Seq::<Subscription>::empty());
                assert(target =~= result@);
            }
        }
        result
    }

    /// Lists all of `owner`'s subscriptions in stored order, skipping index
    /// entries whose record is missing.
    pub fn get_all_subscriptions(&self, owner: Address) -> (r: Vec<Subscription>)
        ensures
            r@ == collect_existing(self.subscriptions@, self.owner_ids(owner)),
    {
        let ghost all_ids = self.owner_ids(owner);
        let mut result: Vec<Subscription> = Vec::new();
        let ids: &Vec<u64> = match self.owner_subscriptions.get(&owner) {
            Some(v) => v,
            None => {
                return result;
            },
        };
        let mut i: usize = 0;
        proof {
            assert(all_ids.skip(0) =~= all_ids);
            assert(collect_existing(self.subscriptions@, all_ids) =~= result@ + collect_existing(
                self.subscriptions@,
                all_ids,
            ));
        }
        while i < ids.len()
            invariant
                ids@ == all_ids,
                i <= ids.len(),
                collect_existing(self.subscriptions@, all_ids) == result@ + collect_existing(
                    self.subscriptions@,
                    all_ids.skip(i as int),
                ),
            decreases ids.len() - i,
        {
            let id = ids[i];
            proof {
                assert(all_ids.skip(i as int)[0] == all_ids[i as int]);
                assert(all_ids.skip(i as int).drop_first() =~= all_ids.skip(i as int + 1));
            }
            match self.subscriptions.get(&id) {
                Some(sub) => {
                    result.push(*sub);
                    proof {
                        assert(collect_existing(self.subscriptions@, all_ids) =~= result@
                            + collect_existing(self.subscriptions@, all_ids.skip(i as int + 1)));
                    }
                },
                None => {},
            }
            i = i + 1;
        }
        proof {
            assert(all_ids.skip(i as int) =~= Seq::<u64>::empty());
            assert(collect_existing(self.subscriptions@, all_ids) =~= result@);
        }
        result
    }
}

} // verus!
