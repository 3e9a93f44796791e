use subsor::SubSor;

const OWNER: u64 = 1;
const RECIPIENT: u64 = 3;

fn store_with_three() -> SubSor {
    let mut s = SubSor::new();
    s.initialize();
    for amount in [1000000i128, 2000000i128, 3000000i128] {
        s.create_subscription(OWNER, OWNER, 2, amount, 30u32, RECIPIENT, 1500u32, 0)
            .unwrap();
    }
    s
}

#[test]
fn test_list_subscriptions() {
    let mut s = SubSor::new();
    s.initialize();

    s.create_subscription(OWNER, OWNER, 2, 1000000i128, 30u32, RECIPIENT, 1500u32, 0)
        .unwrap();
    s.create_subscription(OWNER, OWNER, 5, 2000000i128, 30u32, RECIPIENT, 2000u32, 0)
        .unwrap();

    let subscriptions = s.get_all_subscriptions(OWNER);
    assert_eq!(subscriptions.len(), 2);
}

#[test]
fn test_pagination_start_after() {
    let s = store_with_three();

    let page = s.list_subscriptions(OWNER, Some(1), 10);
    let ids: Vec<u64> = page.iter().map(|sub| sub.id).collect();
    assert_eq!(ids, vec![2, 3]);
}

#[test]
fn test_pagination_cursor_not_in_index() {
    let s = store_with_three();
    assert_eq!(s.list_subscriptions(OWNER, Some(99), 10).len(), 0);
}

#[test]
fn test_pagination_without_cursor() {
    let s = store_with_three();

    let page = s.list_subscriptions(OWNER, None, 10);
    let ids: Vec<u64> = page.iter().map(|sub| sub.id).collect();
    assert_eq!(ids, vec![1, 2, 3]);
}

#[test]
fn test_pagination_limit() {
    let s = store_with_three();

    let page = s.list_subscriptions(OWNER, None, 2);
    let ids: Vec<u64> = page.iter().map(|sub| sub.id).collect();
    assert_eq!(ids, vec![1, 2]);

    let page = s.list_subscriptions(OWNER, Some(1), 1);
    let ids: Vec<u64> = page.iter().map(|sub| sub.id).collect();
    assert_eq!(ids, vec![2]);

    assert_eq!(s.list_subscriptions(OWNER, None, 0).len(), 0);
}

#[test]
fn test_list_skips_missing_records_without_counting() {
    let mut s = store_with_three();
    // Wedge an id with no record between the real ones.
    s.owner_subscriptions.get_mut(&OWNER).unwrap().insert(1, 99);

    let page = s.list_subscriptions(OWNER, None, 3);
    let ids: Vec<u64> = page.iter().map(|sub| sub.id).collect();
    assert_eq!(ids, vec![1, 2, 3]);
}

#[test]
fn test_get_all_skips_missing_records() {
    let mut s = store_with_three();
    s.owner_subscriptions.get_mut(&OWNER).unwrap().push(99);

    let all = s.get_all_subscriptions(OWNER);
    let ids: Vec<u64> = all.iter().map(|sub| sub.id).collect();
    assert_eq!(ids, vec![1, 2, 3]);
}

#[test]
fn test_list_keeps_cancelled_entries() {
    let mut s = store_with_three();
    s.cancel_subscription(OWNER, 2).unwrap();

    // Cancellation is a flag flip, not deletion: the index keeps the id and
    // the listing still returns the record.
    let page = s.list_subscriptions(OWNER, None, 10);
    assert_eq!(page.len(), 3);
    assert!(!page[1].is_active);
}

#[test]
fn test_list_unknown_owner_is_empty() {
    let s = SubSor::new();
    assert_eq!(s.list_subscriptions(OWNER, None, 10).len(), 0);
    assert_eq!(s.get_all_subscriptions(OWNER).len(), 0);
}
