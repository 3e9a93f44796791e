use subsor::Error;
use subsor::SubSor;

const OWNER: u64 = 1;
const SUBSCRIBER: u64 = 2;
const RECIPIENT: u64 = 3;

#[test]
fn test_initialize() {
    let mut s = SubSor::new();
    s.initialize();
    assert_eq!(s.subscription_counter, 0);
}

#[test]
fn test_initialize_idempotent() {
    let mut s = SubSor::new();
    s.initialize();
    s.initialize();
    assert_eq!(s.subscription_counter, 0);
    assert!(s.initialized);
}

#[test]
fn test_create_subscription() {
    let mut s = SubSor::new();
    s.initialize();

    let sub_id = s
        .create_subscription(OWNER, OWNER, SUBSCRIBER, 1000000i128, 30u32, RECIPIENT, 1500u32, 0)
        .unwrap();

    assert_eq!(sub_id, 1);

    let subscription = s.get_subscription(sub_id).unwrap();
    assert_eq!(subscription.id, 1);
    assert_eq!(subscription.owner, OWNER);
    assert_eq!(subscription.subscriber, SUBSCRIBER);
    assert_eq!(subscription.amount, 1000000);
    assert_eq!(subscription.period_days, 30);
    assert_eq!(subscription.recipient, RECIPIENT);
    assert_eq!(subscription.split_percentage, 1500);
    assert!(subscription.is_active);
}

#[test]
fn test_create_subscription_invalid_amount() {
    let mut s = SubSor::new();
    s.initialize();

    let r = s.create_subscription(OWNER, OWNER, SUBSCRIBER, 0i128, 30u32, RECIPIENT, 1500u32, 0);
    assert_eq!(r, Err(Error::InvalidAmount));

    let r = s.create_subscription(OWNER, OWNER, SUBSCRIBER, -7i128, 30u32, RECIPIENT, 1500u32, 0);
    assert_eq!(r, Err(Error::InvalidAmount));
}

#[test]
fn test_create_subscription_invalid_period() {
    let mut s = SubSor::new();
    s.initialize();

    let r = s.create_subscription(OWNER, OWNER, SUBSCRIBER, 1000000i128, 0u32, RECIPIENT, 1500u32, 0);
    assert_eq!(r, Err(Error::InvalidPeriod));
}

#[test]
fn test_create_subscription_invalid_split() {
    let mut s = SubSor::new();
    s.initialize();

    let r = s.create_subscription(
        OWNER,
        OWNER,
        SUBSCRIBER,
        1000000i128,
        30u32,
        RECIPIENT,
        10001u32,
        0,
    );
    assert_eq!(r, Err(Error::InvalidSplit));
}

#[test]
fn test_create_requires_owner_authorization() {
    let mut s = SubSor::new();
    s.initialize();

    let intruder = 9u64;
    let r = s.create_subscription(
        intruder, OWNER, SUBSCRIBER, 1000000i128, 30u32, RECIPIENT, 1500u32, 0,
    );
    assert_eq!(r, Err(Error::Unauthorized));
    assert_eq!(s.subscription_counter, 0);
    assert_eq!(s.get_subscription(1), Err(Error::NotFound));
}

#[test]
fn test_ids_are_sequential_and_never_reused() {
    let mut s = SubSor::new();
    s.initialize();

    let a = s
        .create_subscription(OWNER, OWNER, SUBSCRIBER, 100i128, 30u32, RECIPIENT, 1500u32, 0)
        .unwrap();
    let b = s
        .create_subscription(OWNER, OWNER, SUBSCRIBER, 200i128, 30u32, RECIPIENT, 1500u32, 0)
        .unwrap();
    let c = s
        .create_subscription(OWNER, OWNER, SUBSCRIBER, 300i128, 30u32, RECIPIENT, 1500u32, 0)
        .unwrap();
    assert_eq!((a, b, c), (1, 2, 3));

    s.cancel_subscription(OWNER, b).unwrap();
    let d = s
        .create_subscription(OWNER, OWNER, SUBSCRIBER, 400i128, 30u32, RECIPIENT, 1500u32, 0)
        .unwrap();
    assert_eq!(d, 4);
}

#[test]
fn test_counter_overflow() {
    let mut s = SubSor::new();
    s.initialize();
    s.subscription_counter = u64::MAX;

    let r = s.create_subscription(OWNER, OWNER, SUBSCRIBER, 1i128, 1u32, RECIPIENT, 0u32, 0);
    assert_eq!(r, Err(Error::CounterOverflow));
    assert_eq!(s.subscription_counter, u64::MAX);
}

#[test]
fn test_create_billing_date_overflow() {
    let mut s = SubSor::new();
    s.initialize();

    let r = s.create_subscription(
        OWNER,
        OWNER,
        SUBSCRIBER,
        1i128,
        1u32,
        RECIPIENT,
        0u32,
        u64::MAX - 10,
    );
    assert_eq!(r, Err(Error::ArithmeticOverflow));
    assert_eq!(s.subscription_counter, 0);
}

#[test]
fn test_create_never_overwrites_existing_balance() {
    let mut s = SubSor::new();
    s.initialize();
    s.recipient_balances.insert(RECIPIENT, 42i128);

    s.create_subscription(OWNER, OWNER, SUBSCRIBER, 1000000i128, 30u32, RECIPIENT, 1500u32, 0)
        .unwrap();
    assert_eq!(s.get_balance(RECIPIENT), 42);
}

#[test]
fn test_cancel_subscription() {
    let mut s = SubSor::new();
    s.initialize();

    let sub_id = s
        .create_subscription(OWNER, OWNER, SUBSCRIBER, 1000000i128, 30u32, RECIPIENT, 1500u32, 0)
        .unwrap();

    s.cancel_subscription(OWNER, sub_id).unwrap();

    let subscription = s.get_subscription(sub_id).unwrap();
    assert!(!subscription.is_active);
}

#[test]
fn test_cancel_requires_owner_of_record() {
    let mut s = SubSor::new();
    s.initialize();

    let sub_id = s
        .create_subscription(OWNER, OWNER, SUBSCRIBER, 1000000i128, 30u32, RECIPIENT, 1500u32, 0)
        .unwrap();

    let r = s.cancel_subscription(SUBSCRIBER, sub_id);
    assert_eq!(r, Err(Error::Unauthorized));
    assert!(s.get_subscription(sub_id).unwrap().is_active);
}

#[test]
fn test_cancel_not_found() {
    let mut s = SubSor::new();
    s.initialize();
    assert_eq!(s.cancel_subscription(OWNER, 5), Err(Error::NotFound));
}

#[test]
fn test_cancellation_is_monotonic() {
    let mut s = SubSor::new();
    s.initialize();

    let sub_id = s
        .create_subscription(OWNER, OWNER, SUBSCRIBER, 1000000i128, 30u32, RECIPIENT, 1500u32, 0)
        .unwrap();
    s.cancel_subscription(OWNER, sub_id).unwrap();

    assert_eq!(
        s.renew_subscription(sub_id, 10 * 30 * 86400),
        Err(Error::InactiveSubscription)
    );
    assert_eq!(
        s.cancel_subscription(OWNER, sub_id),
        Err(Error::AlreadyCancelled)
    );
    assert_eq!(
        s.renew_subscription(sub_id, 20 * 30 * 86400),
        Err(Error::InactiveSubscription)
    );
}

#[test]
fn test_get_subscription_not_found() {
    let s = SubSor::new();
    assert_eq!(s.get_subscription(1), Err(Error::NotFound));
}
