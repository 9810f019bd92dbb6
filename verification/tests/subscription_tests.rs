use stream_state::subscriptions::{canonical_key, Subscription, SubscriptionRegistry};

#[test]
fn canonical_keys_name_variant_and_parameters() {
    assert_eq!(canonical_key(&Subscription::AllMids), "allMids");
    assert_eq!(
        canonical_key(&Subscription::Trades { coin: "ETH".to_string() }),
        "trades:ETH"
    );
    assert_eq!(
        canonical_key(&Subscription::Candle {
            coin: "ETH".to_string(),
            interval: "1m".to_string()
        }),
        "candle:ETH:1m"
    );
    assert_eq!(
        canonical_key(&Subscription::L2Book { coin: "BTC".to_string() }),
        "l2Book:BTC"
    );
    assert_eq!(
        canonical_key(&Subscription::UserFills { user: "0xabc".to_string() }),
        "userFills:0xabc"
    );
}

#[test]
fn subscribing_twice_is_idempotent_and_calls_session_once() {
    let mut reg = SubscriptionRegistry::new();
    let sub = Subscription::Trades { coin: "ETH".to_string() };
    let mut session_calls = 0;

    // the subscribe flow: call the session only when the key is new,
    // record only after the session confirmed
    for _ in 0..2 {
        if !reg.is_active(&sub) {
            session_calls += 1; // the session confirms with id 7
            reg.record(sub.clone(), 7);
        }
    }
    assert_eq!(session_calls, 1);
    assert_eq!(reg.active_count(&sub), 1);
    assert_eq!(reg.len(), 1);
}

#[test]
fn record_of_active_key_changes_nothing() {
    let mut reg = SubscriptionRegistry::new();
    let sub = Subscription::AllMids;
    reg.record(sub.clone(), 1);
    reg.record(sub.clone(), 2);
    assert_eq!(reg.len(), 1);
    // the first confirmed id is kept
    assert_eq!(reg.peek_id(&sub), Some(1));
}

#[test]
fn different_subscriptions_do_not_collide() {
    let mut reg = SubscriptionRegistry::new();
    reg.record(Subscription::Trades { coin: "ETH".to_string() }, 1);
    reg.record(Subscription::L2Book { coin: "ETH".to_string() }, 2);
    reg.record(Subscription::Trades { coin: "BTC".to_string() }, 3);
    assert_eq!(reg.len(), 3);
    assert_eq!(
        reg.peek_id(&Subscription::L2Book { coin: "ETH".to_string() }),
        Some(2)
    );
}

#[test]
fn unsubscribe_flow_removes_only_after_confirmation() {
    let mut reg = SubscriptionRegistry::new();
    let sub = Subscription::Trades { coin: "ETH".to_string() };
    reg.record(sub.clone(), 9);
    // peek does not mutate: a failed session call leaves the registry alone
    assert_eq!(reg.peek_id(&sub), Some(9));
    assert!(reg.is_active(&sub));
    // the session confirmed: now remove
    reg.remove(&sub);
    assert!(!reg.is_active(&sub));
    assert_eq!(reg.peek_id(&sub), None);
    // removing again is a no-op
    reg.remove(&sub);
    assert_eq!(reg.len(), 0);
}

#[test]
fn list_replays_in_registration_order() {
    let mut reg = SubscriptionRegistry::new();
    reg.record(Subscription::AllMids, 1);
    reg.record(Subscription::Trades { coin: "ETH".to_string() }, 2);
    reg.record(Subscription::UserFills { user: "0xabc".to_string() }, 3);
    let subs = reg.list();
    assert_eq!(subs.len(), 3);
    assert_eq!(canonical_key(&subs[0]), "allMids");
    assert_eq!(canonical_key(&subs[1]), "trades:ETH");
    assert_eq!(canonical_key(&subs[2]), "userFills:0xabc");
}
