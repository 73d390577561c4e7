use media_capture::subscriptions::ListRegistry;
use media_capture::subscriptions::StateRegistry;

#[test]
fn state_registry_keeps_one_subscriber_per_id() {
    let mut reg = StateRegistry::new();
    reg.install(1, 50, 7, 100);
    assert_eq!(reg.subscriber_total(1), 1);

    // subscribing again under the same id replaces, never duplicates
    assert!(reg.subscribe(1, 7, 200));
    assert_eq!(reg.subscriber_total(1), 1);
    assert_eq!(reg.notification_tokens(1), vec![200]);
}

#[test]
fn state_registry_returns_binding_only_on_last_unsubscribe() {
    let mut reg = StateRegistry::new();
    reg.install(1, 50, 7, 100);
    assert!(reg.subscribe(1, 8, 200));
    assert!(reg.has_listener(1));

    assert_eq!(reg.unsubscribe(1, 7), None);
    assert!(reg.has_listener(1));
    assert_eq!(reg.unsubscribe(1, 8), Some(50));
    assert!(!reg.has_listener(1));

    // nothing left to tear down afterwards
    assert_eq!(reg.unsubscribe(1, 8), None);
}

#[test]
fn state_registry_subscribe_needs_an_entry() {
    let mut reg = StateRegistry::new();
    // without an installed listener nothing is registered
    assert!(!reg.subscribe(3, 9, 300));
    assert!(!reg.has_listener(3));
    assert_eq!(reg.subscriber_total(3), 0);
    assert_eq!(reg.unsubscribe(3, 9), None);
}

#[test]
fn list_registry_keeps_listener_after_last_unsubscribe() {
    let mut reg = ListRegistry::new();
    assert!(reg.needs_listener());
    reg.mark_listener_installed();
    assert!(!reg.needs_listener());

    reg.subscribe(11, 500);
    reg.subscribe(12, 501);
    assert_eq!(reg.subscriber_total(), 2);
    let mut tokens = reg.notification_tokens();
    tokens.sort();
    assert_eq!(tokens, vec![500, 501]);

    reg.unsubscribe(11);
    reg.unsubscribe(12);
    assert_eq!(reg.subscriber_total(), 0);
    assert!(reg.is_listener_installed());

    // unsubscribing an unknown id changes nothing
    reg.unsubscribe(11);
    assert_eq!(reg.subscriber_total(), 0);
}
