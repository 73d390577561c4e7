use media_capture::ApplicationInfo;
use media_capture::DiscoveryError;
use media_capture::ListSubscribeStep;
use media_capture::ShareableContent;
use media_capture::StateSubscribeStep;
use media_capture::TappableApplication;

fn content_with_snapshot(handles: Vec<u32>) -> ShareableContent {
    ShareableContent::new(Ok(handles))
}

fn subscribe_state(
    content: &mut ShareableContent,
    handle: u32,
    binding: u64,
    token: u64,
) -> media_capture::ApplicationStateChangedSubscriber {
    let app = TappableApplication::new(handle, 1, String::from("app"));
    match content.on_app_state_changed(&app, token) {
        StateSubscribeStep::Subscribed(sub) => sub,
        StateSubscribeStep::NeedsListener => content.confirm_state_listener(handle, binding, token),
    }
}

#[test]
fn refresh_success_then_current_returns_it() {
    let mut content = content_with_snapshot(vec![10, 20]);
    assert_eq!(content.current_processes(), &Ok(vec![10, 20]));

    let notes = content.handle_process_list_event(Ok(vec![30]));
    assert!(notes.is_empty());
    assert_eq!(content.current_processes(), &Ok(vec![30]));
}

#[test]
fn refresh_failure_overwrites_stale_success() {
    let mut content = content_with_snapshot(vec![10, 20]);
    content.handle_process_list_event(Err(DiscoveryError { status: -4 }));
    assert_eq!(
        content.current_processes(),
        &Err(DiscoveryError { status: -4 })
    );

    content.handle_process_list_event(Ok(vec![5]));
    assert_eq!(content.current_processes(), &Ok(vec![5]));
}

#[test]
fn list_subscription_installs_listener_once() {
    let mut content = content_with_snapshot(vec![]);
    assert!(!content.is_list_listener_installed());

    let step = content.on_application_list_changed(1);
    assert!(matches!(step, ListSubscribeStep::NeedsListener));
    assert_eq!(content.list_subscriber_count(), 0);

    content.confirm_list_listener();
    let first = match content.on_application_list_changed(1) {
        ListSubscribeStep::Subscribed(sub) => sub,
        ListSubscribeStep::NeedsListener => panic!("listener was installed"),
    };
    assert!(content.is_list_listener_installed());
    assert_eq!(content.list_subscriber_count(), 1);

    // the second subscriber finds the listener already installed
    let second = match content.on_application_list_changed(2) {
        ListSubscribeStep::Subscribed(sub) => sub,
        ListSubscribeStep::NeedsListener => panic!("listener was installed"),
    };
    assert_eq!(content.list_subscriber_count(), 2);
    assert_ne!(first.id, second.id);
}

#[test]
fn list_unsubscribe_is_idempotent_and_keeps_listener() {
    let mut content = content_with_snapshot(vec![]);
    content.confirm_list_listener();
    let sub = match content.on_application_list_changed(9) {
        ListSubscribeStep::Subscribed(sub) => sub,
        ListSubscribeStep::NeedsListener => panic!("listener was installed"),
    };
    assert_eq!(content.list_subscriber_count(), 1);

    sub.unsubscribe(&mut content);
    assert_eq!(content.list_subscriber_count(), 0);
    // by design the global listener is never removed
    assert!(content.is_list_listener_installed());

    sub.unsubscribe(&mut content);
    assert_eq!(content.list_subscriber_count(), 0);
    assert!(content.is_list_listener_installed());
}

#[test]
fn list_fanout_carries_refresh_outcome() {
    let mut content = content_with_snapshot(vec![]);
    content.confirm_list_listener();
    content.on_application_list_changed(7);
    content.on_application_list_changed(8);

    let notes = content.handle_process_list_event(Ok(vec![1, 2]));
    assert_eq!(notes.len(), 2);
    let mut tokens: Vec<u64> = notes.iter().map(|n| n.token).collect();
    tokens.sort();
    assert_eq!(tokens, vec![7, 8]);
    assert!(notes.iter().all(|n| n.outcome == Ok(())));

    let notes = content.handle_process_list_event(Err(DiscoveryError { status: -1 }));
    assert_eq!(notes.len(), 2);
    assert!(notes
        .iter()
        .all(|n| n.outcome == Err(DiscoveryError { status: -1 })));
}

#[test]
fn state_listener_lives_exactly_while_subscribed() {
    let mut content = content_with_snapshot(vec![]);
    let handle = 42;
    assert!(!content.state_has_listener(handle));
    assert_eq!(content.state_subscriber_count(handle), 0);

    let a = subscribe_state(&mut content, handle, 900, 1);
    assert!(content.state_has_listener(handle));
    assert_eq!(content.state_subscriber_count(handle), 1);

    let b = subscribe_state(&mut content, handle, 901, 2);
    assert!(content.state_has_listener(handle));
    assert_eq!(content.state_subscriber_count(handle), 2);

    let torn = a.unsubscribe(&mut content);
    assert_eq!(torn, None);
    assert!(content.state_has_listener(handle));
    assert_eq!(content.state_subscriber_count(handle), 1);

    // the last unsubscribe removes the entry and hands the binding back
    let torn = b.unsubscribe(&mut content);
    assert_eq!(torn, Some(900));
    assert!(!content.state_has_listener(handle));
    assert_eq!(content.state_subscriber_count(handle), 0);
}

#[test]
fn state_unsubscribe_twice_is_noop() {
    let mut content = content_with_snapshot(vec![]);
    let handle = 7;
    let sub = subscribe_state(&mut content, handle, 500, 11);
    assert_eq!(sub.unsubscribe(&mut content), Some(500));
    assert!(!content.state_has_listener(handle));

    // the second unsubscribe finds nothing, tears nothing down
    assert_eq!(sub.unsubscribe(&mut content), None);
    assert!(!content.state_has_listener(handle));
    assert_eq!(content.state_subscriber_count(handle), 0);
}

#[test]
fn state_fanout_reaches_each_subscriber_exactly_once() {
    let mut content = content_with_snapshot(vec![]);
    let handle = 3;
    assert!(content.handle_state_event(handle).is_empty());

    subscribe_state(&mut content, handle, 100, 21);
    subscribe_state(&mut content, handle, 100, 22);
    subscribe_state(&mut content, handle, 100, 23);

    let mut tokens = content.handle_state_event(handle);
    assert_eq!(tokens.len(), 3);
    tokens.sort();
    assert_eq!(tokens, vec![21, 22, 23]);

    // an unrelated handle still fans out to nobody
    assert!(content.handle_state_event(4).is_empty());
}

#[test]
fn firing_after_unsubscribe_reaches_only_the_remaining_subscriber() {
    let mut content = content_with_snapshot(vec![]);
    let handle = 77;
    let a = subscribe_state(&mut content, handle, 600, 1001);
    let _b = subscribe_state(&mut content, handle, 600, 1002);

    a.unsubscribe(&mut content);

    let tokens = content.handle_state_event(handle);
    assert_eq!(tokens, vec![1002]);
}

#[test]
fn subscriptions_on_distinct_handles_are_independent() {
    let mut content = content_with_snapshot(vec![]);
    let a = subscribe_state(&mut content, 1, 700, 31);
    let _b = subscribe_state(&mut content, 2, 701, 32);

    let torn = a.unsubscribe(&mut content);
    assert_eq!(torn, Some(700));
    assert!(!content.state_has_listener(1));
    assert!(content.state_has_listener(2));
    assert_eq!(content.handle_state_event(2), vec![32]);
}

#[test]
fn application_by_unknown_pid_is_absent() {
    let content = content_with_snapshot(vec![]);
    assert!(content.application_with_process_id(4242, None).is_none());

    let found = content
        .application_with_process_id(12, Some(String::from("Editor")))
        .expect("known pid resolves");
    assert_eq!(found.process_id(), 12);
    assert_eq!(found.name(), "Editor");
}

#[test]
fn applications_keeps_only_resolvable_bundles() {
    let content = content_with_snapshot(vec![1, 2, 3, 4]);
    let meta = vec![
        ApplicationInfo {
            object_id: 1,
            process_id: 100,
            name: String::from("one"),
            bundle_identifier: Some(String::from("com.example.one")),
        },
        ApplicationInfo {
            object_id: 2,
            process_id: 200,
            name: String::from("two"),
            bundle_identifier: None,
        },
        ApplicationInfo {
            object_id: 4,
            process_id: 400,
            name: String::from("four"),
            bundle_identifier: Some(String::from("com.example.four")),
        },
    ];

    let apps = content.applications(&meta);
    assert_eq!(apps.len(), 2);
    assert_eq!(apps[0].object_id(), 1);
    assert_eq!(apps[0].process_id(), 100);
    assert_eq!(apps[0].name(), "one");
    assert_eq!(apps[1].object_id(), 4);
    assert_eq!(apps[1].name(), "four");
}

#[test]
fn applications_is_empty_after_failed_refresh() {
    let mut content = content_with_snapshot(vec![1]);
    content.handle_process_list_event(Err(DiscoveryError { status: -3 }));
    let meta = vec![ApplicationInfo {
        object_id: 1,
        process_id: 100,
        name: String::from("one"),
        bundle_identifier: Some(String::from("com.example.one")),
    }];
    assert!(content.applications(&meta).is_empty());
}

#[test]
fn tappable_application_by_pid_finds_or_falls_back() {
    let content = content_with_snapshot(vec![1, 2]);
    let meta = vec![
        ApplicationInfo {
            object_id: 1,
            process_id: 100,
            name: String::from("one"),
            bundle_identifier: Some(String::from("com.example.one")),
        },
        ApplicationInfo {
            object_id: 2,
            process_id: 200,
            name: String::from("two"),
            bundle_identifier: Some(String::from("com.example.two")),
        },
    ];

    let found = content
        .tappable_application_with_process_id(200, &meta, String::from("ignored"))
        .expect("pid in snapshot");
    assert_eq!(found.object_id(), 2);
    assert_eq!(found.name(), "two");

    let fallback = content
        .tappable_application_with_process_id(999, &meta, String::from("looked-up"))
        .expect("fallback is always produced");
    assert_eq!(fallback.object_id(), 0);
    assert_eq!(fallback.process_id(), 999);
    assert_eq!(fallback.name(), "looked-up");
}
