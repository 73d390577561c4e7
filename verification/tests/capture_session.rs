use media_capture::Application;
use media_capture::AudioCaptureSession;
use media_capture::CaptureError;
use media_capture::CaptureTarget;
use media_capture::DiscoveryError;
use media_capture::FrameQueue;
use media_capture::SessionTeardown;
use media_capture::ShareableContent;
use media_capture::TappableApplication;

#[test]
fn stop_twice_is_a_noop_the_second_time() {
    let app = TappableApplication::new(5, 50, String::from("player"));
    let mut session = app.tap_audio(1000, 2000);
    assert!(session.is_running());

    let torn = session.stop();
    assert_eq!(
        torn,
        Some(SessionTeardown { device_id: 1000, watcher_id: 2000 })
    );
    assert!(!session.is_running());

    // the second stop never raises and never hands the device out again
    let torn = session.stop();
    assert_eq!(torn, None);
    assert!(!session.is_running());
}

#[test]
fn capture_survives_default_device_change() {
    let excluded = vec![TappableApplication::new(9, 90, String::from("mixer"))];
    let mut session = ShareableContent::tap_global_audio(Some(&excluded), 1111, 2222);
    assert!(session.is_running());

    // the host's default output changed: the rebuilt device is swapped in,
    // the superseded one handed back, and capture continues
    let released = session.on_default_device_changed(1112);
    assert_eq!(released, 1111);
    assert!(session.is_running());

    let torn = session.stop();
    assert_eq!(
        torn,
        Some(SessionTeardown { device_id: 1112, watcher_id: 2222 })
    );
}

#[test]
fn single_target_session_uses_the_process_target() {
    let app = TappableApplication::new(31, 310, String::from("synth"));
    assert_eq!(app.capture_target(), CaptureTarget::Process(31));
    let mut session = app.tap_audio(7, 8);
    assert!(session.is_running());
    session.stop();
}

#[test]
fn frame_queue_drops_oldest_on_overflow() {
    let mut q: FrameQueue<u64> = FrameQueue::new(2);
    assert_eq!(q.capacity(), 2);
    assert_eq!(q.push(10), None);
    assert_eq!(q.push(20), None);
    assert_eq!(q.len(), 2);

    // full: the oldest frame makes room for the newest
    assert_eq!(q.push(30), Some(10));
    assert_eq!(q.len(), 2);

    assert_eq!(q.pop(), Some(20));
    assert_eq!(q.pop(), Some(30));
    assert_eq!(q.pop(), None);
}

#[test]
fn process_group_id_falls_back() {
    let app = Application::new(120, String::from("term"));
    // queried group id is used when the query succeeded
    assert_eq!(app.process_group_id(64), 64);
    // a failed query (-1) falls back to the process id
    assert_eq!(app.process_group_id(-1), 120);
    // a non-positive process id has no group
    let bad = Application::new(0, String::new());
    assert_eq!(bad.process_group_id(64), -1);
}

#[test]
fn is_running_treats_query_failure_as_false() {
    let app = TappableApplication::new(2, 20, String::from("radio"));
    assert!(app.get_is_running(Some(true)));
    assert!(!app.get_is_running(Some(false)));
    assert!(!app.get_is_running(None));
}

#[test]
fn bundle_identifier_prefers_the_application_metadata() {
    let app = TappableApplication::new(2, 20, String::from("radio"));
    assert_eq!(
        app.bundle_identifier(Some(String::from("com.a")), Some(String::from("com.b"))),
        Some(String::from("com.a"))
    );
    assert_eq!(
        app.bundle_identifier(None, Some(String::from("com.b"))),
        Some(String::from("com.b"))
    );
    assert_eq!(app.bundle_identifier(None, None), None);
}

#[test]
fn from_application_copies_the_metadata() {
    let app = Application::new(77, String::from("notes"));
    let tappable = TappableApplication::from_application(&app, 12);
    assert_eq!(tappable.object_id(), 12);
    assert_eq!(tappable.process_id(), 77);
    assert_eq!(tappable.name(), "notes");
}

#[test]
fn error_messages_name_the_failure() {
    assert_eq!(
        CaptureError::Discovery(DiscoveryError { status: -10 }).message(),
        "audio process discovery failed"
    );
    assert_eq!(
        CaptureError::ListenerInstall.message(),
        "failed to add property listener"
    );
    assert_eq!(
        CaptureError::ListenerRemove.message(),
        "failed to remove property listener"
    );
    assert_eq!(
        CaptureError::DeviceConstruction.message(),
        "failed to build aggregate device"
    );
    assert_eq!(
        CaptureError::LockUnavailable.message(),
        "registry lock unavailable"
    );
}

#[test]
fn recording_permissions_start_denied() {
    let perms = media_capture::RecordingPermissions::default();
    assert!(!perms.audio);
    assert!(!perms.screen);
}

#[test]
fn global_capture_excludes_nothing_by_default() {
    let mut session = ShareableContent::tap_global_audio(None, 5, 6);
    assert!(session.is_running());
    assert_eq!(
        session.stop(),
        Some(SessionTeardown { device_id: 5, watcher_id: 6 })
    );
}
