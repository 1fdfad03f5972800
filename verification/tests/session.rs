//! The session state machine: legality of transitions and the release
//! obligation.

use nuitrack_rs::{init, CallBackType, NuiError, RawResult};

fn ok_empty() -> RawResult {
    RawResult { tag: 0, callback_id: 0, skeleton_data: Vec::new(), error_msg: String::new() }
}

fn ok_callback(id: u64) -> RawResult {
    RawResult { tag: 1, callback_id: id, skeleton_data: Vec::new(), error_msg: String::new() }
}

fn failed(msg: &str) -> RawResult {
    RawResult { tag: -1, callback_id: 0, skeleton_data: Vec::new(), error_msg: msg.to_string() }
}

#[test]
fn init_success_is_armed() {
    let nui = init(ok_empty()).expect("init should succeed");
    assert!(nui.state.armed);
    assert_eq!(nui.callbacks.len(), 0);
    assert!(nui.teardown());
}

#[test]
fn init_failure_reports_native_message() {
    let e = init(failed("no device")).err().expect("init should fail");
    assert_eq!(e, NuiError::Failed("no device".to_string()));
    assert_eq!(e.message(), "no device");
}

#[test]
fn run_then_drop_releases_exactly_once() {
    // Counting stub: every teardown that reports release-due counts one
    // native release.  Across init -> run -> drop the count must be one;
    // the initialized value is consumed by run, so its release cannot
    // fire again.
    let mut releases = 0usize;
    let nui = init(ok_empty()).expect("init should succeed");
    let running = nui.run(ok_empty()).ok().expect("run should succeed");
    if running.teardown() {
        releases += 1;
    }
    assert_eq!(releases, 1);
}

#[test]
fn init_then_drop_releases_exactly_once() {
    let mut releases = 0usize;
    let nui = init(ok_empty()).expect("init should succeed");
    if nui.teardown() {
        releases += 1;
    }
    assert_eq!(releases, 1);
}

#[test]
fn failed_run_hands_back_armed_session() {
    let mut releases = 0usize;
    let nui = init(ok_empty()).expect("init should succeed");
    let (nui, e) = nui.run(failed("run refused")).err().expect("run should fail");
    assert_eq!(e, NuiError::Failed("run refused".to_string()));
    // The release obligation survived the failed run.
    assert!(nui.state.armed);
    if nui.teardown() {
        releases += 1;
    }
    assert_eq!(releases, 1);
}

#[test]
fn contained_panic_releases_exactly_once() {
    // A user-callback panic during a live update is contained at the
    // trampoline and forces one immediate native release; the session is
    // then told, so its own teardown must not release again.
    let mut releases = 0usize;
    let nui = init(ok_empty()).expect("init should succeed");
    let mut running = nui.run(ok_empty()).ok().expect("run should succeed");
    // The contained panic performs the release...
    releases += 1;
    // ...and the session records that it happened.
    running.note_released();
    if running.teardown() {
        releases += 1;
    }
    assert_eq!(releases, 1);
}

#[test]
fn callback_registration_stores_handles() {
    let mut nui = init(ok_empty()).expect("init should succeed");
    nui.skeleton_data(ok_callback(7)).expect("registration should succeed");
    nui.depth_data(ok_callback(8)).expect("registration should succeed");
    nui.color_data(ok_callback(9)).expect("registration should succeed");
    assert_eq!(nui.callbacks.len(), 3);
    assert_eq!(nui.callbacks[0].kind, CallBackType::Skeleton);
    assert_eq!(nui.callbacks[0].id, 7);
    assert_eq!(nui.callbacks[1].kind, CallBackType::Depth);
    assert_eq!(nui.callbacks[1].id, 8);
    assert_eq!(nui.callbacks[2].kind, CallBackType::Color);
    assert_eq!(nui.callbacks[2].id, 9);
    // Registrations ride along into the running session.
    let running = nui.run(ok_empty()).ok().expect("run should succeed");
    assert_eq!(running.callbacks.len(), 3);
}

#[test]
fn callback_registration_rejects_wrong_payload() {
    let mut nui = init(ok_empty()).expect("init should succeed");
    let e = nui.skeleton_data(ok_empty()).err().expect("payload without id must be rejected");
    assert_eq!(e, NuiError::BadType);
    assert_eq!(nui.callbacks.len(), 0);
}

#[test]
fn callback_registration_propagates_native_failure() {
    let mut nui = init(ok_empty()).expect("init should succeed");
    let e = nui.depth_data(failed("too many callbacks")).err().expect("failure must propagate");
    assert_eq!(e, NuiError::Failed("too many callbacks".to_string()));
    assert_eq!(nui.callbacks.len(), 0);
}

#[test]
fn camera_rotation_and_update_follow_native_outcome() {
    let nui = init(ok_empty()).expect("init should succeed");
    assert!(nui.set_camera_rotation(ok_empty()).is_ok());
    assert_eq!(
        nui.set_camera_rotation(failed("bad angle")).err(),
        Some(NuiError::Failed("bad angle".to_string()))
    );
    let running = nui.run(ok_empty()).ok().expect("run should succeed");
    assert!(running.update(ok_empty()).is_ok());
    assert_eq!(
        running.update(failed("device lost")).err(),
        Some(NuiError::Failed("device lost".to_string()))
    );
}
