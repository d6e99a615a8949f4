use lightctl::control::{
    create_message, process_cmd, ControlRequest, ControlResponse, ControlSession, SessionAction,
    SessionEvent, SessionState, TransportError,
};
use lightctl::device::DeviceRecord;

fn device(identifier: u32, address: &str) -> DeviceRecord {
    DeviceRecord { identifier, address: String::from(address), details: String::new() }
}

fn request(target_id: u32, method: &str, params: &str) -> ControlRequest {
    ControlRequest { target_id, method: String::from(method), params: String::from(params) }
}

#[test]
fn envelope_is_exact() {
    let message = create_message(&3, "set_power", "\"on\"");
    assert_eq!(message, "{\"id\":3,\"method\":\"set_power\",\"params\":[\"on\"]}\r\n");
}

#[test]
fn envelope_inserts_params_verbatim() {
    let message = create_message(&41, "set_bright", "50, \"smooth\", 500");
    assert_eq!(message, "{\"id\":41,\"method\":\"set_bright\",\"params\":[50, \"smooth\", 500]}\r\n");
}

#[test]
fn pow_token_becomes_set_power() {
    let req = process_cmd(3, "pow", "on").expect("the pow token maps to a request");
    assert_eq!(req.target_id, 3);
    assert_eq!(req.method, "set_power");
    assert_eq!(req.params, "\"on\"");
}

#[test]
fn unknown_token_is_silently_ignored() {
    assert!(process_cmd(3, "hue", "200").is_none());
    assert!(process_cmd(0, "", "on").is_none());
}

#[test]
fn session_frames_the_request_up_front() {
    let sess = ControlSession::begin(device(3, "10.0.0.7:55443"), &request(3, "set_power", "\"on\""));
    assert_eq!(sess.state, SessionState::Idle);
    assert_eq!(sess.frame, "{\"id\":3,\"method\":\"set_power\",\"params\":[\"on\"]}\r\n");
    assert_eq!(
        sess.pending_action(),
        SessionAction::Connect(String::from("10.0.0.7:55443"))
    );
}

#[test]
fn connect_failure_aborts_without_write() {
    let sess = ControlSession::begin(
        device(1, "10.0.0.1:55443"),
        &request(1, "set_power", "\"on\""),
    );
    assert_eq!(
        sess.pending_action(),
        SessionAction::Connect(String::from("10.0.0.1:55443"))
    );
    let sess = sess.on_event(SessionEvent::ConnectErr);
    assert_eq!(sess.state, SessionState::Failed(TransportError::ConnectFailed));
    // The failed session asks for no further step, so no write is attempted.
    assert_eq!(sess.pending_action(), SessionAction::Stop);
}

#[test]
fn empty_read_after_write_is_success() {
    let sess = ControlSession::begin(device(2, "10.0.0.2:55443"), &request(2, "set_power", "\"off\""));
    let sess = sess.on_event(SessionEvent::ConnectOk);
    assert_eq!(sess.state, SessionState::Connected);
    let sess = sess.on_event(SessionEvent::WriteOk);
    assert_eq!(sess.state, SessionState::Sent);
    assert_eq!(sess.pending_action(), SessionAction::Read);
    let sess = sess.on_event(SessionEvent::ReadOk(ControlResponse { body: String::new() }));
    assert_eq!(sess.state, SessionState::Done(ControlResponse { body: String::new() }));
    assert_eq!(sess.pending_action(), SessionAction::Stop);
}

#[test]
fn response_body_is_surfaced_verbatim() {
    let sess = ControlSession::begin(device(2, "10.0.0.2:55443"), &request(2, "set_power", "\"on\""));
    let sess = sess.on_event(SessionEvent::ConnectOk);
    let sess = sess.on_event(SessionEvent::WriteOk);
    let body = String::from("{\"id\":2, \"result\":[\"ok\"]}\r\n");
    let sess = sess.on_event(SessionEvent::ReadOk(ControlResponse { body: body.clone() }));
    assert_eq!(sess.state, SessionState::Done(ControlResponse { body }));
}

#[test]
fn write_failure_is_terminal() {
    let sess = ControlSession::begin(device(4, "10.0.0.4:55443"), &request(4, "set_power", "\"on\""));
    let sess = sess.on_event(SessionEvent::ConnectOk);
    let sess = sess.on_event(SessionEvent::WriteErr);
    assert_eq!(sess.state, SessionState::Failed(TransportError::WriteFailed));
    assert_eq!(sess.pending_action(), SessionAction::Stop);
}

#[test]
fn read_failure_after_write_is_read_failed() {
    let sess = ControlSession::begin(device(5, "10.0.0.5:55443"), &request(5, "set_power", "\"on\""));
    let sess = sess.on_event(SessionEvent::ConnectOk);
    let sess = sess.on_event(SessionEvent::WriteOk);
    let sess = sess.on_event(SessionEvent::ReadErr);
    assert_eq!(sess.state, SessionState::Failed(TransportError::ReadFailed));
    assert_eq!(sess.pending_action(), SessionAction::Stop);
}

#[test]
fn failed_sessions_ignore_further_events() {
    let sess = ControlSession::begin(device(6, "10.0.0.6:55443"), &request(6, "set_power", "\"on\""));
    let sess = sess.on_event(SessionEvent::ConnectErr);
    let sess = sess.on_event(SessionEvent::ConnectOk);
    let sess = sess.on_event(SessionEvent::WriteOk);
    assert_eq!(sess.state, SessionState::Failed(TransportError::ConnectFailed));
}

#[test]
fn transport_errors_describe_themselves() {
    assert_eq!(TransportError::ConnectFailed.describe(), "Couldn't start the stream.");
    assert_eq!(TransportError::WriteFailed.describe(), "Couldn't send to the stream");
    assert_eq!(TransportError::ReadFailed.describe(), "Couldn't read from the stream.");
}
