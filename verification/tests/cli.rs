use streambreak::cli::{connect_failure_message, daemon_request, DaemonCommand, HttpMethod, OnSuccess};

#[test]
fn show_with_reason() {
    let r = daemon_request(&DaemonCommand::Show { reason: Some("idle".to_string()) });
    assert_eq!(r.method, HttpMethod::Post);
    assert_eq!(r.url, "http://127.0.0.1:19840/api/show?reason=idle");
    match r.on_success {
        OnSuccess::Print(m) => assert_eq!(m, "Popup shown"),
        _ => panic!(),
    }
}

#[test]
fn hide_without_reason() {
    let r = daemon_request(&DaemonCommand::Hide { reason: None });
    assert_eq!(r.method, HttpMethod::Post);
    assert_eq!(r.url, "http://127.0.0.1:19840/api/hide");
    match r.on_success {
        OnSuccess::Print(m) => assert_eq!(m, "Popup hidden"),
        _ => panic!(),
    }
}

#[test]
fn timer_requests() {
    let r = daemon_request(&DaemonCommand::TimerStart);
    assert_eq!(r.method, HttpMethod::Post);
    assert_eq!(r.url, "http://127.0.0.1:19840/api/timer/start");
    assert!(matches!(r.on_success, OnSuccess::Nothing));
    let r = daemon_request(&DaemonCommand::TimerStatus);
    assert_eq!(r.method, HttpMethod::Get);
    assert_eq!(r.url, "http://127.0.0.1:19840/api/status");
    assert!(matches!(r.on_success, OnSuccess::PrintBody));
}

#[test]
fn failure_message() {
    assert_eq!(connect_failure_message("refused"), "Failed to connect to daemon: refused");
}
