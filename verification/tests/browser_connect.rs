use arc_devtools::browser::{
    arc_port, ensure_page, parse_devtools_active_port, probe_arc, resolve_ws_url, ActivePortError,
    EndpointReply, ProbeOutcome, WsSource,
};
use arc_devtools::connect::{ArcConnect, ConnectAction, ConnectError, ConnectEvent};
use arc_devtools::json::{Json, JsonNumber};

fn s(x: &str) -> Json {
    Json::Str(x.to_string())
}

fn obj(members: Vec<(&str, Json)>) -> Json {
    Json::Object(members.into_iter().map(|(k, v)| (k.to_string(), v)).collect())
}

fn num(i: i64) -> Json {
    Json::Number(JsonNumber { as_i64: Some(i), as_u64: u64::try_from(i).ok(), text: i.to_string() })
}

#[test]
fn explicit_endpoint_wins() {
    match resolve_ws_url(Some("ws://x/devtools"), Some("/tmp/p")) {
        WsSource::Endpoint(u) => assert_eq!(u, "ws://x/devtools"),
        _ => panic!("expected the endpoint"),
    }
    match resolve_ws_url(None, Some("/tmp/p")) {
        WsSource::ActivePortFile(d) => assert_eq!(d, "/tmp/p"),
        _ => panic!("expected the user-data dir"),
    }
    assert!(matches!(resolve_ws_url(None, None), WsSource::ManagedArc));
}

#[test]
fn port_setting_overrides_default() {
    assert_eq!(arc_port(None), 9223);
    assert_eq!(arc_port(Some(" 9333\n")), 9333);
    assert_eq!(arc_port(Some("nine")), 9223);
    assert_eq!(arc_port(Some("70000")), 9223);
    assert_eq!(arc_port(Some("")), 9223);
}

#[test]
fn active_port_file_gives_url() {
    match parse_devtools_active_port("9222\n/devtools/browser/abc\n") {
        Ok(u) => assert_eq!(u, "ws://127.0.0.1:9222/devtools/browser/abc"),
        Err(_) => panic!("expected a URL"),
    }
    match parse_devtools_active_port("\n  +0042 \r\n\n /devtools/browser/x \r\n") {
        Ok(u) => assert_eq!(u, "ws://127.0.0.1:42/devtools/browser/x"),
        Err(_) => panic!("expected a URL"),
    }
}

#[test]
fn active_port_file_errors() {
    match parse_devtools_active_port("  9222  \n") {
        Err(ActivePortError::MissingLines(t)) => assert_eq!(t, "9222"),
        _ => panic!("expected missing lines"),
    }
    match parse_devtools_active_port("port\n/p") {
        Err(ActivePortError::InvalidPort(l)) => assert_eq!(l, "port"),
        _ => panic!("expected an invalid port"),
    }
    assert!(matches!(parse_devtools_active_port("0\n/p"), Err(ActivePortError::PortZero)));
    assert!(matches!(parse_devtools_active_port("65536\n/p"), Err(ActivePortError::InvalidPort(_))));
}

#[test]
fn probe_reads_debugger_url() {
    let up = EndpointReply::Json(obj(vec![("Browser", s("Chrome")), ("webSocketDebuggerUrl", s("ws://127.0.0.1:9223/b"))]));
    match probe_arc(&up) {
        ProbeOutcome::Up(ws) => assert_eq!(ws, "ws://127.0.0.1:9223/b"),
        _ => panic!("expected up"),
    }
    assert!(matches!(probe_arc(&EndpointReply::Unreachable), ProbeOutcome::Down));
    assert!(matches!(probe_arc(&EndpointReply::NotJson), ProbeOutcome::NotDevtools));
    let no_url = EndpointReply::Json(obj(vec![("webSocketDebuggerUrl", num(3))]));
    assert!(matches!(probe_arc(&no_url), ProbeOutcome::NoDebuggerUrl));
}

#[test]
fn blank_page_only_when_list_has_no_page() {
    let list = |types: Vec<&str>| {
        EndpointReply::Json(Json::Array(types.into_iter().map(|t| obj(vec![("type", s(t))])).collect()))
    };
    assert!(ensure_page(&list(vec!["service_worker", "background_page"])));
    assert!(ensure_page(&list(vec![])));
    assert!(!ensure_page(&list(vec!["other", "page"])));
    assert!(!ensure_page(&EndpointReply::Unreachable));
    assert!(!ensure_page(&EndpointReply::NotJson));
    assert!(!ensure_page(&EndpointReply::Json(obj(vec![]))));
}

fn step(c: &mut ArcConnect, e: ConnectEvent) -> ConnectAction {
    assert!(c.accepts(&e));
    c.step(e)
}

#[test]
fn running_debug_port_is_used_directly() {
    let mut c = ArcConnect::new(true);
    assert!(matches!(step(&mut c, ConnectEvent::Begin), ConnectAction::Probe));
    let a = step(&mut c, ConnectEvent::Probed { outcome: ProbeOutcome::Up("ws://u".to_string()), now_ms: 5 });
    match a {
        ConnectAction::Connect(ws) => assert_eq!(ws, "ws://u"),
        _ => panic!("expected connect"),
    }
    assert!(!c.accepts(&ConnectEvent::Slept));
}

#[test]
fn foreign_port_leaves_arc_alone() {
    let mut c = ArcConnect::new(true);
    step(&mut c, ConnectEvent::Begin);
    let a = step(&mut c, ConnectEvent::Probed { outcome: ProbeOutcome::NotDevtools, now_ms: 0 });
    assert!(matches!(a, ConnectAction::Fail(ConnectError::PortNotDevtools)));
}

#[test]
fn running_arc_is_quit_and_relaunched() {
    let mut c = ArcConnect::new(true);
    step(&mut c, ConnectEvent::Begin);
    assert!(matches!(step(&mut c, ConnectEvent::Probed { outcome: ProbeOutcome::Down, now_ms: 0 }), ConnectAction::CheckInstalled));
    assert!(matches!(step(&mut c, ConnectEvent::Installed(true)), ConnectAction::CheckRunning));
    assert!(matches!(step(&mut c, ConnectEvent::Running { running: true, now_ms: 10 }), ConnectAction::QuitArc));
    assert!(matches!(step(&mut c, ConnectEvent::QuitRequested { now_ms: 100 }), ConnectAction::CheckRunning));
    assert!(matches!(step(&mut c, ConnectEvent::Running { running: true, now_ms: 200 }), ConnectAction::Sleep(250)));
    assert!(matches!(step(&mut c, ConnectEvent::Slept), ConnectAction::CheckRunning));
    assert!(matches!(step(&mut c, ConnectEvent::Running { running: false, now_ms: 450 }), ConnectAction::CheckRunning));
    assert!(matches!(step(&mut c, ConnectEvent::Running { running: false, now_ms: 460 }), ConnectAction::Launch));
    assert!(matches!(step(&mut c, ConnectEvent::Launched { error: None, now_ms: 1000 }), ConnectAction::Probe));
    assert!(matches!(step(&mut c, ConnectEvent::Probed { outcome: ProbeOutcome::Down, now_ms: 26000 }), ConnectAction::Sleep(250)));
    assert!(matches!(step(&mut c, ConnectEvent::Slept), ConnectAction::Probe));
    match step(&mut c, ConnectEvent::Probed { outcome: ProbeOutcome::Up("ws://v".to_string()), now_ms: 26300 }) {
        ConnectAction::Connect(ws) => assert_eq!(ws, "ws://v"),
        _ => panic!("expected connect"),
    }
}

#[test]
fn arc_that_will_not_quit_fails() {
    let mut c = ArcConnect::new(true);
    step(&mut c, ConnectEvent::Begin);
    step(&mut c, ConnectEvent::Probed { outcome: ProbeOutcome::Down, now_ms: 0 });
    step(&mut c, ConnectEvent::Installed(true));
    step(&mut c, ConnectEvent::Running { running: true, now_ms: 0 });
    step(&mut c, ConnectEvent::QuitRequested { now_ms: 0 });
    assert!(matches!(step(&mut c, ConnectEvent::Running { running: true, now_ms: 10000 }), ConnectAction::CheckRunning));
    assert!(matches!(step(&mut c, ConnectEvent::Running { running: true, now_ms: 10001 }), ConnectAction::Fail(ConnectError::DidNotQuit)));
}

#[test]
fn launch_problems_fail() {
    let mut c = ArcConnect::new(false);
    step(&mut c, ConnectEvent::Begin);
    assert!(matches!(step(&mut c, ConnectEvent::Probed { outcome: ProbeOutcome::Down, now_ms: 0 }), ConnectAction::Fail(ConnectError::LaunchUnsupported)));

    let mut d = ArcConnect::new(true);
    step(&mut d, ConnectEvent::Begin);
    step(&mut d, ConnectEvent::Probed { outcome: ProbeOutcome::Down, now_ms: 0 });
    assert!(matches!(step(&mut d, ConnectEvent::Installed(false)), ConnectAction::Fail(ConnectError::NotInstalled)));

    let mut e = ArcConnect::new(true);
    step(&mut e, ConnectEvent::Begin);
    step(&mut e, ConnectEvent::Probed { outcome: ProbeOutcome::Down, now_ms: 0 });
    step(&mut e, ConnectEvent::Installed(true));
    step(&mut e, ConnectEvent::Running { running: false, now_ms: 0 });
    match step(&mut e, ConnectEvent::Launched { error: Some("denied".to_string()), now_ms: 0 }) {
        ConnectAction::Fail(ConnectError::LaunchFailed(m)) => assert_eq!(m, "denied"),
        _ => panic!("expected a launch failure"),
    }
}

#[test]
fn relaunched_arc_times_out_after_25_seconds() {
    let mut c = ArcConnect::new(true);
    step(&mut c, ConnectEvent::Begin);
    step(&mut c, ConnectEvent::Probed { outcome: ProbeOutcome::Down, now_ms: 0 });
    step(&mut c, ConnectEvent::Installed(true));
    step(&mut c, ConnectEvent::Running { running: false, now_ms: 0 });
    step(&mut c, ConnectEvent::Launched { error: None, now_ms: 1000 });
    assert!(matches!(step(&mut c, ConnectEvent::Probed { outcome: ProbeOutcome::Down, now_ms: 26000 }), ConnectAction::Sleep(250)));
    step(&mut c, ConnectEvent::Slept);
    assert!(matches!(step(&mut c, ConnectEvent::Probed { outcome: ProbeOutcome::Down, now_ms: 26001 }), ConnectAction::Fail(ConnectError::Timeout)));
}
