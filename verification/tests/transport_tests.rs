use base64::Engine;
use oneshell::models::{SshConnectInput, SshProxyInput};
use oneshell::ssh::{
    output_event_bytes, output_event_text, sanitize_connect_input, SanitizedConnectInput,
    TransportKind,
};
use oneshell::transport::{
    keepalive_sends, keepalive_step, transport_start, transport_step, KeepaliveAction,
    TransportAction, TransportEvent, TransportPhase,
};

fn checked(proxy: Option<SshProxyInput>) -> SanitizedConnectInput {
    sanitize_connect_input(SshConnectInput {
        host: "example.com".to_string(),
        port: 2222,
        username: "root".to_string(),
        password: "pw".to_string(),
        proxy,
        term_type: Some("vt100".to_string()),
        cols: Some(100),
        rows: Some(40),
        pixel_width: Some(800),
        pixel_height: Some(600),
    })
    .ok()
    .unwrap()
}

fn proxy() -> SshProxyInput {
    SshProxyInput {
        host: "127.0.0.1".to_string(),
        port: 1080,
        username: Some("pu".to_string()),
        password: Some("pp".to_string()),
    }
}

#[test]
fn direct_set_up_runs_every_step_in_order() {
    let state = transport_start(checked(None));
    assert_eq!(state.phase, TransportPhase::Start);
    let (state, action) = transport_step(state, TransportEvent::Begin);
    match action {
        TransportAction::ConnectDirect { host, port } => {
            assert_eq!(host, "example.com");
            assert_eq!(port, 2222);
        }
        _ => panic!(),
    }
    let (state, action) = transport_step(state, TransportEvent::Connected);
    match action {
        TransportAction::Authenticate { username, password } => {
            assert_eq!(username, "root");
            assert_eq!(password, "pw");
        }
        _ => panic!(),
    }
    let (state, action) = transport_step(state, TransportEvent::AuthAnswered(true));
    assert!(matches!(action, TransportAction::OpenChannel));
    let (state, action) = transport_step(state, TransportEvent::ChannelOpened);
    match action {
        TransportAction::RequestPty { term_type, cols, rows, pixel_width, pixel_height } => {
            assert_eq!(term_type, "vt100");
            assert_eq!((cols, rows, pixel_width, pixel_height), (100, 40, 800, 600));
        }
        _ => panic!(),
    }
    let (state, action) = transport_step(state, TransportEvent::PtyGranted);
    assert!(matches!(action, TransportAction::RequestShell));
    let (state, action) = transport_step(state, TransportEvent::ShellStarted);
    assert!(matches!(action, TransportAction::Finish));
    assert_eq!(state.phase, TransportPhase::Ready);
}

#[test]
fn proxied_set_up_opens_the_socks_stream_first() {
    let state = transport_start(checked(Some(proxy())));
    let (state, action) = transport_step(state, TransportEvent::Begin);
    match action {
        TransportAction::OpenProxy { proxy_host, proxy_port, target_host, target_port, credentials } => {
            assert_eq!(proxy_host, "127.0.0.1");
            assert_eq!(proxy_port, 1080);
            assert_eq!(target_host, "example.com");
            assert_eq!(target_port, 2222);
            assert_eq!(credentials, Some(("pu".to_string(), "pp".to_string())));
        }
        _ => panic!(),
    }
    assert_eq!(state.phase, TransportPhase::OpeningProxy);
    let (state, action) = transport_step(state, TransportEvent::ProxyOpened);
    assert!(matches!(action, TransportAction::ConnectOverProxy));
    let (_, action) = transport_step(state, TransportEvent::ConnectFailed("reset".to_string()));
    match action {
        TransportAction::Fail { context, detail } => {
            assert_eq!(context, "russh proxy transport connect_stream failed");
            assert_eq!(detail.as_deref(), Some("reset"));
        }
        _ => panic!(),
    }
}

#[test]
fn proxy_failures_name_the_hop() {
    let state = transport_start(checked(Some(proxy())));
    let (state, _) = transport_step(state, TransportEvent::Begin);
    let (after, action) = transport_step(state, TransportEvent::ProxyFailed("refused".to_string()));
    assert_eq!(after.phase, TransportPhase::Failed);
    match action {
        TransportAction::Fail { context, detail } => {
            assert_eq!(context, "无法通过 SOCKS5 127.0.0.1:1080 建立 SSH transport 到 example.com:2222");
            assert_eq!(detail.as_deref(), Some("refused"));
        }
        _ => panic!(),
    }
    let state = transport_start(checked(Some(proxy())));
    let (state, _) = transport_step(state, TransportEvent::Begin);
    let (_, action) = transport_step(state, TransportEvent::ProxyTimedOut);
    match action {
        TransportAction::Fail { context, detail } => {
            assert_eq!(context, "SOCKS5 代理 SSH transport 连接超时");
            assert!(detail.is_none());
        }
        _ => panic!(),
    }
}

#[test]
fn refused_password_fails_the_set_up() {
    let state = transport_start(checked(None));
    let (state, _) = transport_step(state, TransportEvent::Begin);
    let (state, _) = transport_step(state, TransportEvent::Connected);
    let (state, action) = transport_step(state, TransportEvent::AuthAnswered(false));
    assert_eq!(state.phase, TransportPhase::Failed);
    match action {
        TransportAction::Fail { context, detail } => {
            assert_eq!(context, "SSH 密码认证失败");
            assert!(detail.is_none());
        }
        _ => panic!(),
    }
}

#[test]
fn each_step_failure_has_its_context() {
    let state = transport_start(checked(None));
    let (state, _) = transport_step(state, TransportEvent::Begin);
    let (_, action) = transport_step(state, TransportEvent::ConnectFailed("x".to_string()));
    assert!(matches!(action, TransportAction::Fail { ref context, .. } if context == "russh direct transport connect failed"));
    let state = transport_start(checked(None));
    let (state, _) = transport_step(state, TransportEvent::Begin);
    let (state, _) = transport_step(state, TransportEvent::Connected);
    let (_, action) = transport_step(state, TransportEvent::AuthFailed("x".to_string()));
    assert!(matches!(action, TransportAction::Fail { ref context, .. } if context == "russh password authentication failed to execute"));
    let state = transport_start(checked(None));
    let (state, _) = transport_step(state, TransportEvent::Begin);
    let (state, _) = transport_step(state, TransportEvent::Connected);
    let (state, _) = transport_step(state, TransportEvent::AuthAnswered(true));
    let (_, action) = transport_step(state, TransportEvent::ChannelFailed("x".to_string()));
    assert!(matches!(action, TransportAction::Fail { ref context, .. } if context == "failed to open ssh session channel"));
}

#[test]
fn pty_and_shell_failures_have_their_context() {
    let state = transport_start(checked(None));
    let (state, _) = transport_step(state, TransportEvent::Begin);
    let (state, _) = transport_step(state, TransportEvent::Connected);
    let (state, _) = transport_step(state, TransportEvent::AuthAnswered(true));
    let (state, _) = transport_step(state, TransportEvent::ChannelOpened);
    let (after, action) = transport_step(state, TransportEvent::PtyFailed("x".to_string()));
    assert_eq!(after.phase, TransportPhase::Failed);
    assert!(matches!(action, TransportAction::Fail { ref context, .. } if context == "failed to request ssh pty"));
    let state = transport_start(checked(None));
    let (state, _) = transport_step(state, TransportEvent::Begin);
    let (state, _) = transport_step(state, TransportEvent::Connected);
    let (state, _) = transport_step(state, TransportEvent::AuthAnswered(true));
    let (state, _) = transport_step(state, TransportEvent::ChannelOpened);
    let (state, _) = transport_step(state, TransportEvent::PtyGranted);
    let (_, action) = transport_step(state, TransportEvent::ShellFailed("x".to_string()));
    assert!(matches!(action, TransportAction::Fail { ref context, .. } if context == "failed to request interactive shell"));
}

#[test]
fn an_event_out_of_turn_changes_nothing() {
    let state = transport_start(checked(None));
    let (state, action) = transport_step(state, TransportEvent::ShellStarted);
    assert_eq!(state.phase, TransportPhase::Start);
    assert!(matches!(action, TransportAction::Nothing));
}

#[test]
fn keepalive_decisions() {
    assert!(matches!(keepalive_step("s", TransportKind::Russh, false, None), KeepaliveAction::Stop));
    assert!(matches!(
        keepalive_step("s", TransportKind::Russh, false, Some("e".to_string())),
        KeepaliveAction::Stop
    ));
    match keepalive_step("s", TransportKind::Russh, true, Some("broken pipe".to_string())) {
        KeepaliveAction::StopWith(l) => {
            assert_eq!(l.session_id, "s");
            assert_eq!(l.state, "keepalive-error");
            assert_eq!(l.message.as_deref(), Some("russh keepalive 失败：broken pipe"));
        }
        _ => panic!(),
    }
    match keepalive_step("s", TransportKind::Russh, true, None) {
        KeepaliveAction::Continue(l) => {
            assert_eq!(l.state, "keepalive");
            assert_eq!(l.message.as_deref(), Some("russh keepalive (20s) 已发送"));
        }
        _ => panic!(),
    }
    match keepalive_step("s", TransportKind::MockBridge, true, None) {
        KeepaliveAction::Continue(l) => assert_eq!(
            l.message.as_deref(),
            Some("mock keepalive tick (20s) 已发出，等待切换到真实 russh transport")
        ),
        _ => panic!(),
    }
    assert!(keepalive_sends(TransportKind::Russh));
    assert!(!keepalive_sends(TransportKind::MockBridge));
}

#[test]
fn output_base64_decodes_to_the_raw_bytes() {
    let raw = vec![0u8, 159, 146, 150, 255, b'a'];
    let o = output_event_bytes("s", "stdout", &raw);
    let back = base64::engine::general_purpose::STANDARD.decode(&o.data_base64).unwrap();
    assert_eq!(back, raw);
    let o = output_event_text("s", "stdout", "héllo\r\n");
    let back = base64::engine::general_purpose::STANDARD.decode(&o.data_base64).unwrap();
    assert_eq!(back, "héllo\r\n".as_bytes());
}
