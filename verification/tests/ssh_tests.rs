use oneshell::models::{SshConnectInput, SshProxyInput};
use oneshell::ssh::{
    connected_event, direct_unreachable_message, disconnected_event, preflight_failure_message,
    proxy_unreachable_message, endpoint_string, handshake_failure_context,
    keepalive_error_event, keepalive_event, mock_echo, new_session_id, output_event_bytes,
    output_event_text, preflight_event, proxy_credentials, proxy_message, reader_finished,
    reader_step, resized_event, runtime_capabilities, sanitize_connect_input, session_summary,
    ChannelEvent, ReaderStep, SessionRecord, SessionRegistry, SshError, TransportKind,
};

fn request() -> SshConnectInput {
    SshConnectInput {
        host: " example.com ".to_string(),
        port: 22,
        username: " root ".to_string(),
        password: "pw".to_string(),
        proxy: None,
        term_type: None,
        cols: None,
        rows: None,
        pixel_width: None,
        pixel_height: None,
    }
}

#[test]
fn defaults_and_trimming() {
    let s = sanitize_connect_input(request()).ok().unwrap();
    assert_eq!(s.host, "example.com");
    assert_eq!(s.username, "root");
    assert_eq!(s.password, "pw");
    assert_eq!(s.term_type, "xterm-256color");
    assert_eq!(s.cols, 120);
    assert_eq!(s.rows, 32);
    assert_eq!(s.pixel_width, 0);
    assert!(s.proxy.is_none());
    assert!(!s.proxy_auth_enabled);
}

#[test]
fn terminal_size_has_a_floor() {
    let mut r = request();
    r.cols = Some(10);
    r.rows = Some(3);
    r.term_type = Some("  vt100 ".to_string());
    r.pixel_width = Some(800);
    let s = sanitize_connect_input(r).ok().unwrap();
    assert_eq!(s.cols, 40);
    assert_eq!(s.rows, 12);
    assert_eq!(s.term_type, "vt100");
    assert_eq!(s.pixel_width, 800);
    let mut r = request();
    r.cols = Some(200);
    r.term_type = Some("   ".to_string());
    let s = sanitize_connect_input(r).ok().unwrap();
    assert_eq!(s.cols, 200);
    assert_eq!(s.term_type, "xterm-256color");
}

#[test]
fn request_errors_in_order() {
    let mut r = request();
    r.host = " ".to_string();
    r.username = String::new();
    let e = sanitize_connect_input(r).err().unwrap();
    assert!(matches!(e, SshError::EmptyHost));
    assert_eq!(e.message(), "SSH host cannot be empty");
    let mut r = request();
    r.username = "\n".to_string();
    assert!(matches!(sanitize_connect_input(r).err().unwrap(), SshError::EmptyUsername));
    let mut r = request();
    r.password = String::new();
    let e = sanitize_connect_input(r).err().unwrap();
    assert!(matches!(e, SshError::EmptyPassword));
    assert_eq!(e.message(), "SSH password cannot be empty");
}

#[test]
fn proxy_settings() {
    let mut r = request();
    r.proxy = Some(SshProxyInput {
        host: " 127.0.0.1 ".to_string(),
        port: 1080,
        username: Some("  ".to_string()),
        password: Some(String::new()),
    });
    let s = sanitize_connect_input(r).ok().unwrap();
    let p = s.proxy.as_ref().unwrap();
    assert_eq!(p.host, "127.0.0.1");
    assert_eq!(p.username, None);
    assert_eq!(p.password, None);
    // the request named credentials, so proxy authentication is flagged
    assert!(s.proxy_auth_enabled);
    assert!(proxy_credentials(p).is_none());
    assert_eq!(
        proxy_message(&s),
        "SOCKS5 已配置：127.0.0.1:1080 -> example.com:22"
    );

    let mut r = request();
    r.proxy = Some(SshProxyInput { host: "  ".to_string(), port: 1080, username: Some("u".to_string()), password: Some("p".to_string()) });
    let s = sanitize_connect_input(r).ok().unwrap();
    assert!(s.proxy.is_none());
    assert!(s.proxy_auth_enabled);

    let mut r = request();
    r.proxy = Some(SshProxyInput { host: "px".to_string(), port: 9, username: Some(" u ".to_string()), password: Some("p".to_string()) });
    let s = sanitize_connect_input(r).ok().unwrap();
    let (u, p) = proxy_credentials(s.proxy.as_ref().unwrap()).unwrap();
    assert_eq!(u, "u");
    assert_eq!(p, "p");
}

#[test]
fn texts_of_the_connection() {
    let s = sanitize_connect_input(request()).ok().unwrap();
    assert_eq!(proxy_message(&s), "直连模式：example.com:22");
    let pre = preflight_event(&s);
    assert_eq!(pre.session_id, "pending");
    assert_eq!(pre.state, "preflight");
    assert_eq!(pre.message.as_deref(), Some("正在预检直连 example.com:22"));
    assert_eq!(handshake_failure_context(&s), "SSH 握手失败：root@example.com:22");
    assert_eq!(endpoint_string("h", 65535), "h:65535");
    assert_eq!(endpoint_string("h", 0), "h:0");
}

#[test]
fn transport_texts() {
    assert_eq!(TransportKind::Russh.mode(), "russh-password+pty-shell");
    assert_eq!(TransportKind::MockBridge.mode(), "mock-russh-bridge+preflight");
    assert_eq!(
        TransportKind::Russh.bootstrap_message("直连模式：h:22", "xterm", 120, 32),
        "[oneshell:ssh-bootstrap] 直连模式：h:22\r\n[oneshell:ssh-bootstrap] term=xterm size=120x32\r\n[oneshell:ssh-bootstrap] 已切到 russh 真 SSH transport，PTY 与 shell 已建立。\r\n"
    );
    assert_eq!(TransportKind::Russh.keepalive_message(), "russh keepalive (20s) 已发送");
    let k = keepalive_event("s1", TransportKind::MockBridge);
    assert_eq!(k.state, "keepalive");
    assert_eq!(k.message.as_deref(), Some("mock keepalive tick (20s) 已发出，等待切换到真实 russh transport"));
    let e = keepalive_error_event("s1", "broken pipe");
    assert_eq!(e.state, "keepalive-error");
    assert_eq!(e.message.as_deref(), Some("russh keepalive 失败：broken pipe"));
}

#[test]
fn summary_of_a_session() {
    let mut r = request();
    r.proxy = Some(SshProxyInput { host: "px".to_string(), port: 1080, username: None, password: None });
    let s = sanitize_connect_input(r).ok().unwrap();
    let sum = session_summary("id-9".to_string(), &s, 42, TransportKind::Russh);
    assert_eq!(sum.id, "id-9");
    assert_eq!(sum.proxy_host.as_deref(), Some("px:1080"));
    assert!(!sum.proxy_auth_enabled);
    assert_eq!(sum.connected_at, 42);
    assert_eq!(sum.keep_alive_seconds, 20);
    assert_eq!(sum.transport_mode, "russh-password+pty-shell");
    let c = connected_event(&sum);
    assert_eq!(c.state, "connected");
    assert_eq!(c.message.as_deref(), Some("SSH 会话已建立：root@example.com:22"));
}

fn record(id: &str, kind: TransportKind, tag: u32) -> SessionRecord<u32> {
    let s = sanitize_connect_input(request()).ok().unwrap();
    SessionRecord {
        summary: session_summary(id.to_string(), &s, 1, kind),
        term_type: "xterm".to_string(),
        pixel_width: 0,
        pixel_height: 0,
        kind,
        transport: tag,
    }
}

#[test]
fn registry_open_lookup_resize_remove() {
    let mut reg: SessionRegistry<u32> = SessionRegistry::new();
    assert!(!reg.contains("a"));
    reg.insert(record("a", TransportKind::Russh, 1));
    reg.insert(record("b", TransportKind::MockBridge, 2));
    assert!(reg.contains("a"));
    assert_eq!(reg.get("b").unwrap().transport, 2);
    // replacing keeps one session per id
    reg.insert(record("a", TransportKind::Russh, 3));
    assert_eq!(reg.get("a").unwrap().transport, 3);
    assert_eq!(reg.summaries().len(), 2);

    reg.resize("a", 0, 50, 640, 480).unwrap();
    let a = reg.get("a").unwrap();
    assert_eq!(a.summary.cols, 1);
    assert_eq!(a.summary.rows, 50);
    assert_eq!(a.pixel_width, 640);
    assert_eq!(reg.get("b").unwrap().summary.cols, 120);
    match reg.resize("zz", 1, 1, 0, 0) {
        Err(e) => assert_eq!(e.message(), "SSH session not found: zz"),
        Ok(()) => panic!(),
    }

    let removed = reg.remove("a").unwrap();
    assert_eq!(removed.transport, 3);
    assert!(!reg.contains("a"));
    assert!(reg.remove("a").is_none());
    let left: Vec<String> = reg.summaries().iter().map(|s| s.id.clone()).collect();
    assert_eq!(left, vec!["b".to_string()]);
}

#[test]
fn registry_open_session_reports_connection() {
    let mut reg: SessionRegistry<()> = SessionRegistry::new();
    let s = sanitize_connect_input(request()).ok().unwrap();
    let (sum, ev, out) = reg.open_session("sid".to_string(), &s, 5, TransportKind::Russh, ());
    assert_eq!(sum.id, "sid");
    assert_eq!(ev.session_id, "sid");
    assert_eq!(out.stream, "stdout");
    assert!(out.text.starts_with("[oneshell:ssh-bootstrap] 直连模式：example.com:22\r\n"));
    assert!(reg.contains("sid"));
    assert_eq!(reg.get("sid").unwrap().term_type, "xterm-256color");
}

#[test]
fn input_is_echoed_by_the_stand_in_and_left_to_real_channels() {
    let mut reg: SessionRegistry<u32> = SessionRegistry::new();
    reg.insert(record("m", TransportKind::MockBridge, 0));
    reg.insert(record("r", TransportKind::Russh, 0));
    let echo = reg.input_step("m", "ls\r\n\u{3}").unwrap().unwrap();
    assert_eq!(
        echo.text,
        "[oneshell:ssh-stdin] ls\\r\\n^C\r\n[oneshell:ssh-target] root@example.com:22 (xterm)\r\n"
    );
    assert!(reg.input_step("r", "ls").unwrap().is_none());
    assert!(matches!(reg.input_step("x", "ls"), Err(SshError::SessionNotFound(_))));
}

#[test]
fn mock_echo_escapes_control_characters() {
    let s = sanitize_connect_input(request()).ok().unwrap();
    let sum = session_summary("id".to_string(), &s, 0, TransportKind::MockBridge);
    assert_eq!(
        mock_echo("a\rb", &sum, "vt"),
        "[oneshell:ssh-stdin] a\\rb\r\n[oneshell:ssh-target] root@example.com:22 (vt)\r\n"
    );
}

#[test]
fn channel_messages() {
    match reader_step("s", ChannelEvent::Data(b"hi \xff".to_vec())) {
        ReaderStep::Output(o) => {
            assert_eq!(o.stream, "stdout");
            assert_eq!(o.text, "hi \u{fffd}");
            assert_eq!(o.data_base64, "aGkg/w==");
        }
        _ => panic!(),
    }
    match reader_step("s", ChannelEvent::ExtendedData(b"e".to_vec(), 1)) {
        ReaderStep::Output(o) => assert_eq!(o.stream, "stderr"),
        _ => panic!(),
    }
    match reader_step("s", ChannelEvent::ExtendedData(b"e".to_vec(), 7)) {
        ReaderStep::Output(o) => assert_eq!(o.stream, "extended"),
        _ => panic!(),
    }
    match reader_step("s", ChannelEvent::ExitStatus(127)) {
        ReaderStep::Lifecycle(l) => {
            assert_eq!(l.state, "exit-status");
            assert_eq!(l.message.as_deref(), Some("远端进程退出码：127"));
        }
        _ => panic!(),
    }
    match reader_step("s", ChannelEvent::ExitSignal("TERM".to_string())) {
        ReaderStep::Lifecycle(l) => assert_eq!(l.message.as_deref(), Some("远端收到退出信号：TERM")),
        _ => panic!(),
    }
    match reader_step("s", ChannelEvent::Eof) {
        ReaderStep::Lifecycle(l) => assert_eq!(l.state, "eof"),
        _ => panic!(),
    }
    match reader_step("s", ChannelEvent::OpenFailure("Refused".to_string())) {
        ReaderStep::Lifecycle(l) => {
            assert_eq!(l.state, "error");
            assert_eq!(l.message.as_deref(), Some("SSH channel open failure: Refused"));
        }
        _ => panic!(),
    }
    match reader_step("s", ChannelEvent::Close) {
        ReaderStep::Closed(l) => assert_eq!(l.message.as_deref(), Some("SSH channel 已关闭")),
        _ => panic!(),
    }
    assert!(matches!(reader_step("s", ChannelEvent::Other), ReaderStep::Ignore));
    assert!(reader_finished("s", true).is_none());
    assert_eq!(reader_finished("s", false).unwrap().message.as_deref(), Some("SSH channel 读取循环结束"));
}

#[test]
fn output_event_of_text_carries_base64() {
    let o = output_event_text("s", "stdout", "中");
    assert_eq!(o.text, "中");
    assert_eq!(o.data_base64, "5Lit");
    let b = output_event_bytes("s", "stdout", b"");
    assert_eq!(b.data_base64, "");
}

#[test]
fn lifecycle_texts() {
    let r = resized_event("s", 0, 0, 10, 20);
    assert_eq!(r.state, "resized");
    assert_eq!(r.message.as_deref(), Some("PTY resize -> 1x1 (10x20 px)"));
    let d = disconnected_event("s");
    assert_eq!(d.state, "disconnected");
    assert_eq!(d.message.as_deref(), Some("SSH 会话已从当前 runtime 注销"));
}

#[test]
fn capabilities_and_ids() {
    let c = runtime_capabilities();
    assert_eq!(c.transport_mode, "russh-password+pty-shell");
    assert!(c.supports_socks5_proxy && c.supports_resize && c.supports_keep_alive);
    let id = new_session_id();
    assert_eq!(id.len(), 36);
    assert!(id.chars().all(|c| c == '-' || c.is_ascii_hexdigit() && !c.is_ascii_uppercase()));
    assert_ne!(new_session_id(), id);
}

#[test]
fn network_failure_texts() {
    let mut r = request();
    r.proxy = Some(SshProxyInput { host: "px".to_string(), port: 1080, username: None, password: None });
    let s = sanitize_connect_input(r).ok().unwrap();
    let p = s.proxy.as_ref().unwrap();
    assert_eq!(direct_unreachable_message(&s), "无法连接到 example.com:22");
    assert_eq!(proxy_unreachable_message(p, &s, false), "无法通过 SOCKS5 px:1080 连到 example.com:22");
    assert_eq!(
        proxy_unreachable_message(p, &s, true),
        "无法通过 SOCKS5 px:1080 建立 SSH transport 到 example.com:22"
    );
    assert_eq!(preflight_failure_message("直连超时"), "SSH 网络预检失败: 直连超时");
    let pre = preflight_event(&s);
    assert_eq!(pre.message.as_deref(), Some("正在通过 SOCKS5 预检 px:1080 -> example.com:22"));
}
