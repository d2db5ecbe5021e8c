//! The SSH session runtime's decisions: checking a connection request, the
//! texts and events the runtime reports, the registry of open sessions, and
//! what each message from a remote channel turns into.
//!
//! The network work itself (TCP, SOCKS5, the SSH handshake, the channel)
//! is done by the caller, which feeds what it observes back in here.
use vstd::prelude::*;
use crate::text::{
    chars_of, push_chars, push_str, string_from_chars, trim, trim_str, trim_chars, chars_eq_str,
    decimal, decimal_chars, replace_char, replace_char_chars,
};
use crate::models::{SshConnectInput, SshProxyInput, SshSessionSummary, SshLifecycleEvent, SshOutputEvent, SshRuntimeCapabilities, copy_opt_string};
use crate::db::opt_view;
use crate::fresh::{new_uuid_v4, is_uuid_v4_text};
use crate::crypto::{base64_encode, base64_decode, base64_encode_bytes, Base64Fault};
use vstd::utf8::encode_utf8;

verus! {

/// Event name under which session output is pushed.
pub const SSH_OUTPUT_EVENT: &'static str = "ssh-output";

/// Event name under which session state changes are pushed.
pub const SSH_LIFECYCLE_EVENT: &'static str = "ssh-lifecycle";

/// Seconds between keep-alive messages.
pub const KEEP_ALIVE_SECONDS: u64 = 20;

/// Seconds allowed for a network connection attempt.
pub const CONNECT_TIMEOUT_SECONDS: u64 = 8;

/// Terminal type used where the request names none.
pub const DEFAULT_TERM_TYPE: &'static str = "xterm-256color";

/// Proxy settings after checking.
pub struct SanitizedProxyConfig {
    pub host: String,
    pub port: u16,
    pub username: Option<String>,
    pub password: Option<String>,
}

/// A connection request after checking.
pub struct SanitizedConnectInput {
    pub host: String,
    pub port: u16,
    pub username: String,
    pub password: String,
    pub proxy: Option<SanitizedProxyConfig>,
    pub proxy_auth_enabled: bool,
    pub term_type: String,
    pub cols: u32,
    pub rows: u32,
    pub pixel_width: u32,
    pub pixel_height: u32,
}

impl SanitizedProxyConfig {
    /// A field-by-field copy.
    pub fn duplicate(&self) -> (res: SanitizedProxyConfig)
        ensures
            res == *self,
    {
        SanitizedProxyConfig {
            host: self.host.clone(),
            port: self.port,
            username: copy_opt_string(&self.username),
            password: copy_opt_string(&self.password),
        }
    }
}

impl SanitizedConnectInput {
    /// A field-by-field copy.
    pub fn duplicate(&self) -> (res: SanitizedConnectInput)
        ensures
            res == *self,
    {
        SanitizedConnectInput {
            host: self.host.clone(),
            port: self.port,
            username: self.username.clone(),
            password: self.password.clone(),
            proxy: match &self.proxy {
                Some(p) => Some(p.duplicate()),
                None => None,
            },
            proxy_auth_enabled: self.proxy_auth_enabled,
            term_type: self.term_type.clone(),
            cols: self.cols,
            rows: self.rows,
            pixel_width: self.pixel_width,
            pixel_height: self.pixel_height,
        }
    }
}

/// Why a session request was refused.
#[derive(Debug)]
pub enum SshError {
    /// The host is empty once trimmed.
    EmptyHost,
    /// The user name is empty once trimmed.
    EmptyUsername,
    /// The password is empty.
    EmptyPassword,
    /// No open session has the given id.
    SessionNotFound(String),
}

impl SshError {
    /// The message that the error is reported with.
    pub fn message(&self) -> (res: String)
        ensures
            res@ == self.spec_message(),
    {
        match self {
            SshError::EmptyHost => "SSH host cannot be empty".to_owned(),
            SshError::EmptyUsername => "SSH username cannot be empty".to_owned(),
            SshError::EmptyPassword => "SSH password cannot be empty".to_owned(),
            SshError::SessionNotFound(id) => {
                let mut out: Vec<char> = Vec::new();
                push_str(&mut out, "SSH session not found: ");
                push_str(&mut out, id.as_str());
                string_from_chars(&out)
            },
        }
    }

    /// The message text of each error.
    pub open spec fn spec_message(&self) -> Seq<char> {
        match self {
            SshError::EmptyHost => "SSH host cannot be empty"@,
            SshError::EmptyUsername => "SSH username cannot be empty"@,
            SshError::EmptyPassword => "SSH password cannot be empty"@,
            SshError::SessionNotFound(id) => "SSH session not found: "@ + id@,
        }
    }
}

/// An optional text trimmed, and dropped where nothing is left.
pub open spec fn trimmed_nonempty(s: Option<Seq<char>>) -> Option<Seq<char>> {
    match s {
        Some(v) => if trim(v).len() == 0 {
            None
        } else {
            Some(trim(v))
        },
        None => None,
    }
}

/// An optional text dropped where it is empty.
pub open spec fn nonempty(s: Option<Seq<char>>) -> Option<Seq<char>> {
    match s {
        Some(v) => if v.len() == 0 {
            None
        } else {
            Some(v)
        },
        None => None,
    }
}

/// The first check that a request fails, in the order host, user name,
/// password.
pub open spec fn connect_defect(input: SshConnectInput) -> Option<SshError> {
    if trim(input.host@).len() == 0 {
        Some(SshError::EmptyHost)
    } else if trim(input.username@).len() == 0 {
        Some(SshError::EmptyUsername)
    } else if input.password@.len() == 0 {
        Some(SshError::EmptyPassword)
    } else {
        None
    }
}

/// `p` is what the checks make of proxy settings `q`: host and user name
/// trimmed, an empty user name or password dropped.
pub open spec fn proxy_from(p: SanitizedProxyConfig, q: SshProxyInput) -> bool {
    &&& p.host@ == trim(q.host@)
    &&& p.port == q.port
    &&& opt_view(p.username) == trimmed_nonempty(opt_view(q.username))
    &&& opt_view(p.password) == nonempty(opt_view(q.password))
}

/// The larger of two numbers.
pub open spec fn max_u32(a: u32, b: u32) -> u32 {
    if a >= b {
        a
    } else {
        b
    }
}

/// An optional number, or a default.
pub open spec fn or_default(v: Option<u32>, d: u32) -> u32 {
    match v {
        Some(x) => x,
        None => d,
    }
}

/// `s` is what the checks make of request `input`: host and user name
/// trimmed, the password as given, a proxy kept only where its trimmed host
/// is not empty, proxy authentication flagged where the request gives a
/// proxy user name or password at all, the terminal type trimmed (or
/// `xterm-256color`), at least 40 columns (120 by default) and 12 rows
/// (32 by default), and pixel sizes 0 by default.
pub open spec fn connect_from(s: SanitizedConnectInput, input: SshConnectInput) -> bool {
    &&& s.host@ == trim(input.host@)
    &&& s.port == input.port
    &&& s.username@ == trim(input.username@)
    &&& s.password@ == input.password@
    &&& match input.proxy {
        Some(q) => if trim(q.host@).len() == 0 {
            s.proxy is None
        } else {
            s.proxy matches Some(p) && proxy_from(p, q)
        },
        None => s.proxy is None,
    }
    &&& s.proxy_auth_enabled == (input.proxy matches Some(q) && (q.username is Some || q.password is Some))
    &&& s.term_type@ == match trimmed_nonempty(opt_view(input.term_type)) {
        Some(t) => t,
        None => DEFAULT_TERM_TYPE@,
    }
    &&& s.cols == max_u32(or_default(input.cols, 120), 40)
    &&& s.rows == max_u32(or_default(input.rows, 32), 12)
    &&& s.pixel_width == or_default(input.pixel_width, 0)
    &&& s.pixel_height == or_default(input.pixel_height, 0)
}

fn trim_opt(s: &Option<String>) -> (res: Option<String>)
    ensures
        opt_view(res) == trimmed_nonempty(opt_view(*s)),
{
    match s {
        Some(v) => {
            let t = trim_str(v.as_str());
            if t.as_str().is_empty() {
                None
            } else {
                Some(t)
            }
        },
        None => None,
    }
}

fn drop_empty(s: Option<String>) -> (res: Option<String>)
    ensures
        opt_view(res) == nonempty(opt_view(s)),
{
    match s {
        Some(v) => if v.as_str().is_empty() {
            None
        } else {
            Some(v)
        },
        None => None,
    }
}

/// Checks a connection request.
pub fn sanitize_connect_input(input: SshConnectInput) -> (res: Result<SanitizedConnectInput, SshError>)
    ensures
        match res {
            Ok(s) => connect_defect(input) is None && connect_from(s, input),
            Err(e) => connect_defect(input) == Some(e),
        },
{
    let host = trim_str(input.host.as_str());
    let username = trim_str(input.username.as_str());
    let term_type = match trim_opt(&input.term_type) {
        Some(t) => t,
        None => DEFAULT_TERM_TYPE.to_owned(),
    };
    if host.as_str().is_empty() {
        return Err(SshError::EmptyHost);
    }
    if username.as_str().is_empty() {
        return Err(SshError::EmptyUsername);
    }
    if input.password.as_str().is_empty() {
        return Err(SshError::EmptyPassword);
    }
    let proxy_auth_enabled = match &input.proxy {
        Some(q) => q.username.is_some() || q.password.is_some(),
        None => false,
    };
    let proxy = match input.proxy {
        Some(q) => {
            let phost = trim_str(q.host.as_str());
            if phost.as_str().is_empty() {
                None
            } else {
                let puser = trim_opt(&q.username);
                Some(SanitizedProxyConfig {
                    host: phost,
                    port: q.port,
                    username: puser,
                    password: drop_empty(q.password),
                })
            }
        },
        None => None,
    };
    let cols = match input.cols {
        Some(c) => c,
        None => 120,
    };
    let rows = match input.rows {
        Some(r) => r,
        None => 32,
    };
    Ok(SanitizedConnectInput {
        host,
        port: input.port,
        username,
        password: input.password,
        proxy,
        proxy_auth_enabled,
        term_type,
        cols: if cols >= 40 {
            cols
        } else {
            40
        },
        rows: if rows >= 12 {
            rows
        } else {
            12
        },
        pixel_width: match input.pixel_width {
            Some(w) => w,
            None => 0,
        },
        pixel_height: match input.pixel_height {
            Some(h) => h,
            None => 0,
        },
    })
}

/// `host:port`.
pub open spec fn endpoint(host: Seq<char>, port: u16) -> Seq<char> {
    host + ":"@ + decimal(port as nat)
}

/// Appends `host:port`.
fn push_endpoint(out: &mut Vec<char>, host: &str, port: u16)
    ensures
        final(out)@ == old(out)@ + endpoint(host@, port),
{
    push_str(out, host);
    push_str(out, ":");
    let d = decimal_chars(port as u64);
    push_chars(out, &d);
}

/// `host:port` as a string.
pub fn endpoint_string(host: &str, port: u16) -> (res: String)
    ensures
        res@ == endpoint(host@, port),
{
    let mut out: Vec<char> = Vec::new();
    push_endpoint(&mut out, host, port);
    assert(out@ =~= endpoint(host@, port));
    string_from_chars(&out)
}

/// The message of the preflight event: the proxy hop and the target, or the
/// direct target.
pub open spec fn preflight_text(s: SanitizedConnectInput) -> Seq<char> {
    match s.proxy {
        Some(p) => "正在通过 SOCKS5 预检 "@ + endpoint(p.host@, p.port) + " -> "@ + endpoint(s.host@, s.port),
        None => "正在预检直连 "@ + endpoint(s.host@, s.port),
    }
}

/// The connection route as shown in the session's first output.
pub open spec fn route_text(s: SanitizedConnectInput) -> Seq<char> {
    match s.proxy {
        Some(p) => "SOCKS5 已配置："@ + endpoint(p.host@, p.port) + " -> "@ + endpoint(s.host@, s.port),
        None => "直连模式："@ + endpoint(s.host@, s.port),
    }
}

/// The message of the preflight event.
pub fn preflight_message(s: &SanitizedConnectInput) -> (res: String)
    ensures
        res@ == preflight_text(*s),
{
    let mut out: Vec<char> = Vec::new();
    match &s.proxy {
        Some(p) => {
            push_str(&mut out, "正在通过 SOCKS5 预检 ");
            push_endpoint(&mut out, p.host.as_str(), p.port);
            push_str(&mut out, " -> ");
            push_endpoint(&mut out, s.host.as_str(), s.port);
        },
        None => {
            push_str(&mut out, "正在预检直连 ");
            push_endpoint(&mut out, s.host.as_str(), s.port);
        },
    }
    assert(out@ =~= preflight_text(*s));
    string_from_chars(&out)
}

/// The connection route as shown in the session's first output.
pub fn proxy_message(s: &SanitizedConnectInput) -> (res: String)
    ensures
        res@ == route_text(*s),
{
    let mut out: Vec<char> = Vec::new();
    match &s.proxy {
        Some(p) => {
            push_str(&mut out, "SOCKS5 已配置：");
            push_endpoint(&mut out, p.host.as_str(), p.port);
            push_str(&mut out, " -> ");
            push_endpoint(&mut out, s.host.as_str(), s.port);
        },
        None => {
            push_str(&mut out, "直连模式：");
            push_endpoint(&mut out, s.host.as_str(), s.port);
        },
    }
    assert(out@ =~= route_text(*s));
    string_from_chars(&out)
}

/// `user@host:port`.
pub open spec fn account_text(username: Seq<char>, host: Seq<char>, port: u16) -> Seq<char> {
    username + "@"@ + endpoint(host, port)
}

/// `prefix` followed by `user@host:port`.
pub fn account_message(prefix: &str, username: &str, host: &str, port: u16) -> (res: String)
    ensures
        res@ == prefix@ + account_text(username@, host@, port),
{
    let mut out: Vec<char> = Vec::new();
    push_str(&mut out, prefix);
    push_str(&mut out, username);
    push_str(&mut out, "@");
    push_endpoint(&mut out, host, port);
    assert(out@ =~= prefix@ + account_text(username@, host@, port));
    string_from_chars(&out)
}

/// The context given to a failed SSH handshake.
pub fn handshake_failure_context(s: &SanitizedConnectInput) -> (res: String)
    ensures
        res@ == "SSH 握手失败："@ + account_text(s.username@, s.host@, s.port),
{
    account_message("SSH 握手失败：", s.username.as_str(), s.host.as_str(), s.port)
}

/// How a session is carried.
#[derive(Debug, Clone, Copy, PartialEq, Eq, Structural)]
pub enum TransportKind {
    /// A stand-in that echoes input back.
    MockBridge,
    /// A real SSH channel with a PTY and a shell.
    Russh,
}

/// The mode name of a transport.
pub open spec fn mode_text(kind: TransportKind) -> Seq<char> {
    match kind {
        TransportKind::MockBridge => "mock-russh-bridge+preflight"@,
        TransportKind::Russh => "russh-password+pty-shell"@,
    }
}

/// The text that opens a session's output: the route, the terminal type and
/// size, and a line about the transport.
pub open spec fn bootstrap_text(kind: TransportKind, route: Seq<char>, term_type: Seq<char>, cols: u32, rows: u32) -> Seq<char> {
    "[oneshell:ssh-bootstrap] "@ + route + "\r\n[oneshell:ssh-bootstrap] term="@ + term_type + " size="@
        + decimal(cols as nat) + "x"@ + decimal(rows as nat) + "\r\n[oneshell:ssh-bootstrap] "@
        + match kind {
        TransportKind::MockBridge => "当前为 mock transport，下一步将替换成 russh 真正传输层。"@,
        TransportKind::Russh => "已切到 russh 真 SSH transport，PTY 与 shell 已建立。"@,
    } + "\r\n"@
}

/// The message of a keep-alive event.
pub open spec fn keepalive_text(kind: TransportKind) -> Seq<char> {
    match kind {
        TransportKind::MockBridge => "mock keepalive tick (20s) 已发出，等待切换到真实 russh transport"@,
        TransportKind::Russh => "russh keepalive (20s) 已发送"@,
    }
}

impl TransportKind {
    /// The mode name of the transport.
    pub fn mode(&self) -> (res: &'static str)
        ensures
            res@ == mode_text(*self),
    {
        match self {
            TransportKind::MockBridge => "mock-russh-bridge+preflight",
            TransportKind::Russh => "russh-password+pty-shell",
        }
    }

    /// The text that opens a session's output.
    pub fn bootstrap_message(&self, proxy_message: &str, term_type: &str, cols: u32, rows: u32) -> (res: String)
        ensures
            res@ == bootstrap_text(*self, proxy_message@, term_type@, cols, rows),
    {
        let mut out: Vec<char> = Vec::new();
        push_str(&mut out, "[oneshell:ssh-bootstrap] ");
        push_str(&mut out, proxy_message);
        push_str(&mut out, "\r\n[oneshell:ssh-bootstrap] term=");
        push_str(&mut out, term_type);
        push_str(&mut out, " size=");
        let c = decimal_chars(cols as u64);
        push_chars(&mut out, &c);
        push_str(&mut out, "x");
        let r = decimal_chars(rows as u64);
        push_chars(&mut out, &r);
        push_str(&mut out, "\r\n[oneshell:ssh-bootstrap] ");
        match self {
            TransportKind::MockBridge => push_str(&mut out, "当前为 mock transport，下一步将替换成 russh 真正传输层。"),
            TransportKind::Russh => push_str(&mut out, "已切到 russh 真 SSH transport，PTY 与 shell 已建立。"),
        }
        push_str(&mut out, "\r\n");
        assert(out@ =~= bootstrap_text(*self, proxy_message@, term_type@, cols, rows));
        string_from_chars(&out)
    }

    /// The message of a keep-alive event.
    pub fn keepalive_message(&self) -> (res: String)
        ensures
            res@ == keepalive_text(*self),
    {
        match self {
            TransportKind::MockBridge => "mock keepalive tick (20s) 已发出，等待切换到真实 russh transport".to_owned(),
            TransportKind::Russh => "russh keepalive (20s) 已发送".to_owned(),
        }
    }
}

/// The summary of a session opened from request `s` under `id` at time
/// `connected_at` over a transport of the given kind.
pub open spec fn summary_from(summary: SshSessionSummary, id: Seq<char>, s: SanitizedConnectInput, connected_at: i64, kind: TransportKind) -> bool {
    &&& summary.id@ == id
    &&& summary.host@ == s.host@
    &&& summary.port == s.port
    &&& summary.username@ == s.username@
    &&& opt_view(summary.proxy_host) == match s.proxy {
        Some(p) => Some(endpoint(p.host@, p.port)),
        None => None,
    }
    &&& summary.proxy_auth_enabled == s.proxy_auth_enabled
    &&& summary.connected_at == connected_at
    &&& summary.keep_alive_seconds == KEEP_ALIVE_SECONDS
    &&& summary.transport_mode@ == mode_text(kind)
    &&& summary.cols == s.cols
    &&& summary.rows == s.rows
}

/// The summary of a newly opened session.
pub fn session_summary(id: String, s: &SanitizedConnectInput, connected_at: i64, kind: TransportKind) -> (res: SshSessionSummary)
    ensures
        summary_from(res, id@, *s, connected_at, kind),
{
    let proxy_host = match &s.proxy {
        Some(p) => Some(endpoint_string(p.host.as_str(), p.port)),
        None => None,
    };
    SshSessionSummary {
        id,
        host: s.host.clone(),
        port: s.port,
        username: s.username.clone(),
        proxy_host,
        proxy_auth_enabled: s.proxy_auth_enabled,
        connected_at,
        keep_alive_seconds: KEEP_ALIVE_SECONDS,
        transport_mode: kind.mode().to_owned(),
        cols: s.cols,
        rows: s.rows,
    }
}

/// What the runtime supports.
pub fn runtime_capabilities() -> (res: SshRuntimeCapabilities)
    ensures
        res.transport_mode@ == "russh-password+pty-shell"@,
        res.supports_password_auth,
        res.supports_socks5_proxy,
        res.supports_proxy_auth,
        res.supports_keep_alive,
        res.supports_resize,
        res.supports_lifecycle_events,
{
    SshRuntimeCapabilities {
        transport_mode: "russh-password+pty-shell".to_owned(),
        supports_password_auth: true,
        supports_socks5_proxy: true,
        supports_proxy_auth: true,
        supports_keep_alive: true,
        supports_resize: true,
        supports_lifecycle_events: true,
    }
}

/// A state change of a session.
pub fn lifecycle_event(session_id: &str, state: &str, message: Option<String>) -> (res: SshLifecycleEvent)
    ensures
        res.session_id@ == session_id@,
        res.state@ == state@,
        opt_view(res.message) == opt_view(message),
{
    SshLifecycleEvent { session_id: session_id.to_owned(), state: state.to_owned(), message }
}

/// The event announcing the network preflight of a request; the session
/// has no id yet.
pub fn preflight_event(s: &SanitizedConnectInput) -> (res: SshLifecycleEvent)
    ensures
        res.session_id@ == "pending"@,
        res.state@ == "preflight"@,
        opt_view(res.message) == Some(preflight_text(*s)),
{
    lifecycle_event("pending", "preflight", Some(preflight_message(s)))
}

/// The event announcing the handshake of session `session_id`.
pub fn handshake_event(session_id: &str) -> (res: SshLifecycleEvent)
    ensures
        res.session_id@ == session_id@,
        res.state@ == "handshake"@,
        opt_view(res.message) == Some("网络预检已通过，开始进行 russh 握手与密码认证"@),
{
    lifecycle_event(session_id, "handshake", Some("网络预检已通过，开始进行 russh 握手与密码认证".to_owned()))
}

/// The event announcing that a session is open.
pub fn connected_event(summary: &SshSessionSummary) -> (res: SshLifecycleEvent)
    ensures
        res.session_id@ == summary.id@,
        res.state@ == "connected"@,
        opt_view(res.message) == Some("SSH 会话已建立："@ + account_text(summary.username@, summary.host@, summary.port)),
{
    let m = account_message("SSH 会话已建立：", summary.username.as_str(), summary.host.as_str(), summary.port);
    lifecycle_event(summary.id.as_str(), "connected", Some(m))
}

/// The terminal size a resize sets: at least one column and one row.
pub open spec fn resize_text(cols: u32, rows: u32, pixel_width: u32, pixel_height: u32) -> Seq<char> {
    "PTY resize -> "@ + decimal(max_u32(cols, 1) as nat) + "x"@ + decimal(max_u32(rows, 1) as nat) + " ("@
        + decimal(pixel_width as nat) + "x"@ + decimal(pixel_height as nat) + " px)"@
}

/// The event announcing a resize.
pub fn resized_event(session_id: &str, cols: u32, rows: u32, pixel_width: u32, pixel_height: u32) -> (res: SshLifecycleEvent)
    ensures
        res.session_id@ == session_id@,
        res.state@ == "resized"@,
        opt_view(res.message) == Some(resize_text(cols, rows, pixel_width, pixel_height)),
{
    let mut out: Vec<char> = Vec::new();
    push_str(&mut out, "PTY resize -> ");
    let c = decimal_chars(if cols >= 1 { cols as u64 } else { 1 });
    push_chars(&mut out, &c);
    push_str(&mut out, "x");
    let r = decimal_chars(if rows >= 1 { rows as u64 } else { 1 });
    push_chars(&mut out, &r);
    push_str(&mut out, " (");
    let pw = decimal_chars(pixel_width as u64);
    push_chars(&mut out, &pw);
    push_str(&mut out, "x");
    let ph = decimal_chars(pixel_height as u64);
    push_chars(&mut out, &ph);
    push_str(&mut out, " px)");
    assert(out@ =~= resize_text(cols, rows, pixel_width, pixel_height));
    lifecycle_event(session_id, "resized", Some(string_from_chars(&out)))
}

/// The event announcing that a session was closed by the user.
pub fn disconnected_event(session_id: &str) -> (res: SshLifecycleEvent)
    ensures
        res.session_id@ == session_id@,
        res.state@ == "disconnected"@,
        opt_view(res.message) == Some("SSH 会话已从当前 runtime 注销"@),
{
    lifecycle_event(session_id, "disconnected", Some("SSH 会话已从当前 runtime 注销".to_owned()))
}

/// The event of a keep-alive sent over a transport of the given kind.
pub fn keepalive_event(session_id: &str, kind: TransportKind) -> (res: SshLifecycleEvent)
    ensures
        res.session_id@ == session_id@,
        res.state@ == "keepalive"@,
        opt_view(res.message) == Some(keepalive_text(kind)),
{
    lifecycle_event(session_id, "keepalive", Some(kind.keepalive_message()))
}

/// The event of a failed keep-alive, with the error's text.
pub fn keepalive_error_event(session_id: &str, error: &str) -> (res: SshLifecycleEvent)
    ensures
        res.session_id@ == session_id@,
        res.state@ == "keepalive-error"@,
        opt_view(res.message) == Some("russh keepalive 失败："@ + error@),
{
    let mut out: Vec<char> = Vec::new();
    push_str(&mut out, "russh keepalive 失败：");
    push_str(&mut out, error);
    lifecycle_event(session_id, "keepalive-error", Some(string_from_chars(&out)))
}

/// Input as the stand-in transport echoes it: carriage returns, line feeds
/// and Ctrl-C written as `\r`, `\n` and `^C`.
pub open spec fn escaped_input(data: Seq<char>) -> Seq<char> {
    replace_char(replace_char(replace_char(data, '\r', "\\r"@), '\n', "\\n"@), '\u{3}', "^C"@)
}

/// The echo of input by the stand-in transport: the escaped input and the
/// session's target.
pub open spec fn mock_echo_text(data: Seq<char>, summary: SshSessionSummary, term_type: Seq<char>) -> Seq<char> {
    "[oneshell:ssh-stdin] "@ + escaped_input(data) + "\r\n[oneshell:ssh-target] "@ + account_text(
        summary.username@,
        summary.host@,
        summary.port,
    ) + " ("@ + term_type + ")\r\n"@
}

/// The echo of input by the stand-in transport.
pub fn mock_echo(data: &str, summary: &SshSessionSummary, term_type: &str) -> (res: String)
    ensures
        res@ == mock_echo_text(data@, *summary, term_type@),
{
    let d = chars_of(data);
    let r1 = chars_of("\\r");
    let e1 = replace_char_chars(&d, '\r', &r1);
    let r2 = chars_of("\\n");
    let e2 = replace_char_chars(&e1, '\n', &r2);
    let r3 = chars_of("^C");
    let e3 = replace_char_chars(&e2, '\u{3}', &r3);
    let mut out: Vec<char> = Vec::new();
    push_str(&mut out, "[oneshell:ssh-stdin] ");
    push_chars(&mut out, &e3);
    push_str(&mut out, "\r\n[oneshell:ssh-target] ");
    push_str(&mut out, summary.username.as_str());
    push_str(&mut out, "@");
    push_endpoint(&mut out, summary.host.as_str(), summary.port);
    push_str(&mut out, " (");
    push_str(&mut out, term_type);
    push_str(&mut out, ")\r\n");
    assert(out@ =~= mock_echo_text(data@, *summary, term_type@));
    string_from_chars(&out)
}

/// The user name and password to authenticate to a proxy with, where both
/// are set.
pub fn proxy_credentials(p: &SanitizedProxyConfig) -> (res: Option<(String, String)>)
    ensures
        match res {
            Some((u, w)) => opt_view(p.username) == Some(u@) && opt_view(p.password) == Some(w@),
            None => p.username is None || p.password is None,
        },
{
    match (&p.username, &p.password) {
        (Some(u), Some(w)) => Some((u.clone(), w.clone())),
        _ => None,
    }
}

/// The text std's `String::from_utf8_lossy` makes of bytes: valid UTF-8
/// decoded, each invalid sequence replaced by U+FFFD.
pub uninterp spec fn utf8_lossy(bytes: Seq<u8>) -> Seq<char>;

/// std's `String::from_utf8_lossy`, made owned; the result is named
/// `utf8_lossy`.
#[verifier::external_body]
fn string_from_utf8_lossy(bytes: &[u8]) -> (res: String)
    ensures
        res@ == utf8_lossy(bytes@),
{
    String::from_utf8_lossy(bytes).into_owned()
}

/// Output text of a session as pushed to the front end, with the base64 of
/// its UTF-8 bytes.
pub fn output_event_text(session_id: &str, stream: &str, text: &str) -> (res: SshOutputEvent)
    requires
        encode_utf8(text@).len() <= usize::MAX / 2,
    ensures
        res.session_id@ == session_id@,
        res.stream@ == stream@,
        res.text@ == text@,
        res.data_base64@ == base64_encode(encode_utf8(text@)),
        base64_decode(res.data_base64@) == Ok::<Seq<u8>, Base64Fault>(encode_utf8(text@)),
{
    SshOutputEvent {
        session_id: session_id.to_owned(),
        stream: stream.to_owned(),
        text: text.to_owned(),
        data_base64: base64_encode_bytes(text.as_bytes()),
    }
}

/// Raw output bytes of a session as pushed to the front end: their text
/// with invalid UTF-8 replaced, and their base64.
pub fn output_event_bytes(session_id: &str, stream: &str, data: &[u8]) -> (res: SshOutputEvent)
    requires
        data@.len() <= usize::MAX / 2,
    ensures
        res.session_id@ == session_id@,
        res.stream@ == stream@,
        res.text@ == utf8_lossy(data@),
        res.data_base64@ == base64_encode(data@),
        base64_decode(res.data_base64@) == Ok::<Seq<u8>, Base64Fault>(data@),
{
    SshOutputEvent {
        session_id: session_id.to_owned(),
        stream: stream.to_owned(),
        text: string_from_utf8_lossy(data),
        data_base64: base64_encode_bytes(data),
    }
}

/// A message from a remote channel, as plain values: data, extended data
/// with its type code, the exit status, the exit signal's name, end of
/// input, closing, a failed opening with its reason, or anything else.
pub enum ChannelEvent {
    Data(Vec<u8>),
    ExtendedData(Vec<u8>, u32),
    ExitStatus(u32),
    ExitSignal(String),
    Eof,
    Close,
    OpenFailure(String),
    Other,
}

/// What the reader of a channel does with a message.
pub enum ReaderStep {
    /// Push output and read on.
    Output(SshOutputEvent),
    /// Push a state change and read on.
    Lifecycle(SshLifecycleEvent),
    /// Push a state change and stop reading.
    Closed(SshLifecycleEvent),
    /// Read on.
    Ignore,
}

/// The state and message that a channel message is reported with, where it
/// is reported as a state change.
pub open spec fn channel_lifecycle(event: ChannelEvent) -> Option<(Seq<char>, Seq<char>)> {
    match event {
        ChannelEvent::ExitStatus(code) => Some(("exit-status"@, "远端进程退出码："@ + decimal(code as nat))),
        ChannelEvent::ExitSignal(name) => Some(("exit-signal"@, "远端收到退出信号："@ + name@)),
        ChannelEvent::Eof => Some(("eof"@, "SSH channel EOF"@)),
        ChannelEvent::Close => Some(("closed"@, "SSH channel 已关闭"@)),
        ChannelEvent::OpenFailure(reason) => Some(("error"@, "SSH channel open failure: "@ + reason@)),
        _ => None,
    }
}

/// What the reader of session `session_id` does with a channel message:
/// data goes out as `stdout`, extended data as `stderr` (type 1) or
/// `extended`; exit status, exit signal, end of input and a failed opening
/// become state changes; closing becomes a state change that ends reading;
/// anything else is ignored.
pub fn reader_step(session_id: &str, event: ChannelEvent) -> (res: ReaderStep)
    requires
        event matches ChannelEvent::Data(d) ==> d@.len() <= usize::MAX / 2,
        event matches ChannelEvent::ExtendedData(d, _) ==> d@.len() <= usize::MAX / 2,
    ensures
        match event {
            ChannelEvent::Data(d) => res matches ReaderStep::Output(o) && o.session_id@ == session_id@ && o.stream@ == "stdout"@ && o.text@ == utf8_lossy(d@) && o.data_base64@ == base64_encode(d@) && base64_decode(o.data_base64@) == Ok::<Seq<u8>, Base64Fault>(d@),
            ChannelEvent::ExtendedData(d, ext) => res matches ReaderStep::Output(o) && o.session_id@ == session_id@ && o.stream@ == (if ext == 1 { "stderr"@ } else { "extended"@ }) && o.text@ == utf8_lossy(d@) && o.data_base64@ == base64_encode(d@) && base64_decode(o.data_base64@) == Ok::<Seq<u8>, Base64Fault>(d@),
            ChannelEvent::Close => res matches ReaderStep::Closed(l) && l.session_id@ == session_id@ && Some((l.state@, l.message->Some_0@)) == channel_lifecycle(event) && l.message is Some,
            ChannelEvent::Other => res is Ignore,
            _ => res matches ReaderStep::Lifecycle(l) && l.session_id@ == session_id@ && l.message is Some && Some((l.state@, l.message->Some_0@)) == channel_lifecycle(event),
        },
{
    match event {
        ChannelEvent::Data(d) => ReaderStep::Output(output_event_bytes(session_id, "stdout", d.as_slice())),
        ChannelEvent::ExtendedData(d, ext) => {
            let stream = if ext == 1 { "stderr" } else { "extended" };
            ReaderStep::Output(output_event_bytes(session_id, stream, d.as_slice()))
        },
        ChannelEvent::ExitStatus(code) => {
            let mut out: Vec<char> = Vec::new();
            push_str(&mut out, "远端进程退出码：");
            let c = decimal_chars(code as u64);
            push_chars(&mut out, &c);
            ReaderStep::Lifecycle(lifecycle_event(session_id, "exit-status", Some(string_from_chars(&out))))
        },
        ChannelEvent::ExitSignal(name) => {
            let mut out: Vec<char> = Vec::new();
            push_str(&mut out, "远端收到退出信号：");
            push_str(&mut out, name.as_str());
            ReaderStep::Lifecycle(lifecycle_event(session_id, "exit-signal", Some(string_from_chars(&out))))
        },
        ChannelEvent::Eof => ReaderStep::Lifecycle(lifecycle_event(session_id, "eof", Some("SSH channel EOF".to_owned()))),
        ChannelEvent::Close => ReaderStep::Closed(lifecycle_event(session_id, "closed", Some("SSH channel 已关闭".to_owned()))),
        ChannelEvent::OpenFailure(reason) => {
            let mut out: Vec<char> = Vec::new();
            push_str(&mut out, "SSH channel open failure: ");
            push_str(&mut out, reason.as_str());
            ReaderStep::Lifecycle(lifecycle_event(session_id, "error", Some(string_from_chars(&out))))
        },
        ChannelEvent::Other => ReaderStep::Ignore,
    }
}

/// The state change reported when a channel's messages end without it
/// having been closed; none where it was.
pub fn reader_finished(session_id: &str, saw_close: bool) -> (res: Option<SshLifecycleEvent>)
    ensures
        saw_close <==> res is None,
        res matches Some(l) ==> l.session_id@ == session_id@ && l.state@ == "closed"@ && opt_view(l.message) == Some("SSH channel 读取循环结束"@),
{
    if saw_close {
        None
    } else {
        Some(lifecycle_event(session_id, "closed", Some("SSH channel 读取循环结束".to_owned())))
    }
}

/// The error of a failed network preflight, with the failure's text.
pub fn preflight_failure_message(detail: &str) -> (res: String)
    ensures
        res@ == "SSH 网络预检失败: "@ + detail@,
{
    let mut out: Vec<char> = Vec::new();
    push_str(&mut out, "SSH 网络预检失败: ");
    push_str(&mut out, detail);
    string_from_chars(&out)
}

/// The context of a failed direct connection to the target.
pub fn direct_unreachable_message(s: &SanitizedConnectInput) -> (res: String)
    ensures
        res@ == "无法连接到 "@ + endpoint(s.host@, s.port),
{
    let mut out: Vec<char> = Vec::new();
    push_str(&mut out, "无法连接到 ");
    push_endpoint(&mut out, s.host.as_str(), s.port);
    assert(out@ =~= "无法连接到 "@ + endpoint(s.host@, s.port));
    string_from_chars(&out)
}

/// The context of a failed connection through the proxy: for the preflight
/// (`for_transport` false) or for the SSH transport.
pub fn proxy_unreachable_message(p: &SanitizedProxyConfig, s: &SanitizedConnectInput, for_transport: bool) -> (res: String)
    ensures
        res@ == "无法通过 SOCKS5 "@ + endpoint(p.host@, p.port) + (if for_transport {
            " 建立 SSH transport 到 "@
        } else {
            " 连到 "@
        }) + endpoint(s.host@, s.port),
{
    let mut out: Vec<char> = Vec::new();
    push_str(&mut out, "无法通过 SOCKS5 ");
    push_endpoint(&mut out, p.host.as_str(), p.port);
    if for_transport {
        push_str(&mut out, " 建立 SSH transport 到 ");
    } else {
        push_str(&mut out, " 连到 ");
    }
    push_endpoint(&mut out, s.host.as_str(), s.port);
    assert(out@ =~= "无法通过 SOCKS5 "@ + endpoint(p.host@, p.port) + (if for_transport {
        " 建立 SSH transport 到 "@
    } else {
        " 连到 "@
    }) + endpoint(s.host@, s.port));
    string_from_chars(&out)
}

/// An open session as the registry keeps it: its summary, terminal type and
/// pixel size, its transport kind, and the caller's transport state.
pub struct SessionRecord<T> {
    pub summary: SshSessionSummary,
    pub term_type: String,
    pub pixel_width: u32,
    pub pixel_height: u32,
    pub kind: TransportKind,
    pub transport: T,
}

/// Index of the last record with the given id, or -1.
pub open spec fn index_of_id<T>(records: Seq<SessionRecord<T>>, id: Seq<char>) -> int
    decreases records.len(),
{
    if records.len() == 0 {
        -1
    } else if records.last().summary.id@ == id {
        records.len() - 1
    } else {
        index_of_id(records.drop_last(), id)
    }
}

proof fn lemma_index_of_id<T>(records: Seq<SessionRecord<T>>, id: Seq<char>)
    ensures
        -1 <= index_of_id(records, id) < records.len(),
        index_of_id(records, id) >= 0 ==> records[index_of_id(records, id)].summary.id@ == id,
        index_of_id(records, id) == -1 ==> forall|k: int| 0 <= k < records.len() ==> (#[trigger] records[k]).summary.id@ != id,
    decreases records.len(),
{
    if records.len() > 0 && records.last().summary.id@ != id {
        lemma_index_of_id(records.drop_last(), id);
        if index_of_id(records, id) == -1 {
            assert forall|k: int| 0 <= k < records.len() implies (#[trigger] records[k]).summary.id@ != id by {
                if k < records.len() - 1 {
                    assert(records.drop_last()[k] == records[k]);
                }
            }
        }
    }
}

/// The open sessions, keyed by session id.
pub struct SessionRegistry<T> {
    records: Vec<SessionRecord<T>>,
}

/// No two records have the same id.
pub open spec fn ids_distinct<T>(records: Seq<SessionRecord<T>>) -> bool {
    forall|i: int, j: int| 0 <= i < j < records.len() ==> (#[trigger] records[i]).summary.id@ != (#[trigger] records[j]).summary.id@
}

proof fn lemma_distinct_index<T>(records: Seq<SessionRecord<T>>, k: int)
    requires
        ids_distinct(records),
        0 <= k < records.len(),
    ensures
        index_of_id(records, records[k].summary.id@) == k,
{
    lemma_index_of_id(records, records[k].summary.id@);
    let i = index_of_id(records, records[k].summary.id@);
    if i != k {
        if i < k {
            assert(records[i].summary.id@ != records[k].summary.id@);
        } else {
            assert(records[k].summary.id@ != records[i].summary.id@);
        }
    }
}

impl<T> SessionRegistry<T> {
    #[verifier::type_invariant]
    spec fn well_formed(self) -> bool {
        ids_distinct(self.records@)
    }

    /// The open sessions, by id.
    pub closed spec fn view(&self) -> Map<Seq<char>, SessionRecord<T>> {
        Map::new(
            |id: Seq<char>| index_of_id(self.records@, id) >= 0,
            |id: Seq<char>| self.records@[index_of_id(self.records@, id)],
        )
    }

    /// An empty registry.
    pub fn new() -> (res: SessionRegistry<T>)
        ensures
            res.view() == Map::<Seq<char>, SessionRecord<T>>::empty(),
    {
        let res = SessionRegistry { records: Vec::new() };
        assert(res.view() =~= Map::<Seq<char>, SessionRecord<T>>::empty());
        res
    }

    fn find(&self, id: &str) -> (res: Option<usize>)
        ensures
            match res {
                Some(i) => i as int == index_of_id(self.records@, id@) && i < self.records@.len(),
                None => index_of_id(self.records@, id@) == -1,
            },
    {
        let mut j: usize = self.records.len();
        proof {
            assert(self.records@.take(j as int) =~= self.records@);
        }
        while j > 0
            invariant
                j <= self.records@.len(),
                index_of_id(self.records@, id@) == index_of_id(self.records@.take(j as int), id@),
            decreases j,
        {
            let rid = chars_of(self.records[j - 1].summary.id.as_str());
            if chars_eq_str(&rid, id) {
                return Some(j - 1);
            }
            proof {
                assert(self.records@.take(j as int).drop_last() =~= self.records@.take(j - 1));
            }
            j = j - 1;
        }
        proof {
            assert(self.records@.take(0) =~= Seq::<SessionRecord<T>>::empty());
        }
        None
    }

    /// Whether a session with this id is open.
    pub fn contains(&self, id: &str) -> (res: bool)
        ensures
            res == self.view().contains_key(id@),
    {
        self.find(id).is_some()
    }

    /// The open session with this id.
    pub fn get(&self, id: &str) -> (res: Option<&SessionRecord<T>>)
        ensures
            match res {
                Some(r) => self.view().contains_key(id@) && *r == self.view()[id@],
                None => !self.view().contains_key(id@),
            },
    {
        match self.find(id) {
            Some(i) => Some(&self.records[i]),
            None => None,
        }
    }

    /// Registers a session under the id of its summary, replacing any
    /// session with that id.
    pub fn insert(&mut self, record: SessionRecord<T>)
        ensures
            final(self).view() == old(self).view().insert(record.summary.id@, record),
    {
        proof {
            use_type_invariant(&*self);
        }
        let ghost id = record.summary.id@;
        let ghost before = self.records@;
        let found = self.find(record.summary.id.as_str());
        proof {
            lemma_index_of_id(before, id);
        }
        let mut records: Vec<SessionRecord<T>> = Vec::new();
        std::mem::swap(&mut records, &mut self.records);
        match found {
            Some(i) => {
                proof {
                    let after = before.update(i as int, record);
                    assert forall|a: int, b: int| 0 <= a < b < after.len() implies (#[trigger] after[a]).summary.id@ != (#[trigger] after[b]).summary.id@ by {
                        assert(before[a].summary.id@ != before[b].summary.id@);
                    }
                    lemma_same_ids(before, after);
                }
                records.set(i, record);
                self.records = records;
                proof {
                    let after = self.records@;
                    let target = old(self).view().insert(id, record);
                    assert forall|k: Seq<char>| #[trigger] self.view().contains_key(k) == target.contains_key(k) by {
                        assert(index_of_id(after, k) == index_of_id(before, k));
                    }
                    assert forall|k: Seq<char>| self.view().contains_key(k) implies #[trigger] self.view()[k] == target[k] by {
                        assert(index_of_id(after, k) == index_of_id(before, k));
                        lemma_index_of_id(before, k);
                    }
                    assert(self.view() =~= target);
                }
            },
            None => {
                proof {
                    let after = before.push(record);
                    assert forall|a: int, b: int| 0 <= a < b < after.len() implies (#[trigger] after[a]).summary.id@ != (#[trigger] after[b]).summary.id@ by {
                        if b < before.len() {
                            assert(before[a].summary.id@ != before[b].summary.id@);
                        } else {
                            assert(after[a] == before[a]);
                        }
                    }
                    assert(after.drop_last() =~= before);
                }
                records.push(record);
                self.records = records;
                proof {
                    let after = self.records@;
                    let target = old(self).view().insert(id, record);
                    assert(after.drop_last() =~= before);
                    assert forall|k: Seq<char>| #[trigger] self.view().contains_key(k) == target.contains_key(k) by {
                        if k != id {
                            assert(index_of_id(after, k) == index_of_id(before, k));
                        }
                    }
                    assert forall|k: Seq<char>| self.view().contains_key(k) implies #[trigger] self.view()[k] == target[k] by {
                        if k != id {
                            assert(index_of_id(after, k) == index_of_id(before, k));
                            lemma_index_of_id(before, k);
                        }
                    }
                    assert(self.view() =~= target);
                }
            },
        }
    }
}

impl<T> SessionRegistry<T> {
    /// Unregisters the session with this id and hands it back.
    pub fn remove(&mut self, id: &str) -> (res: Option<SessionRecord<T>>)
        ensures
            match res {
                Some(r) => old(self).view().contains_key(id@) && r == old(self).view()[id@],
                None => !old(self).view().contains_key(id@),
            },
            final(self).view() == old(self).view().remove(id@),
    {
        proof {
            use_type_invariant(&*self);
        }
        let ghost before = self.records@;
        let found = self.find(id);
        proof {
            lemma_index_of_id(before, id@);
        }
        match found {
            None => {
                assert(self.view() =~= old(self).view().remove(id@));
                None
            },
            Some(i) => {
                let mut records: Vec<SessionRecord<T>> = Vec::new();
                std::mem::swap(&mut records, &mut self.records);
                let r = records.remove(i);
                proof {
                    let after = records@;
                    assert(after =~= before.remove(i as int));
                    assert forall|a: int, b: int| 0 <= a < b < after.len() implies (#[trigger] after[a]).summary.id@ != (#[trigger] after[b]).summary.id@ by {
                        let aa = if a < i { a } else { a + 1 };
                        let bb = if b < i { b } else { b + 1 };
                        assert(after[a] == before[aa]);
                        assert(after[b] == before[bb]);
                    }
                }
                self.records = records;
                proof {
                    let after = self.records@;
                    let target = old(self).view().remove(id@);
                    assert forall|k: Seq<char>| #[trigger] self.view().contains_key(k) == target.contains_key(k)
                        && (self.view().contains_key(k) ==> self.view()[k] == target[k]) by {
                        lemma_index_of_id(after, k);
                        lemma_index_of_id(before, k);
                        let ja = index_of_id(after, k);
                        let jb = index_of_id(before, k);
                        if ja >= 0 {
                            let jj = if ja < i { ja } else { ja + 1 };
                            assert(after[ja] == before[jj]);
                            lemma_distinct_index(before, jj);
                            if k == id@ {
                                assert(jj != i as int);
                                assert(before[jj].summary.id@ == before[i as int].summary.id@);
                                if jj < i {
                                    assert(before[jj].summary.id@ != before[i as int].summary.id@);
                                } else {
                                    assert(before[i as int].summary.id@ != before[jj].summary.id@);
                                }
                            }
                        }
                        if jb >= 0 && k != id@ {
                            assert(jb != i as int);
                            let j2 = if jb < i { jb } else { jb - 1 };
                            assert(after[j2] == before[jb]);
                            lemma_distinct_index(after, j2);
                        }
                    }
                    assert(self.view() =~= target);
                }
                Some(r)
            },
        }
    }

    /// Sets the terminal size of the session with this id: at least one
    /// column and one row, and the given pixel size. Refused where no such
    /// session is open, which leaves the registry as it was.
    pub fn resize(&mut self, id: &str, cols: u32, rows: u32, pixel_width: u32, pixel_height: u32) -> (res: Result<(), SshError>)
        ensures
            match res {
                Ok(()) => old(self).view().contains_key(id@) && final(self).view() == old(self).view().insert(
                    id@,
                    resized(old(self).view()[id@], cols, rows, pixel_width, pixel_height),
                ),
                Err(e) => {
                    &&& !old(self).view().contains_key(id@)
                    &&& final(self).view() == old(self).view()
                    &&& e matches SshError::SessionNotFound(m) && m@ == id@
                },
            },
            res is Ok ==> {
                &&& final(self).view().contains_key(id@)
                &&& final(self).view()[id@].pixel_width == pixel_width
                &&& final(self).view()[id@].pixel_height == pixel_height
                &&& final(self).view()[id@].summary.cols == (if cols >= 1 { cols } else { 1u32 })
                &&& final(self).view()[id@].summary.rows == (if rows >= 1 { rows } else { 1u32 })
                &&& final(self).view()[id@].summary.id == old(self).view()[id@].summary.id
                &&& final(self).view()[id@].term_type == old(self).view()[id@].term_type
                &&& final(self).view()[id@].kind == old(self).view()[id@].kind
            },
    {
        proof {
            use_type_invariant(&*self);
        }
        let ghost before = self.records@;
        let found = self.find(id);
        proof {
            lemma_index_of_id(before, id@);
        }
        match found {
            None => Err(SshError::SessionNotFound(id.to_owned())),
            Some(i) => {
                let mut records: Vec<SessionRecord<T>> = Vec::new();
                std::mem::swap(&mut records, &mut self.records);
                let mut rec = records.remove(i);
                let ghost old_rec = rec;
                rec.summary.cols = if cols >= 1 { cols } else { 1 };
                rec.summary.rows = if rows >= 1 { rows } else { 1 };
                rec.pixel_width = pixel_width;
                rec.pixel_height = pixel_height;
                assert(rec == resized(old_rec, cols, rows, pixel_width, pixel_height));
                records.insert(i, rec);
                proof {
                    let after = records@;
                    assert(after =~= before.update(i as int, rec));
                    assert forall|a: int, b: int| 0 <= a < b < after.len() implies (#[trigger] after[a]).summary.id@ != (#[trigger] after[b]).summary.id@ by {
                        assert(before[a].summary.id@ != before[b].summary.id@);
                    }
                    lemma_same_ids(before, after);
                }
                self.records = records;
                proof {
                    let after = self.records@;
                    let target = old(self).view().insert(id@, rec);
                    assert forall|k: Seq<char>| #[trigger] self.view().contains_key(k) == target.contains_key(k)
                        && (self.view().contains_key(k) ==> self.view()[k] == target[k]) by {
                        assert(index_of_id(after, k) == index_of_id(before, k));
                        lemma_index_of_id(before, k);
                    }
                    assert(self.view() =~= target);
                }
                Ok(())
            },
        }
    }

    /// The summaries of the open sessions, each once.
    pub fn summaries(&self) -> (res: Vec<SshSessionSummary>)
        ensures
            forall|i: int| 0 <= i < res@.len() ==> self.view().contains_key((#[trigger] res@[i]).id@) && self.view()[res@[i].id@].summary == res@[i],
            forall|k: Seq<char>| #[trigger] self.view().contains_key(k) ==> exists|i: int| 0 <= i < res@.len() && res@[i].id@ == k,
            forall|i: int, j: int| 0 <= i < j < res@.len() ==> (#[trigger] res@[i]).id@ != (#[trigger] res@[j]).id@,
    {
        proof {
            use_type_invariant(self);
        }
        let mut res: Vec<SshSessionSummary> = Vec::new();
        let mut i: usize = 0;
        while i < self.records.len()
            invariant
                ids_distinct(self.records@),
                i <= self.records@.len(),
                res@.len() == i,
                forall|k: int| 0 <= k < i ==> #[trigger] res@[k] == self.records@[k].summary,
            decreases self.records@.len() - i,
        {
            res.push(self.records[i].summary.duplicate());
            i = i + 1;
        }
        proof {
            let recs = self.records@;
            assert forall|k: int| 0 <= k < res@.len() implies self.view().contains_key((#[trigger] res@[k]).id@) && self.view()[res@[k].id@].summary == res@[k] by {
                lemma_distinct_index(recs, k);
            }
            assert forall|key: Seq<char>| #[trigger] self.view().contains_key(key) implies exists|k: int| 0 <= k < res@.len() && res@[k].id@ == key by {
                lemma_index_of_id(recs, key);
                let k = index_of_id(recs, key);
                assert(res@[k].id@ == key);
            }
            assert forall|a: int, b: int| 0 <= a < b < res@.len() implies (#[trigger] res@[a]).id@ != (#[trigger] res@[b]).id@ by {
                assert(recs[a].summary.id@ != recs[b].summary.id@);
            }
        }
        res
    }
}

impl<T> SessionRegistry<T> {
    /// Registers the session opened from request `s` under `id` at time
    /// `connected_at`: returns its summary, the event announcing it, and its
    /// first output (the route, terminal type and size).
    pub fn open_session(
        &mut self,
        id: String,
        s: &SanitizedConnectInput,
        connected_at: i64,
        kind: TransportKind,
        transport: T,
    ) -> (res: (SshSessionSummary, SshLifecycleEvent, SshOutputEvent))
        requires
            encode_utf8(bootstrap_text(kind, route_text(*s), s.term_type@, s.cols, s.rows)).len() <= usize::MAX / 2,
        ensures
            summary_from(res.0, id@, *s, connected_at, kind),
            final(self).view() == old(self).view().insert(
                id@,
                SessionRecord {
                    summary: res.0,
                    term_type: s.term_type,
                    pixel_width: s.pixel_width,
                    pixel_height: s.pixel_height,
                    kind,
                    transport,
                },
            ),
            res.1.session_id@ == id@,
            res.1.state@ == "connected"@,
            opt_view(res.1.message) == Some("SSH 会话已建立："@ + account_text(s.username@, s.host@, s.port)),
            res.2.session_id@ == id@,
            res.2.stream@ == "stdout"@,
            res.2.text@ == bootstrap_text(kind, route_text(*s), s.term_type@, s.cols, s.rows),
    {
        let summary = session_summary(id, s, connected_at, kind);
        let record = SessionRecord {
            summary: summary.duplicate(),
            term_type: s.term_type.clone(),
            pixel_width: s.pixel_width,
            pixel_height: s.pixel_height,
            kind,
            transport,
        };
        self.insert(record);
        let connected = connected_event(&summary);
        let route = proxy_message(s);
        let banner = kind.bootstrap_message(route.as_str(), s.term_type.as_str(), s.cols, s.rows);
        let output = output_event_text(summary.id.as_str(), "stdout", banner.as_str());
        (summary, connected, output)
    }

    /// What input for the session with this id does: over the stand-in
    /// transport it is echoed back as output; over a real channel nothing is
    /// produced here and the caller sends it. Refused where no such session
    /// is open.
    pub fn input_step(&self, id: &str, data: &str) -> (res: Result<Option<SshOutputEvent>, SshError>)
        requires
            self.view().contains_key(id@) && self.view()[id@].kind == TransportKind::MockBridge
                ==> encode_utf8(mock_echo_text(data@, self.view()[id@].summary, self.view()[id@].term_type@)).len() <= usize::MAX / 2,
        ensures
            match res {
                Ok(out) => self.view().contains_key(id@) && match self.view()[id@].kind {
                    TransportKind::MockBridge => (out matches Some(o) && o.session_id@ == id@ && o.stream@ == "stdout"@
                        && o.text@ == mock_echo_text(data@, self.view()[id@].summary, self.view()[id@].term_type@)),
                    TransportKind::Russh => out is None,
                },
                Err(e) => !self.view().contains_key(id@) && (e matches SshError::SessionNotFound(m) && m@ == id@),
            },
    {
        match self.get(id) {
            None => Err(SshError::SessionNotFound(id.to_owned())),
            Some(record) => match record.kind {
                TransportKind::MockBridge => {
                    let echo = mock_echo(data, &record.summary, record.term_type.as_str());
                    Ok(Some(output_event_text(id, "stdout", echo.as_str())))
                },
                TransportKind::Russh => Ok(None),
            },
        }
    }
}

/// A fresh session id: the text of a random version-4 UUID.
pub fn new_session_id() -> (res: String)
    ensures
        is_uuid_v4_text(res@),
{
    new_uuid_v4()
}

/// A session record after a resize: at least one column and one row, and
/// the given pixel size; everything else kept.
pub open spec fn resized<T>(r: SessionRecord<T>, cols: u32, rows: u32, pixel_width: u32, pixel_height: u32) -> SessionRecord<T> {
    SessionRecord {
        summary: SshSessionSummary { cols: max_u32(cols, 1), rows: max_u32(rows, 1), ..r.summary },
        pixel_width,
        pixel_height,
        ..r
    }
}

/// Two record sequences with the same id at every position find every id
/// at the same place.
proof fn lemma_same_ids<T>(s: Seq<SessionRecord<T>>, t: Seq<SessionRecord<T>>)
    requires
        s.len() == t.len(),
        forall|j: int| 0 <= j < s.len() ==> (#[trigger] s[j]).summary.id@ == t[j].summary.id@,
    ensures
        forall|k: Seq<char>| #[trigger] index_of_id(s, k) == index_of_id(t, k),
    decreases s.len(),
{
    if s.len() > 0 {
        assert forall|j: int| 0 <= j < s.len() - 1 implies (#[trigger] s.drop_last()[j]).summary.id@ == t.drop_last()[j].summary.id@ by {
            assert(s[j].summary.id@ == t[j].summary.id@);
        }
        lemma_same_ids(s.drop_last(), t.drop_last());
        assert(s.last().summary.id@ == t.last().summary.id@);
        assert forall|k: Seq<char>| #[trigger] index_of_id(s, k) == index_of_id(t, k) by {
            assert(index_of_id(s.drop_last(), k) == index_of_id(t.drop_last(), k));
        }
    }
}

} // verus!
