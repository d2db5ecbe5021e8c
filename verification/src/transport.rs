//! The decisions of the SSH transport set-up and of the keep-alive loop, as
//! step functions: the caller performs each action (a network call, a
//! sleep) and hands back what it observed.
use vstd::prelude::*;
use crate::db::opt_view;
use crate::models::SshLifecycleEvent;
use crate::ssh::{
    endpoint, keepalive_error_event, keepalive_event, keepalive_text, proxy_credentials,
    proxy_unreachable_message, SanitizedConnectInput, TransportKind,
};

verus! {

/// How far the set-up of an SSH transport has come.
#[derive(PartialEq, Eq, Structural, Clone, Copy, Debug)]
pub enum TransportPhase {
    /// Nothing done yet.
    Start,
    /// Waiting for the SOCKS5 stream to the target.
    OpeningProxy,
    /// Waiting for the SSH connection.
    Connecting,
    /// Waiting for the answer to password authentication.
    Authenticating,
    /// Waiting for the session channel.
    OpeningChannel,
    /// Waiting for the pseudo-terminal.
    RequestingPty,
    /// Waiting for the interactive shell.
    RequestingShell,
    /// The shell runs; the channel can be split and read.
    Ready,
    /// The set-up failed.
    Failed,
}

/// The set-up of the transport for one checked connection request.
pub struct TransportState {
    pub input: SanitizedConnectInput,
    pub phase: TransportPhase,
}

/// What the caller observed after an action.
pub enum TransportEvent {
    /// Start the set-up.
    Begin,
    /// The SOCKS5 stream is open.
    ProxyOpened,
    /// The SOCKS5 stream could not be opened, with the error's text.
    ProxyFailed(String),
    /// Opening the SOCKS5 stream took too long.
    ProxyTimedOut,
    /// The SSH connection stands.
    Connected,
    /// The SSH connection failed, with the error's text.
    ConnectFailed(String),
    /// The server answered password authentication: accepted or not.
    AuthAnswered(bool),
    /// Password authentication could not be carried out, with the error's text.
    AuthFailed(String),
    /// The session channel is open.
    ChannelOpened,
    /// The session channel could not be opened, with the error's text.
    ChannelFailed(String),
    /// The pseudo-terminal was granted.
    PtyGranted,
    /// The pseudo-terminal request failed, with the error's text.
    PtyFailed(String),
    /// The shell started.
    ShellStarted,
    /// The shell request failed, with the error's text.
    ShellFailed(String),
}

/// What the caller does next.
pub enum TransportAction {
    /// Open a SOCKS5 stream through the proxy to the target, authenticating
    /// to the proxy with the credentials where there are any.
    OpenProxy {
        proxy_host: String,
        proxy_port: u16,
        target_host: String,
        target_port: u16,
        credentials: Option<(String, String)>,
    },
    /// Run the SSH handshake over the SOCKS5 stream.
    ConnectOverProxy,
    /// Connect to the target directly and run the SSH handshake.
    ConnectDirect { host: String, port: u16 },
    /// Authenticate with the password.
    Authenticate { username: String, password: String },
    /// Open a session channel.
    OpenChannel,
    /// Request a pseudo-terminal of this type and size.
    RequestPty { term_type: String, cols: u32, rows: u32, pixel_width: u32, pixel_height: u32 },
    /// Request an interactive shell.
    RequestShell,
    /// Split the channel, start reading it and keep the connection.
    Finish,
    /// Give up with this error: the context, over the observed error's text
    /// where there is one.
    Fail { context: String, detail: Option<String> },
    /// The event does not belong to this phase; nothing to do.
    Nothing,
}

/// The set-up of a transport for a checked request, before anything is done.
pub fn transport_start(input: SanitizedConnectInput) -> (res: TransportState)
    ensures
        res.input == input,
        res.phase == TransportPhase::Start,
{
    TransportState { input, phase: TransportPhase::Start }
}

/// `res` fails with `context` and, where given, the observed text.
pub open spec fn fails_with(res: TransportAction, context: Seq<char>, detail: Option<Seq<char>>) -> bool {
    res matches TransportAction::Fail { context: c, detail: d } && c@ == context && opt_view(d) == detail
}

/// The next phase and action of a transport set-up on an event: through a
/// proxy, the SOCKS5 stream first and then the handshake over it, else a
/// direct connection; then password authentication (refused: "SSH 密码认证失败"),
/// the session channel, a pseudo-terminal with the request's terminal type
/// and sizes, and the shell. Each failure ends the set-up with its context.
/// An event that does not belong to the phase changes nothing.
pub fn transport_step(state: TransportState, event: TransportEvent) -> (res: (TransportState, TransportAction))
    ensures
        res.0.input == state.input,
        ({
            let s = state.input;
            let (next, action) = res;
            match (state.phase, event) {
                (TransportPhase::Start, TransportEvent::Begin) => match s.proxy {
                    Some(p) => {
                        &&& next.phase == TransportPhase::OpeningProxy
                        &&& action matches TransportAction::OpenProxy {
                        proxy_host,
                        proxy_port,
                        target_host,
                        target_port,
                        credentials,
                    } && proxy_host@ == p.host@ && proxy_port == p.port && target_host@ == s.host@
                        && target_port == s.port && match credentials {
                        Some((u, w)) => opt_view(p.username) == Some(u@) && opt_view(p.password) == Some(w@),
                        None => p.username is None || p.password is None,
                    }
                    },
                    None => {
                        &&& next.phase == TransportPhase::Connecting
                        &&& action matches TransportAction::ConnectDirect { host, port } && host@ == s.host@ && port == s.port
                    },
                },
                (TransportPhase::OpeningProxy, TransportEvent::ProxyOpened) => next.phase
                    == TransportPhase::Connecting && action is ConnectOverProxy,
                (TransportPhase::OpeningProxy, TransportEvent::ProxyFailed(d)) => match s.proxy {
                    Some(p) => next.phase == TransportPhase::Failed && fails_with(
                    action,
                    "无法通过 SOCKS5 "@ + endpoint(p.host@, p.port) + " 建立 SSH transport 到 "@
                        + endpoint(s.host@, s.port),
                    Some(d@),
                    ),
                    None => next.phase == state.phase && action is Nothing,
                },
                (TransportPhase::OpeningProxy, TransportEvent::ProxyTimedOut) => next.phase
                    == TransportPhase::Failed && fails_with(action, "SOCKS5 代理 SSH transport 连接超时"@, None),
                (TransportPhase::Connecting, TransportEvent::Connected) => {
                    &&& next.phase == TransportPhase::Authenticating
                    &&& action matches TransportAction::Authenticate { username, password }
                        && username@ == s.username@ && password@ == s.password@
                },
                (TransportPhase::Connecting, TransportEvent::ConnectFailed(d)) => next.phase
                    == TransportPhase::Failed && fails_with(
                    action,
                    if s.proxy is Some {
                        "russh proxy transport connect_stream failed"@
                    } else {
                        "russh direct transport connect failed"@
                    },
                    Some(d@),
                ),
                (TransportPhase::Authenticating, TransportEvent::AuthAnswered(accepted)) => if accepted {
                    next.phase == TransportPhase::OpeningChannel && action is OpenChannel
                } else {
                    next.phase == TransportPhase::Failed && fails_with(action, "SSH 密码认证失败"@, None)
                },
                (TransportPhase::Authenticating, TransportEvent::AuthFailed(d)) => next.phase
                    == TransportPhase::Failed && fails_with(
                    action,
                    "russh password authentication failed to execute"@,
                    Some(d@),
                ),
                (TransportPhase::OpeningChannel, TransportEvent::ChannelOpened) => {
                    &&& next.phase == TransportPhase::RequestingPty
                    &&& action matches TransportAction::RequestPty { term_type, cols, rows, pixel_width, pixel_height }
                        && term_type@ == s.term_type@ && cols == s.cols && rows == s.rows
                        && pixel_width == s.pixel_width && pixel_height == s.pixel_height
                },
                (TransportPhase::OpeningChannel, TransportEvent::ChannelFailed(d)) => next.phase
                    == TransportPhase::Failed && fails_with(action, "failed to open ssh session channel"@, Some(d@)),
                (TransportPhase::RequestingPty, TransportEvent::PtyGranted) => next.phase
                    == TransportPhase::RequestingShell && action is RequestShell,
                (TransportPhase::RequestingPty, TransportEvent::PtyFailed(d)) => next.phase
                    == TransportPhase::Failed && fails_with(action, "failed to request ssh pty"@, Some(d@)),
                (TransportPhase::RequestingShell, TransportEvent::ShellStarted) => next.phase
                    == TransportPhase::Ready && action is Finish,
                (TransportPhase::RequestingShell, TransportEvent::ShellFailed(d)) => next.phase
                    == TransportPhase::Failed && fails_with(
                    action,
                    "failed to request interactive shell"@,
                    Some(d@),
                ),
                _ => next.phase == state.phase && action is Nothing,
            }
        }),
{
    let phase = state.phase;
    let input = state.input;
    let (phase, action) = match (phase, event) {
        (TransportPhase::Start, TransportEvent::Begin) => match &input.proxy {
            Some(p) => (
                TransportPhase::OpeningProxy,
                TransportAction::OpenProxy {
                    proxy_host: p.host.clone(),
                    proxy_port: p.port,
                    target_host: input.host.clone(),
                    target_port: input.port,
                    credentials: proxy_credentials(p),
                },
            ),
            None => (
                TransportPhase::Connecting,
                TransportAction::ConnectDirect { host: input.host.clone(), port: input.port },
            ),
        },
        (TransportPhase::OpeningProxy, TransportEvent::ProxyOpened) => (
            TransportPhase::Connecting,
            TransportAction::ConnectOverProxy,
        ),
        (TransportPhase::OpeningProxy, TransportEvent::ProxyFailed(d)) => match &input.proxy {
            Some(p) => (
                TransportPhase::Failed,
                TransportAction::Fail {
                    context: proxy_unreachable_message(p, &input, true),
                    detail: Some(d),
                },
            ),
            None => (TransportPhase::OpeningProxy, TransportAction::Nothing),
        },
        (TransportPhase::OpeningProxy, TransportEvent::ProxyTimedOut) => (
            TransportPhase::Failed,
            TransportAction::Fail {
                context: "SOCKS5 代理 SSH transport 连接超时".to_owned(),
                detail: None,
            },
        ),
        (TransportPhase::Connecting, TransportEvent::Connected) => (
            TransportPhase::Authenticating,
            TransportAction::Authenticate {
                username: input.username.clone(),
                password: input.password.clone(),
            },
        ),
        (TransportPhase::Connecting, TransportEvent::ConnectFailed(d)) => {
            let context = if input.proxy.is_some() {
                "russh proxy transport connect_stream failed".to_owned()
            } else {
                "russh direct transport connect failed".to_owned()
            };
            (TransportPhase::Failed, TransportAction::Fail { context, detail: Some(d) })
        },
        (TransportPhase::Authenticating, TransportEvent::AuthAnswered(accepted)) => if accepted {
            (TransportPhase::OpeningChannel, TransportAction::OpenChannel)
        } else {
            (
                TransportPhase::Failed,
                TransportAction::Fail { context: "SSH 密码认证失败".to_owned(), detail: None },
            )
        },
        (TransportPhase::Authenticating, TransportEvent::AuthFailed(d)) => (
            TransportPhase::Failed,
            TransportAction::Fail {
                context: "russh password authentication failed to execute".to_owned(),
                detail: Some(d),
            },
        ),
        (TransportPhase::OpeningChannel, TransportEvent::ChannelOpened) => (
            TransportPhase::RequestingPty,
            TransportAction::RequestPty {
                term_type: input.term_type.clone(),
                cols: input.cols,
                rows: input.rows,
                pixel_width: input.pixel_width,
                pixel_height: input.pixel_height,
            },
        ),
        (TransportPhase::OpeningChannel, TransportEvent::ChannelFailed(d)) => (
            TransportPhase::Failed,
            TransportAction::Fail {
                context: "failed to open ssh session channel".to_owned(),
                detail: Some(d),
            },
        ),
        (TransportPhase::RequestingPty, TransportEvent::PtyGranted) => (
            TransportPhase::RequestingShell,
            TransportAction::RequestShell,
        ),
        (TransportPhase::RequestingPty, TransportEvent::PtyFailed(d)) => (
            TransportPhase::Failed,
            TransportAction::Fail { context: "failed to request ssh pty".to_owned(), detail: Some(d) },
        ),
        (TransportPhase::RequestingShell, TransportEvent::ShellStarted) => (
            TransportPhase::Ready,
            TransportAction::Finish,
        ),
        (TransportPhase::RequestingShell, TransportEvent::ShellFailed(d)) => (
            TransportPhase::Failed,
            TransportAction::Fail {
                context: "failed to request interactive shell".to_owned(),
                detail: Some(d),
            },
        ),
        (p, _) => (p, TransportAction::Nothing),
    };
    (TransportState { input, phase }, action)
}

/// What the keep-alive loop of a session does after a wait.
pub enum KeepaliveAction {
    /// The session is gone: stop without a word.
    Stop,
    /// Report the failed keep-alive and stop.
    StopWith(SshLifecycleEvent),
    /// Report the keep-alive and wait again.
    Continue(SshLifecycleEvent),
}

/// Whether a keep-alive is sent over a transport of this kind: only a real
/// channel gets one.
pub fn keepalive_sends(kind: TransportKind) -> (res: bool)
    ensures
        res == (kind == TransportKind::Russh),
{
    match kind {
        TransportKind::Russh => true,
        TransportKind::MockBridge => false,
    }
}

/// The keep-alive loop's decision after a wait: where the session is no
/// longer open it stops silently; where sending the keep-alive failed it
/// reports the error and stops; otherwise it reports the keep-alive and
/// goes on.
pub fn keepalive_step(session_id: &str, kind: TransportKind, session_exists: bool, send_error: Option<String>) -> (res: KeepaliveAction)
    ensures
        !session_exists ==> res is Stop,
        session_exists ==> match send_error {
            Some(e) => res matches KeepaliveAction::StopWith(l) && l.session_id@ == session_id@ && l.state@
                == "keepalive-error"@ && opt_view(l.message) == Some("russh keepalive 失败："@ + e@),
            None => res matches KeepaliveAction::Continue(l) && l.session_id@ == session_id@ && l.state@
                == "keepalive"@ && opt_view(l.message) == Some(keepalive_text(kind)),
        },
{
    if !session_exists {
        return KeepaliveAction::Stop;
    }
    match send_error {
        Some(e) => KeepaliveAction::StopWith(keepalive_error_event(session_id, e.as_str())),
        None => KeepaliveAction::Continue(keepalive_event(session_id, kind)),
    }
}

} // verus!
