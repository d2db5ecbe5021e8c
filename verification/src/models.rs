//! The records that pass between the workbench's front end and its back end.
use vstd::prelude::*;

verus! {

/// A connection profile as the user enters it.
pub struct SaveServerProfileInput {
    pub name: Option<String>,
    pub host: String,
    pub port: u16,
    pub username: String,
    pub password: String,
}

/// A stored connection profile, without its password.
pub struct ServerProfileSummary {
    pub id: String,
    pub name: Option<String>,
    pub host: String,
    pub port: u16,
    pub username: String,
    pub created_at: i64,
    pub updated_at: i64,
}

/// A script found in the script workspace.
pub struct ScriptEntrySummary {
    pub id: String,
    pub name: String,
    pub path: String,
    pub kind: String,
    pub relative_path: String,
    pub size_bytes: u64,
    pub modified_at: i64,
}

/// A script with its content and the commands that run it.
pub struct ScriptEntryDetail {
    pub summary: ScriptEntrySummary,
    pub content: String,
    pub suggested_remote_command: String,
    pub local_runner: String,
}

/// A request to run a workspace script on this machine.
pub struct RunLocalScriptInput {
    pub path: String,
    pub args: Option<Vec<String>>,
}

/// What a local script run produced.
pub struct ScriptExecutionResult {
    pub command: String,
    pub exit_code: i32,
    pub stdout: String,
    pub stderr: String,
}

/// A request to list a directory of the file workspace.
pub struct ListSftpDirectoryInput {
    pub path: Option<String>,
}

/// One entry of a directory listing.
pub struct SftpEntryNode {
    pub name: String,
    pub path: String,
    pub kind: String,
    pub size_bytes: u64,
    pub permissions: String,
    pub modified_at: i64,
}

/// A directory listing.
pub struct SftpDirectorySnapshot {
    pub root_path: String,
    pub current_path: String,
    pub entries: Vec<SftpEntryNode>,
    pub total_entries: usize,
}

/// A request to create a directory.
pub struct CreateSftpDirectoryInput {
    pub parent_path: String,
    pub name: String,
}

/// A request to delete a file or directory.
pub struct DeleteSftpEntryInput {
    pub path: String,
}

/// A request to copy a local file into the workspace.
pub struct UploadSftpFileInput {
    pub source_path: String,
    pub target_directory: String,
    pub target_name: Option<String>,
}

/// A request to copy a workspace file out to a local destination.
pub struct DownloadSftpFileInput {
    pub source_path: String,
    pub destination_path: String,
}

/// What a file operation did.
pub struct SftpOperationResult {
    pub action: String,
    pub source_path: Option<String>,
    pub target_path: String,
    pub bytes_transferred: u64,
}

/// SOCKS5 proxy settings of a connection request.
pub struct SshProxyInput {
    pub host: String,
    pub port: u16,
    pub username: Option<String>,
    pub password: Option<String>,
}

/// A request to open an SSH session.
pub struct SshConnectInput {
    pub host: String,
    pub port: u16,
    pub username: String,
    pub password: String,
    pub proxy: Option<SshProxyInput>,
    pub term_type: Option<String>,
    pub cols: Option<u32>,
    pub rows: Option<u32>,
    pub pixel_width: Option<u32>,
    pub pixel_height: Option<u32>,
}

/// An open SSH session as the front end sees it.
pub struct SshSessionSummary {
    pub id: String,
    pub host: String,
    pub port: u16,
    pub username: String,
    pub proxy_host: Option<String>,
    pub proxy_auth_enabled: bool,
    pub connected_at: i64,
    pub keep_alive_seconds: u64,
    pub transport_mode: String,
    pub cols: u32,
    pub rows: u32,
}

/// Keyboard input for a session.
pub struct SshInputPacket {
    pub session_id: String,
    pub data: String,
}

/// A terminal resize for a session.
pub struct SshResizeInput {
    pub session_id: String,
    pub cols: u32,
    pub rows: u32,
    pub pixel_width: Option<u32>,
    pub pixel_height: Option<u32>,
}

/// Output of a session, pushed to the front end.
pub struct SshOutputEvent {
    pub session_id: String,
    pub stream: String,
    pub text: String,
    pub data_base64: String,
}

/// A change in a session's state, pushed to the front end.
pub struct SshLifecycleEvent {
    pub session_id: String,
    pub state: String,
    pub message: Option<String>,
}

/// What the SSH runtime supports.
pub struct SshRuntimeCapabilities {
    pub transport_mode: String,
    pub supports_password_auth: bool,
    pub supports_socks5_proxy: bool,
    pub supports_proxy_auth: bool,
    pub supports_keep_alive: bool,
    pub supports_resize: bool,
    pub supports_lifecycle_events: bool,
}

/// A copy of an optional string.
pub fn copy_opt_string(s: &Option<String>) -> (res: Option<String>)
    ensures
        res == *s,
{
    match s {
        Some(v) => Some(v.clone()),
        None => None,
    }
}

impl SshSessionSummary {
    /// A field-by-field copy.
    pub fn duplicate(&self) -> (res: SshSessionSummary)
        ensures
            res == *self,
    {
        SshSessionSummary {
            id: self.id.clone(),
            host: self.host.clone(),
            port: self.port,
            username: self.username.clone(),
            proxy_host: copy_opt_string(&self.proxy_host),
            proxy_auth_enabled: self.proxy_auth_enabled,
            connected_at: self.connected_at,
            keep_alive_seconds: self.keep_alive_seconds,
            transport_mode: self.transport_mode.clone(),
            cols: self.cols,
            rows: self.rows,
        }
    }
}

} // verus!
