//! Connection profiles, script and file workspaces, and SSH session
//! bookkeeping for a desktop remote workbench, with their contracts.
#![allow(unused_imports)]

pub mod text;
pub mod paths;
pub mod crypto;
pub mod models;
pub mod fresh;
pub mod db;
pub mod order;
pub mod scripts;
pub mod sftp;
pub mod ssh;
pub mod transport;
pub mod laws;
pub mod listing_laws;
