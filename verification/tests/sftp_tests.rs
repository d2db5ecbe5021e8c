use oneshell::sftp::{
    check_download_source, check_upload_source, download_target, permissions_string,
    sanitize_entry_name, transfer_result, upload_target, SftpDirEntry, SftpError, SftpWorkspace,
};

#[test]
fn entry_names_are_trimmed_and_checked() {
    assert_eq!(sanitize_entry_name("  新建文件夹 😀 ").ok().unwrap(), "新建文件夹 😀");
    assert!(matches!(sanitize_entry_name("   "), Err(SftpError::EmptyName)));
    assert!(matches!(sanitize_entry_name(" .. "), Err(SftpError::DotName)));
    assert!(matches!(sanitize_entry_name("."), Err(SftpError::DotName)));
    assert!(matches!(sanitize_entry_name("a/b"), Err(SftpError::SeparatorInName)));
    assert!(matches!(sanitize_entry_name("a\\b"), Err(SftpError::SeparatorInName)));
    assert_eq!(SftpError::DotName.message(), "entry name cannot be dot path");
    assert_eq!(SftpError::EmptyName.message(), "entry name cannot be empty");
}

#[test]
fn permissions_are_octal_bits() {
    assert_eq!(permissions_string(0o100644), "644");
    assert_eq!(permissions_string(0o40755), "755");
    assert_eq!(permissions_string(0), "0");
    assert_eq!(permissions_string(0o7), "7");
}

fn entry(name: &str, is_dir: bool) -> SftpDirEntry {
    SftpDirEntry {
        name: name.to_string(),
        path: format!("/w/{}", name),
        is_dir,
        is_file: !is_dir,
        len: 10,
        mode: 0o100600,
        modified_secs: Some(7),
    }
}

#[test]
fn listing_puts_files_first_then_orders_by_lowercase_name() {
    let ws = SftpWorkspace::new("/w".to_string());
    let snap = ws.list_directory(
        "/w",
        vec![entry("beta", true), entry("Zed.txt", false), entry("alpha", true), entry("apple.txt", false), entry("Émile", false)],
    );
    let names: Vec<&str> = snap.entries.iter().map(|e| e.name.as_str()).collect();
    assert_eq!(names, vec!["apple.txt", "Zed.txt", "Émile", "alpha", "beta"]);
    assert_eq!(snap.total_entries, 5);
    assert_eq!(snap.root_path, "/w");
    assert_eq!(snap.current_path, "/w");
    let dir = snap.entries.iter().find(|e| e.name == "alpha").unwrap();
    assert_eq!(dir.kind, "directory");
    assert_eq!(dir.size_bytes, 0);
    let file = snap.entries.iter().find(|e| e.name == "apple.txt").unwrap();
    assert_eq!(file.kind, "file");
    assert_eq!(file.size_bytes, 10);
    assert_eq!(file.permissions, "600");
    assert_eq!(file.modified_at, 7);
}

#[test]
fn directory_resolution() {
    let ws = SftpWorkspace::new("/home/u".to_string());
    assert_eq!(ws.directory_candidate(None), "/home/u");
    assert_eq!(ws.directory_candidate(Some("")), "/home/u");
    assert_eq!(ws.directory_candidate(Some("docs")), "/home/u/docs");
    let root = Some("/home/u".to_string());
    assert_eq!(
        ws.resolve_directory(Some("docs"), Some("/home/u/docs".to_string()), root.clone(), true).ok().unwrap(),
        "/home/u/docs"
    );
    match ws.resolve_directory(Some("nope"), None, root.clone(), false) {
        Err(e) => assert_eq!(e.message(), "directory not found: /home/u/nope"),
        _ => panic!(),
    }
    assert!(matches!(
        ws.resolve_directory(Some("/etc"), Some("/etc".to_string()), root.clone(), true),
        Err(SftpError::DirectoryEscapesRoot)
    ));
    assert!(matches!(
        ws.resolve_directory(Some("f.txt"), Some("/home/u/f.txt".to_string()), root.clone(), false),
        Err(SftpError::NotADirectory)
    ));
    assert!(matches!(
        ws.resolve_directory(None, Some("/home/u".to_string()), None, true),
        Err(SftpError::RootUnavailable(_))
    ));
}

#[test]
fn entry_resolution() {
    let ws = SftpWorkspace::new("/home/u".to_string());
    let root = Some("/home/u".to_string());
    assert_eq!(ws.entry_candidate("a.txt"), "/home/u/a.txt");
    assert_eq!(
        ws.resolve_entry("a.txt", Some("/home/u/a.txt".to_string()), root.clone()).ok().unwrap(),
        "/home/u/a.txt"
    );
    assert!(matches!(ws.resolve_entry("a.txt", None, root.clone()), Err(SftpError::EntryNotFound(_))));
    assert!(matches!(
        ws.resolve_entry("../x", Some("/home/x".to_string()), root),
        Err(SftpError::EntryEscapesRoot)
    ));
}

#[test]
fn mkdir_and_delete_records() {
    let ws = SftpWorkspace::new("/w".to_string());
    let r = ws.create_directory("/w/docs", " new ").ok().unwrap();
    assert_eq!(r.action, "mkdir");
    assert_eq!(r.source_path, None);
    assert_eq!(r.target_path, "/w/docs/new");
    assert_eq!(r.bytes_transferred, 0);
    assert!(ws.create_directory("/w", "a/b").is_err());
    let d = ws.delete_entry("/w/old.txt");
    assert_eq!(d.action, "delete");
    assert_eq!(d.source_path.as_deref(), Some("/w/old.txt"));
    assert_eq!(d.target_path, "/w/old.txt");
}

#[test]
fn upload_target_names() {
    assert_eq!(upload_target("/src/a.txt", "/w", None).ok().unwrap(), "/w/a.txt");
    assert_eq!(upload_target("/src/a.txt", "/w", Some("   ")).ok().unwrap(), "/w/a.txt");
    assert_eq!(upload_target("/src/a.txt", "/w", Some(" b.txt ")).ok().unwrap(), "/w/b.txt");
    assert!(matches!(upload_target("/src/a.txt", "/w", Some("x/y")), Err(SftpError::SeparatorInName)));
    assert_eq!(upload_target("/", "/w", None).ok().unwrap(), "/w/uploaded-file");
    assert!(matches!(check_upload_source("s", None, false), Err(SftpError::UploadSourceNotFound(_))));
    assert!(matches!(check_upload_source("s", Some("/s".to_string()), false), Err(SftpError::UploadSourceNotFile)));
    assert_eq!(check_upload_source("s", Some("/s".to_string()), true).ok().unwrap(), "/s");
}

#[test]
fn download_targets() {
    assert_eq!(download_target("/dl", true, "/w/a.txt"), "/dl/a.txt");
    assert_eq!(download_target("/dl/", false, "/w/a.txt"), "/dl/a.txt");
    assert_eq!(download_target("/dl/b.txt", false, "/w/a.txt"), "/dl/b.txt");
    assert!(matches!(check_download_source(false), Err(SftpError::DownloadSourceNotFile)));
    assert!(check_download_source(true).is_ok());
    let r = transfer_result("download", "/w/a.txt", "/dl/a.txt", 42);
    assert_eq!(r.action, "download");
    assert_eq!(r.bytes_transferred, 42);
    assert_eq!(r.source_path.as_deref(), Some("/w/a.txt"));
}

#[test]
fn names_equal_up_to_case_keep_the_reported_order() {
    let ws = SftpWorkspace::new("/w".to_string());
    let snap = ws.list_directory("/w", vec![entry("b.txt", false), entry("B.txt", false), entry("a", true)]);
    let names: Vec<&str> = snap.entries.iter().map(|e| e.name.as_str()).collect();
    assert_eq!(names, vec!["b.txt", "B.txt", "a"]);
    let snap = ws.list_directory("/w", vec![entry("B.txt", false), entry("b.txt", false)]);
    let names: Vec<&str> = snap.entries.iter().map(|e| e.name.as_str()).collect();
    assert_eq!(names, vec!["B.txt", "b.txt"]);
}
