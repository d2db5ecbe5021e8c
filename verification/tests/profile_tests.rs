use oneshell::crypto::decrypt_secret;
use oneshell::db::{sanitize_input, Database, ProfileError};
use oneshell::models::SaveServerProfileInput;

fn input(name: Option<&str>, host: &str, username: &str, password: &str) -> SaveServerProfileInput {
    SaveServerProfileInput {
        name: name.map(|s| s.to_string()),
        host: host.to_string(),
        port: 22,
        username: username.to_string(),
        password: password.to_string(),
    }
}

#[test]
fn sanitize_trims_host_user_and_name_but_not_password() {
    let s = sanitize_input(input(Some("  prod  "), "  example.com ", " root ", " pw ")).ok().unwrap();
    assert_eq!(s.host, "example.com");
    assert_eq!(s.username, "root");
    assert_eq!(s.password, " pw ");
    assert_eq!(s.name.as_deref(), Some("prod"));
    assert_eq!(s.port, 22);
}

#[test]
fn blank_name_is_dropped() {
    let s = sanitize_input(input(Some("   "), "h", "u", "p")).ok().unwrap();
    assert_eq!(s.name, None);
    let s = sanitize_input(input(None, "h", "u", "p")).ok().unwrap();
    assert_eq!(s.name, None);
}

#[test]
fn empty_host_is_refused_first() {
    let e = sanitize_input(input(None, "  ", "", "")).err().unwrap();
    assert_eq!(e, ProfileError::EmptyHost);
    assert_eq!(e.message(), "server host cannot be empty");
}

#[test]
fn empty_username_is_refused() {
    let e = sanitize_input(input(None, "h", " \t", "")).err().unwrap();
    assert_eq!(e, ProfileError::EmptyUsername);
    assert_eq!(e.message(), "username cannot be empty");
}

#[test]
fn empty_password_is_refused_but_blank_is_kept() {
    let e = sanitize_input(input(None, "h", "u", "")).err().unwrap();
    assert_eq!(e, ProfileError::EmptyPassword);
    assert_eq!(e.message(), "password cannot be empty");
    assert!(sanitize_input(input(None, "h", "u", " ")).is_ok());
}

#[test]
fn database_lives_in_the_data_directory() {
    let db = Database::in_data_dir("/var/lib/oneshell", "key".to_string());
    assert_eq!(db.db_path(), "/var/lib/oneshell/oneshell.secure.db");
    assert_eq!(db.master_key(), "key");
}

#[test]
fn connection_pragmas_hold_the_database_key() {
    let db = Database::new("/tmp/x.db".to_string(), "master-key-for-tests".to_string());
    assert_eq!(
        db.connection_pragmas(),
        "PRAGMA key = 'rIm/UAKfqQc1Zs/ioQvcJ90lXpFTYnPRM4pNecVZRts='; PRAGMA cipher_page_size = 4096; PRAGMA foreign_keys = ON;"
    );
}

#[test]
fn schema_creates_the_profile_table() {
    let sql = Database::schema_statements();
    assert!(sql.starts_with("CREATE TABLE IF NOT EXISTS server_profiles ("));
    assert!(sql.contains("CREATE INDEX IF NOT EXISTS idx_server_profiles_updated_at"));
}

#[test]
fn built_record_holds_checked_fields_and_a_sealed_password() {
    let db = Database::new("/tmp/x.db".to_string(), "master-key-for-tests".to_string());
    let nonce: Vec<u8> = (0u8..12).collect();
    let record = db
        .build_profile_record(input(Some(" web "), " h.example ", " admin ", "p@ss wörd"), &nonce, "id-1".to_string(), 1700000000)
        .ok()
        .unwrap();
    assert_eq!(record.summary.id, "id-1");
    assert_eq!(record.summary.name.as_deref(), Some("web"));
    assert_eq!(record.summary.host, "h.example");
    assert_eq!(record.summary.username, "admin");
    assert_eq!(record.summary.port, 22);
    assert_eq!(record.summary.created_at, 1700000000);
    assert_eq!(record.summary.updated_at, 1700000000);
    assert_eq!(record.password_ciphertext, "AAECAwQFBgcICQoL2OZE4/Cgqfl4gsQInYt17qhT4Vxh4/9C1Nc=");
}

#[test]
fn saved_profile_password_opens_again() {
    let db = Database::new("/tmp/x.db".to_string(), "k".to_string());
    let record = db.save_server_profile(input(None, "h", "u", "hunter2")).ok().unwrap();
    assert_eq!(decrypt_secret("k", &record.password_ciphertext).unwrap(), "hunter2");
    let id = &record.summary.id;
    assert_eq!(id.len(), 36);
    assert_eq!(&id[14..15], "4");
    assert_eq!(id.matches('-').count(), 4);
    assert!(record.summary.created_at > 0);
    assert_eq!(record.summary.created_at, record.summary.updated_at);
}

#[test]
fn save_refuses_what_sanitize_refuses() {
    let db = Database::new("/tmp/x.db".to_string(), "k".to_string());
    let e = db.save_server_profile(input(None, "h", "", "p")).err().unwrap();
    assert_eq!(e, ProfileError::EmptyUsername);
}

#[test]
fn port_zero_is_refused_after_the_other_checks() {
    let db = Database::new("/tmp/x.db".to_string(), "k".to_string());
    let mut zero = input(None, "h", "u", "p");
    zero.port = 0;
    let e = db.save_server_profile(zero).err().unwrap();
    assert_eq!(e, ProfileError::InvalidPort);
    assert_eq!(e.message(), "CHECK constraint failed: port > 0 AND port <= 65535");
    let mut both = input(None, "", "u", "p");
    both.port = 0;
    assert_eq!(db.save_server_profile(both).err().unwrap(), ProfileError::EmptyHost);
    let mut highest = input(None, "h", "u", "p");
    highest.port = 65535;
    assert_eq!(db.save_server_profile(highest).ok().unwrap().summary.port, 65535);
}

#[test]
fn stored_ciphertext_differs_from_the_password() {
    let db = Database::new("/tmp/x.db".to_string(), "k".to_string());
    let record = db.save_server_profile(input(None, "h", "u", "hunter2")).ok().unwrap();
    assert_ne!(record.password_ciphertext, "hunter2");
    assert!(!record.password_ciphertext.contains("hunter2"));
}
