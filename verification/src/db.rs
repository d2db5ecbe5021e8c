//! The encrypted store of connection profiles: checking what the user
//! entered, sealing the password, and the statements the store runs.
use vstd::prelude::*;
use vstd::utf8::encode_utf8;
use crate::text::{trim, trim_str, chars_of, push_chars, push_str, string_from_chars, replace_char, replace_char_chars};
use crate::paths::{join_path, join_str};
use crate::crypto::{
    CryptoError, database_key, derive_database_key, encrypt_secret, encrypt_secret_with_nonce,
    opened_secret, sealed_secret, NONCE_LEN,
};
use crate::fresh::{current_timestamp, new_uuid_v4, is_uuid_v4_text, timestamp_of};
use crate::models::{SaveServerProfileInput, ServerProfileSummary, copy_opt_string};

verus! {

/// Name of the database file inside the data directory.
pub const DATABASE_FILENAME: &'static str = "oneshell.secure.db";

/// The characters of an optional string.
pub open spec fn opt_view(s: Option<String>) -> Option<Seq<char>> {
    match s {
        Some(v) => Some(v@),
        None => None,
    }
}

/// A profile name as stored: trimmed, and absent where nothing is left.
pub open spec fn stored_name(name: Option<Seq<char>>) -> Option<Seq<char>> {
    match name {
        Some(n) => if trim(n).len() == 0 {
            None
        } else {
            Some(trim(n))
        },
        None => None,
    }
}

/// Why a profile was refused.
#[derive(Debug, Clone, Copy, PartialEq, Eq, Structural)]
pub enum ProfileError {
    /// The host is empty once trimmed.
    EmptyHost,
    /// The user name is empty once trimmed.
    EmptyUsername,
    /// The password is empty.
    EmptyPassword,
    /// The password could not be sealed.
    Crypto(CryptoError),
    /// The port is 0, which the profile table refuses.
    InvalidPort,
}

impl ProfileError {
    /// The message that the error is reported with.
    pub fn message(&self) -> (res: String)
        ensures
            res@ == self.spec_message(),
    {
        match self {
            ProfileError::EmptyHost => "server host cannot be empty".to_owned(),
            ProfileError::EmptyUsername => "username cannot be empty".to_owned(),
            ProfileError::EmptyPassword => "password cannot be empty".to_owned(),
            ProfileError::Crypto(e) => e.message(),
            ProfileError::InvalidPort => "CHECK constraint failed: port > 0 AND port <= 65535".to_owned(),
        }
    }

    /// The message text of each error.
    pub open spec fn spec_message(&self) -> Seq<char> {
        match self {
            ProfileError::EmptyHost => "server host cannot be empty"@,
            ProfileError::EmptyUsername => "username cannot be empty"@,
            ProfileError::EmptyPassword => "password cannot be empty"@,
            ProfileError::Crypto(e) => e.spec_message(),
            ProfileError::InvalidPort => "CHECK constraint failed: port > 0 AND port <= 65535"@,
        }
    }
}

/// The first check that a profile fails, in the order host, user name,
/// password; `None` where it passes them all.
pub open spec fn profile_defect(input: SaveServerProfileInput) -> Option<ProfileError> {
    if trim(input.host@).len() == 0 {
        Some(ProfileError::EmptyHost)
    } else if trim(input.username@).len() == 0 {
        Some(ProfileError::EmptyUsername)
    } else if input.password@.len() == 0 {
        Some(ProfileError::EmptyPassword)
    } else {
        None
    }
}

/// A profile that passed the checks.
pub struct SanitizedServerProfileInput {
    pub name: Option<String>,
    pub host: String,
    pub port: u16,
    pub username: String,
    pub password: String,
}

/// `s` is what the checks make of `input`.
pub open spec fn sanitized_from(s: SanitizedServerProfileInput, input: SaveServerProfileInput) -> bool {
    &&& opt_view(s.name) == stored_name(opt_view(input.name))
    &&& s.host@ == trim(input.host@)
    &&& s.port == input.port
    &&& s.username@ == trim(input.username@)
    &&& s.password@ == input.password@
}

/// Trims an optional profile name, dropping it where nothing is left.
pub fn trim_name(name: &Option<String>) -> (res: Option<String>)
    ensures
        opt_view(res) == stored_name(opt_view(*name)),
{
    match name {
        Some(n) => {
            let t = trim_str(n.as_str());
            if t.as_str().is_empty() {
                None
            } else {
                Some(t)
            }
        },
        None => None,
    }
}

/// Checks a profile: host and user name are trimmed and must not be empty,
/// the password must not be empty and is kept as it is, and the name is
/// trimmed and dropped where empty.
pub fn sanitize_input(input: SaveServerProfileInput) -> (res: Result<
    SanitizedServerProfileInput,
    ProfileError,
>)
    ensures
        match res {
            Ok(s) => profile_defect(input) is None && sanitized_from(s, input),
            Err(e) => profile_defect(input) == Some(e),
        },
{
    let host = trim_str(input.host.as_str());
    let username = trim_str(input.username.as_str());
    let name = trim_name(&input.name);
    if host.as_str().is_empty() {
        return Err(ProfileError::EmptyHost);
    }
    if username.as_str().is_empty() {
        return Err(ProfileError::EmptyUsername);
    }
    if input.password.as_str().is_empty() {
        return Err(ProfileError::EmptyPassword);
    }
    Ok(SanitizedServerProfileInput { name, host, port: input.port, username, password: input.password })
}

/// A profile ready to be inserted: the summary the caller gets back, and
/// the sealed password that is stored beside it.
pub struct ProfileRecord {
    pub summary: ServerProfileSummary,
    pub password_ciphertext: String,
}

/// The summary of a profile saved from `s` under `id` at time `now`.
pub open spec fn summary_of(summary: ServerProfileSummary, s: SanitizedServerProfileInput, id: Seq<char>, now: i64) -> bool {
    &&& summary.id@ == id
    &&& opt_view(summary.name) == opt_view(s.name)
    &&& summary.host@ == s.host@
    &&& summary.port == s.port
    &&& summary.username@ == s.username@
    &&& summary.created_at == now
    &&& summary.updated_at == now
}

/// The connection settings of the encrypted profile store: where the
/// database file lies and the master key that its keys derive from.
pub struct Database {
    db_path: String,
    master_key: String,
}

impl Database {
    /// The path of the database file.
    pub closed spec fn path_view(&self) -> Seq<char> {
        self.db_path@
    }

    /// The master key.
    pub closed spec fn key_view(&self) -> Seq<char> {
        self.master_key@
    }

    /// A store at `db_path` under `master_key`.
    pub fn new(db_path: String, master_key: String) -> (res: Database)
        ensures
            res.path_view() == db_path@,
            res.key_view() == master_key@,
    {
        Database { db_path, master_key }
    }

    /// The store kept in a data directory: its file is `oneshell.secure.db`
    /// there.
    pub fn in_data_dir(app_data_dir: &str, master_key: String) -> (res: Database)
        ensures
            res.path_view() == join_path(app_data_dir@, DATABASE_FILENAME@),
            res.key_view() == master_key@,
    {
        Database { db_path: join_str(app_data_dir, DATABASE_FILENAME), master_key }
    }

    /// The path of the database file.
    pub fn db_path(&self) -> (res: &str)
        ensures
            res@ == self.path_view(),
    {
        self.db_path.as_str()
    }

    /// The master key.
    pub fn master_key(&self) -> (res: &str)
        ensures
            res@ == self.key_view(),
    {
        self.master_key.as_str()
    }

    /// The statements run first on every connection: the database key, with
    /// each `'` doubled, then the page size and foreign-key enforcement.
    pub fn connection_pragmas(&self) -> (res: String)
        ensures
            res@ == pragmas_for(self.key_view()),
    {
        let key = derive_database_key(self.master_key.as_str());
        let key_chars = chars_of(key.as_str());
        let quote_pair = chars_of("''");
        let escaped = replace_char_chars(&key_chars, '\'', &quote_pair);
        let mut out: Vec<char> = Vec::new();
        push_str(&mut out, "PRAGMA key = '");
        push_chars(&mut out, &escaped);
        push_str(&mut out, "'; PRAGMA cipher_page_size = 4096; PRAGMA foreign_keys = ON;");
        string_from_chars(&out)
    }

    /// The statements that create the profile table and its indexes where
    /// they do not exist yet.
    pub fn schema_statements() -> (res: &'static str)
        ensures
            res@ == schema_sql(),
            declares_column(res@, "\n    name TEXT,\n"@),
            declares_column(res@, "\n    port INTEGER NOT NULL CHECK(port > 0 AND port <= 65535),\n"@),
    {
        proof {
            crate::listing_laws::profile_schema_fits_saved_records();
        }
        "CREATE TABLE IF NOT EXISTS server_profiles (
    id TEXT PRIMARY KEY,
    name TEXT,
    host TEXT NOT NULL,
    port INTEGER NOT NULL CHECK(port > 0 AND port <= 65535),
    username TEXT NOT NULL,
    password_ciphertext TEXT NOT NULL,
    created_at INTEGER NOT NULL,
    updated_at INTEGER NOT NULL
);

CREATE INDEX IF NOT EXISTS idx_server_profiles_host
    ON server_profiles(host);

CREATE INDEX IF NOT EXISTS idx_server_profiles_updated_at
    ON server_profiles(updated_at DESC);
"
    }

    /// The record for a profile given the nonce that seals its password, its
    /// id and the time: refused as `sanitize_input` refuses it, then where the
    /// password is too long to seal, then where the port is 0 (the table
    /// accepts ports 1 to 65535 only); else the summary holds the checked
    /// fields and the stored ciphertext is the password sealed with that
    /// nonce, which `decrypt_secret` opens again to the password and which
    /// differs from the password.
    pub fn build_profile_record(
        &self,
        input: SaveServerProfileInput,
        nonce: &[u8],
        id: String,
        now: i64,
    ) -> (res: Result<ProfileRecord, ProfileError>)
        requires
            nonce@.len() == NONCE_LEN,
            encode_utf8(input.password@).len() + 28 <= usize::MAX / 2,
        ensures
            match res {
                Ok(r) => {
                    &&& profile_defect(input) is None
                    &&& sealed_secret(self.key_view(), nonce@, input.password@) == Some(
                        r.password_ciphertext@,
                    )
                    &&& opened_secret(self.key_view(), r.password_ciphertext@) == Ok::<
                        Seq<char>,
                        CryptoError,
                    >(input.password@)
                    &&& r.password_ciphertext@ != input.password@
                    &&& input.port != 0
                    &&& r.summary.id@ == id@
                    &&& opt_view(r.summary.name) == stored_name(opt_view(input.name))
                    &&& r.summary.host@ == trim(input.host@)
                    &&& r.summary.port == input.port
                    &&& r.summary.username@ == trim(input.username@)
                    &&& r.summary.created_at == now
                    &&& r.summary.updated_at == now
                },
                Err(e) => match profile_defect(input) {
                    Some(d) => e == d,
                    None => if sealed_secret(self.key_view(), nonce@, input.password@) is None {
                        e == ProfileError::Crypto(CryptoError::EncryptionFailed)
                    } else {
                        e == ProfileError::InvalidPort && input.port == 0
                    },
                },
            },
    {
        let s = match sanitize_input(input) {
            Ok(s) => s,
            Err(e) => {
                return Err(e);
            },
        };
        let ciphertext = match encrypt_secret_with_nonce(
            self.master_key.as_str(),
            s.password.as_str(),
            nonce,
        ) {
            Ok(c) => c,
            Err(e) => {
                return Err(ProfileError::Crypto(e));
            },
        };
        if s.port == 0 {
            return Err(ProfileError::InvalidPort);
        }
        let summary = ServerProfileSummary {
            id,
            name: s.name,
            host: s.host,
            port: s.port,
            username: s.username,
            created_at: now,
            updated_at: now,
        };
        Ok(ProfileRecord { summary, password_ciphertext: ciphertext })
    }

    /// Checks a profile and prepares its record with a fresh random nonce,
    /// a fresh version-4 id and the current time. Refused exactly as
    /// `sanitize_input` refuses it, then where the password is too long to
    /// seal, then where the port is 0. The stored ciphertext opens again to
    /// the password and differs from it.
    pub fn save_server_profile(&self, input: SaveServerProfileInput) -> (res: Result<
        ProfileRecord,
        ProfileError,
    >)
        requires
            encode_utf8(input.password@).len() + 28 <= usize::MAX / 2,
        ensures
            match res {
                Ok(r) => {
                    &&& profile_defect(input) is None
                    &&& exists|nonce: Seq<u8>|
                        nonce.len() == NONCE_LEN && sealed_secret(
                            self.key_view(),
                            nonce,
                            input.password@,
                        ) == Some(r.password_ciphertext@)
                    &&& opened_secret(self.key_view(), r.password_ciphertext@) == Ok::<
                        Seq<char>,
                        CryptoError,
                    >(input.password@)
                    &&& r.password_ciphertext@ != input.password@
                    &&& input.port != 0
                    &&& is_uuid_v4_text(r.summary.id@)
                    &&& opt_view(r.summary.name) == stored_name(opt_view(input.name))
                    &&& r.summary.host@ == trim(input.host@)
                    &&& r.summary.port == input.port
                    &&& r.summary.username@ == trim(input.username@)
                    &&& r.summary.created_at == r.summary.updated_at
                },
                Err(e) => match profile_defect(input) {
                    Some(d) => e == d,
                    None => if encode_utf8(input.password@).len() > crate::crypto::AES_GCM_MAX_PLAINTEXT {
                        e == ProfileError::Crypto(CryptoError::EncryptionFailed)
                    } else {
                        e == ProfileError::InvalidPort && input.port == 0
                    },
                },
            },
    {
        let nonce = crate::crypto::fresh_nonce();
        let id = new_uuid_v4();
        let now = current_timestamp();
        self.build_profile_record(input, nonce.as_slice(), id, now)
    }
}

/// The connection statements for a master key.
pub open spec fn pragmas_for(master: Seq<char>) -> Seq<char> {
    "PRAGMA key = '"@ + replace_char(database_key(master), '\'', "''"@)
        + "'; PRAGMA cipher_page_size = 4096; PRAGMA foreign_keys = ON;"@
}

/// `sql` holds the text `decl`, as the declaration of a column.
pub open spec fn declares_column(sql: Seq<char>, decl: Seq<char>) -> bool {
    exists|i: int| 0 <= i && i + decl.len() <= sql.len() && #[trigger] sql.subrange(i, i + decl.len()) == decl
}

/// The schema of the profile store.
pub open spec fn schema_sql() -> Seq<char> {
    "CREATE TABLE IF NOT EXISTS server_profiles (
    id TEXT PRIMARY KEY,
    name TEXT,
    host TEXT NOT NULL,
    port INTEGER NOT NULL CHECK(port > 0 AND port <= 65535),
    username TEXT NOT NULL,
    password_ciphertext TEXT NOT NULL,
    created_at INTEGER NOT NULL,
    updated_at INTEGER NOT NULL
);

CREATE INDEX IF NOT EXISTS idx_server_profiles_host
    ON server_profiles(host);

CREATE INDEX IF NOT EXISTS idx_server_profiles_updated_at
    ON server_profiles(updated_at DESC);
"@
}

} // verus!
