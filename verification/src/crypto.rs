//! Master-key handling, key derivation and the sealing of saved passwords
//! with AES-256-GCM.
//!
//! A master key is a random 32-byte value kept base64-encoded. From it two
//! keys are derived with SHA-256 over `master ++ "::" ++ context`: one for the
//! database and one for password fields. A sealed password is the base64 text
//! of `nonce ++ ciphertext`, where the nonce is 12 random bytes.
use vstd::prelude::*;
use vstd::utf8::*;
use vstd::string::*;
use crate::text::{
    trim, trim_str, is_white_space, lemma_trim_no_white_space, chars_of, push_chars, push_str,
    string_from_chars, decimal, decimal_chars,
};
use crate::paths::{join_path, join_str};
use aes_gcm::aead::Aead;
use aes_gcm::aead::KeyInit;
use aes_gcm::Aes256Gcm;
use aes_gcm::Nonce;
use base64::Engine;
use rand::RngCore;
use sha2::Digest;
use zeroize::Zeroize;

verus! {

broadcast use {encode_utf8_valid_utf8, encode_utf8_decode_utf8};

/// What SHA-256 computes of a byte sequence.
pub uninterp spec fn sha256(data: Seq<u8>) -> Seq<u8>;

/// The padded standard-alphabet base64 text of a byte sequence.
pub uninterp spec fn base64_encode(data: Seq<u8>) -> Seq<char>;

/// What decoding padded standard-alphabet base64 text gives: the bytes where
/// it is well formed, else the fault that the decoder reports.
pub uninterp spec fn base64_decode(text: Seq<char>) -> Result<Seq<u8>, Base64Fault>;

/// Why base64 text could not be decoded: a symbol outside the alphabet
/// (its offset and byte), a length that no encoding has, a last symbol with
/// stray low bits (its offset and byte), or misplaced padding.
#[derive(Debug, Clone, Copy, PartialEq, Eq, Structural)]
pub enum Base64Fault {
    InvalidByte(usize, u8),
    InvalidLength(usize),
    InvalidLastSymbol(usize, u8),
    InvalidPadding,
}

impl Base64Fault {
    /// The message that the fault is reported with.
    pub fn message(&self) -> (res: String)
        ensures
            res@ == self.spec_message(),
    {
        let mut out: Vec<char> = Vec::new();
        match *self {
            Base64Fault::InvalidByte(index, byte) => {
                push_str(&mut out, "Invalid symbol ");
                let b = decimal_chars(byte as u64);
                push_chars(&mut out, &b);
                push_str(&mut out, ", offset ");
                let i = decimal_chars(index as u64);
                push_chars(&mut out, &i);
                push_str(&mut out, ".");
            },
            Base64Fault::InvalidLength(len) => {
                push_str(&mut out, "Invalid input length: ");
                let l = decimal_chars(len as u64);
                push_chars(&mut out, &l);
            },
            Base64Fault::InvalidLastSymbol(index, byte) => {
                push_str(&mut out, "Invalid last symbol ");
                let b = decimal_chars(byte as u64);
                push_chars(&mut out, &b);
                push_str(&mut out, ", offset ");
                let i = decimal_chars(index as u64);
                push_chars(&mut out, &i);
                push_str(&mut out, ".");
            },
            Base64Fault::InvalidPadding => {
                push_str(&mut out, "Invalid padding");
            },
        }
        string_from_chars(&out)
    }

    /// The message text of each fault.
    pub open spec fn spec_message(&self) -> Seq<char> {
        match *self {
            Base64Fault::InvalidByte(index, byte) => "Invalid symbol "@ + decimal(byte as nat)
                + ", offset "@ + decimal(index as nat) + "."@,
            Base64Fault::InvalidLength(len) => "Invalid input length: "@ + decimal(len as nat),
            Base64Fault::InvalidLastSymbol(index, byte) => "Invalid last symbol "@ + decimal(
                byte as nat,
            ) + ", offset "@ + decimal(index as nat) + "."@,
            Base64Fault::InvalidPadding => "Invalid padding"@,
        }
    }
}

/// AES-256-GCM sealing (no associated data): the ciphertext followed by the tag.
pub uninterp spec fn aes256gcm_seal(key: Seq<u8>, nonce: Seq<u8>, plaintext: Seq<u8>) -> Seq<u8>;

/// AES-256-GCM opening (no associated data): the plaintext if the tag checks.
pub uninterp spec fn aes256gcm_open(key: Seq<u8>, nonce: Seq<u8>, sealed: Seq<u8>) -> Option<
    Seq<u8>,
>;

/// Longest plaintext that AES-GCM accepts, in bytes.
pub const AES_GCM_MAX_PLAINTEXT: u64 = 0x10_0000_0000;

/// Length of an AES-GCM nonce, in bytes.
pub const NONCE_LEN: usize = 12;

/// Length of an AES-GCM tag, in bytes.
pub const TAG_LEN: usize = 16;

/// Length of the random master key, in bytes.
pub const MASTER_KEY_LEN: usize = 32;

/// Name of the file that holds the master key inside the data directory.
pub const MASTER_KEY_FILENAME: &'static str = "master.key";

/// SHA-256 of `data` (sha2's `Sha256::digest`): 32 bytes, named `sha256`.
#[verifier::external_body]
fn sha256_digest(data: &[u8]) -> (res: Vec<u8>)
    ensures
        res@ == sha256(data@),
        res@.len() == 32,
{
    sha2::Sha256::digest(data).to_vec()
}

/// base64's `STANDARD.encode`: the result is named `base64_encode`; it is
/// four characters for every three bytes or part thereof (padded, as the
/// crate's `encoded_len` computes), `STANDARD.decode` gives the input back
/// from it, and it is written in the standard alphabet with `=` padding. The crate panics when the output
/// length overflows `usize`, which the bound rules out.
#[verifier::external_body]
pub(crate) fn base64_encode_bytes(data: &[u8]) -> (res: String)
    requires
        data@.len() <= usize::MAX / 2,
    ensures
        res@ == base64_encode(data@),
        res@.len() == 4 * ((data@.len() + 2) / 3),
        base64_decode(res@) is Ok,
        base64_decode(res@)->Ok_0 == data@,
        forall|i: int| 0 <= i < res@.len() ==> is_base64_char(#[trigger] res@[i]),
{
    base64::engine::general_purpose::STANDARD.encode(data)
}

/// A character of the standard base64 alphabet, or the padding `=`.
pub open spec fn is_base64_char(c: char) -> bool {
    ||| 'A' <= c <= 'Z'
    ||| 'a' <= c <= 'z'
    ||| '0' <= c <= '9'
    ||| c == '+'
    ||| c == '/'
    ||| c == '='
}

/// base64's `STANDARD.decode`, each variant of its `DecodeError` carried over
/// to the fault of the same name; the result is named `base64_decode`.
#[verifier::external_body]
fn base64_decode_str(text: &str) -> (res: Result<Vec<u8>, Base64Fault>)
    ensures
        match res {
            Ok(v) => base64_decode(text@) matches Ok(d) && d == v@,
            Err(f) => base64_decode(text@) matches Err(g) && g == f,
        },
{
    match base64::engine::general_purpose::STANDARD.decode(text) {
        Ok(v) => Ok(v),
        Err(base64::DecodeError::InvalidByte(i, b)) => Err(Base64Fault::InvalidByte(i, b)),
        Err(base64::DecodeError::InvalidLength(n)) => Err(Base64Fault::InvalidLength(n)),
        Err(base64::DecodeError::InvalidLastSymbol(i, b)) => Err(Base64Fault::InvalidLastSymbol(i, b)),
        Err(base64::DecodeError::InvalidPadding) => Err(Base64Fault::InvalidPadding),
    }
}

/// aes-gcm's `Aes256Gcm::encrypt` with the given 32-byte key and 12-byte
/// nonce. It fails exactly when the plaintext is longer than 2^36 bytes; else
/// the result (named `aes256gcm_seal`) is 16 bytes longer than the plaintext,
/// and `Aes256Gcm::decrypt` with the same key and nonce gives the plaintext back.
#[verifier::external_body]
fn aes256gcm_encrypt(key: &[u8], nonce: &[u8], plaintext: &[u8]) -> (res: Option<Vec<u8>>)
    requires
        key@.len() == 32,
        nonce@.len() == 12,
    ensures
        res is None <==> plaintext@.len() > AES_GCM_MAX_PLAINTEXT,
        res matches Some(c) ==> {
            &&& c@ == aes256gcm_seal(key@, nonce@, plaintext@)
            &&& c@.len() == plaintext@.len() + 16
            &&& aes256gcm_open(key@, nonce@, c@) == Some(plaintext@)
        },
{
    let cipher = Aes256Gcm::new(aes_gcm::Key::<Aes256Gcm>::from_slice(key));
    cipher.encrypt(Nonce::from_slice(nonce), plaintext).ok()
}

/// aes-gcm's `Aes256Gcm::decrypt` with the given 32-byte key and 12-byte
/// nonce, its error turned into `None`; the result is named `aes256gcm_open`.
#[verifier::external_body]
fn aes256gcm_decrypt(key: &[u8], nonce: &[u8], sealed: &[u8]) -> (res: Option<Vec<u8>>)
    requires
        key@.len() == 32,
        nonce@.len() == 12,
    ensures
        match res {
            Some(v) => aes256gcm_open(key@, nonce@, sealed@) == Some(v@),
            None => aes256gcm_open(key@, nonce@, sealed@) is None,
        },
{
    let cipher = Aes256Gcm::new(aes_gcm::Key::<Aes256Gcm>::from_slice(key));
    cipher.decrypt(Nonce::from_slice(nonce), sealed).ok()
}

/// std's `String::from_utf8`: succeeds exactly on valid UTF-8 and then holds
/// the decoded characters.
#[verifier::external_body]
fn string_from_utf8(bytes: Vec<u8>) -> (res: Option<String>)
    ensures
        res is Some <==> valid_utf8(bytes@),
        res matches Some(s) ==> s@ == decode_utf8(bytes@),
{
    String::from_utf8(bytes).ok()
}

/// `n` bytes from rand's `thread_rng().fill_bytes`; nothing is promised of
/// their values.
#[verifier::external_body]
fn random_bytes(n: usize) -> (res: Vec<u8>)
    ensures
        res@.len() == n,
{
    let mut buf = vec![0u8; n];
    rand::thread_rng().fill_bytes(&mut buf);
    buf
}

/// zeroize's `Vec::zeroize`: overwrites the bytes and leaves the vector empty.
#[verifier::external_body]
fn zeroize_bytes(buf: &mut Vec<u8>)
    ensures
        final(buf)@.len() == 0,
{
    buf.zeroize();
}

/// Context under which the password-field key is derived.
pub open spec fn password_context() -> Seq<char> {
    "server-password"@
}

/// Context under which the database key is derived.
pub open spec fn database_context() -> Seq<char> {
    "sqlcipher"@
}

/// The 32-byte key derived from a master key for a context:
/// SHA-256 of `utf8(master) ++ "::" ++ utf8(context)`.
pub open spec fn key_material(master: Seq<char>, context: Seq<char>) -> Seq<u8> {
    sha256(encode_utf8(master) + seq![58u8, 58u8] + encode_utf8(context))
}

/// The database key: the base64 text of the key derived for the database.
pub open spec fn database_key(master: Seq<char>) -> Seq<char> {
    base64_encode(key_material(master, database_context()))
}

/// The sealed form of `plaintext` under `master` with the given nonce, or
/// `None` where AES-GCM refuses the plaintext for its length.
pub open spec fn sealed_secret(master: Seq<char>, nonce: Seq<u8>, plaintext: Seq<char>) -> Option<
    Seq<char>,
> {
    let bytes = encode_utf8(plaintext);
    if bytes.len() > AES_GCM_MAX_PLAINTEXT {
        None
    } else {
        Some(
            base64_encode(
                nonce + aes256gcm_seal(key_material(master, password_context()), nonce, bytes),
            ),
        )
    }
}

/// Why a secret could not be sealed or opened.
#[derive(Debug, Clone, Copy, PartialEq, Eq, Structural)]
pub enum CryptoError {
    /// AES-GCM refused the plaintext.
    EncryptionFailed,
    /// The payload is not base64 text, for the given fault.
    InvalidEncoding(Base64Fault),
    /// The decoded payload is shorter than a nonce and one byte.
    MalformedPayload,
    /// AES-GCM authentication of the payload failed.
    DecryptionFailed,
    /// The opened bytes are not UTF-8.
    InvalidUtf8,
}

impl CryptoError {
    /// The message that the error is reported with.
    pub fn message(&self) -> (res: String)
        ensures
            res@ == self.spec_message(),
    {
        match self {
            CryptoError::EncryptionFailed => "failed to encrypt secret".to_owned(),
            CryptoError::InvalidEncoding(f) => f.message(),
            CryptoError::MalformedPayload => "encrypted secret payload is malformed".to_owned(),
            CryptoError::DecryptionFailed => "failed to decrypt secret".to_owned(),
            CryptoError::InvalidUtf8 => "decrypted secret was not valid UTF-8".to_owned(),
        }
    }

    /// The message text of each error.
    pub open spec fn spec_message(&self) -> Seq<char> {
        match self {
            CryptoError::EncryptionFailed => "failed to encrypt secret"@,
            CryptoError::InvalidEncoding(f) => f.spec_message(),
            CryptoError::MalformedPayload => "encrypted secret payload is malformed"@,
            CryptoError::DecryptionFailed => "failed to decrypt secret"@,
            CryptoError::InvalidUtf8 => "decrypted secret was not valid UTF-8"@,
        }
    }
}

/// What opening `payload` under `master` gives: the base64 text is decoded,
/// split after the 12-byte nonce, opened with the password-field key, and
/// read as UTF-8.
pub open spec fn opened_secret(master: Seq<char>, payload: Seq<char>) -> Result<
    Seq<char>,
    CryptoError,
> {
    match base64_decode(payload) {
        Err(f) => Err(CryptoError::InvalidEncoding(f)),
        Ok(decoded) => if decoded.len() < 13 {
            Err(CryptoError::MalformedPayload)
        } else {
            match aes256gcm_open(
                key_material(master, password_context()),
                decoded.take(12),
                decoded.skip(12),
            ) {
                None => Err(CryptoError::DecryptionFailed),
                Some(bytes) => if valid_utf8(bytes) {
                    Ok(decode_utf8(bytes))
                } else {
                    Err(CryptoError::InvalidUtf8)
                },
            }
        },
    }
}

fn push_bytes(buf: &mut Vec<u8>, tail: &[u8])
    ensures
        final(buf)@ == old(buf)@ + tail@,
{
    let mut i: usize = 0;
    while i < tail.len()
        invariant
            i <= tail@.len(),
            buf@ == old(buf)@ + tail@.take(i as int),
        decreases tail@.len() - i,
    {
        buf.push(tail[i]);
        i = i + 1;
        assert(tail@.take(i as int) =~= tail@.take(i - 1).push(tail@[i - 1]));
    }
    assert(tail@.take(i as int) =~= tail@);
}

/// The UTF-8 encoding of a text has at least one byte per character.
proof fn lemma_utf8_at_least_as_long(chars: Seq<char>)
    ensures
        encode_utf8(chars).len() >= chars.len(),
    decreases chars.len(),
{
    if chars.len() > 0 {
        lemma_utf8_at_least_as_long(chars.drop_first());
    }
}

/// The 32-byte key derived from `master_key` for `context`.
pub fn derive_key_material(master_key: &str, context: &str) -> (res: Vec<u8>)
    ensures
        res@ == key_material(master_key@, context@),
        res@.len() == 32,
{
    let mut input: Vec<u8> = Vec::new();
    push_bytes(&mut input, master_key.as_bytes());
    input.push(58u8);
    input.push(58u8);
    push_bytes(&mut input, context.as_bytes());
    assert(input@ =~= encode_utf8(master_key@) + seq![58u8, 58u8] + encode_utf8(context@));
    sha256_digest(input.as_slice())
}

/// The database key that `master_key` yields.
pub fn derive_database_key(master_key: &str) -> (res: String)
    ensures
        res@ == database_key(master_key@),
{
    let key = derive_key_material(master_key, "sqlcipher");
    proof {
        reveal_strlit("sqlcipher");
    }
    base64_encode_bytes(key.as_slice())
}

/// Seals `plaintext` under `master_key` with the given 12-byte nonce.
/// Fails, with `EncryptionFailed`, exactly when the plaintext is longer than
/// AES-GCM accepts. What it returns, `decrypt_secret` opens again to the
/// plaintext under the same master key.
pub fn encrypt_secret_with_nonce(master_key: &str, plaintext: &str, nonce: &[u8]) -> (res: Result<
    String,
    CryptoError,
>)
    requires
        nonce@.len() == NONCE_LEN,
        encode_utf8(plaintext@).len() + 28 <= usize::MAX / 2,
    ensures
        match res {
            Ok(p) => sealed_secret(master_key@, nonce@, plaintext@) == Some(p@),
            Err(e) => e == CryptoError::EncryptionFailed && sealed_secret(
                master_key@,
                nonce@,
                plaintext@,
            ) is None,
        },
        res matches Ok(p) ==> opened_secret(master_key@, p@) == Ok::<Seq<char>, CryptoError>(plaintext@),
        res matches Ok(p) ==> p@ != plaintext@,
{
    let key = derive_key_material(master_key, "server-password");
    proof {
        reveal_strlit("server-password");
    }
    let bytes = plaintext.as_bytes();
    match aes256gcm_encrypt(key.as_slice(), nonce, bytes) {
        None => Err(CryptoError::EncryptionFailed),
        Some(sealed) => {
            let mut payload: Vec<u8> = Vec::new();
            push_bytes(&mut payload, nonce);
            push_bytes(&mut payload, sealed.as_slice());
            let text = base64_encode_bytes(payload.as_slice());
            proof {
                let d = payload@;
                assert(d.take(12) =~= nonce@);
                assert(d.skip(12) =~= sealed@);
                lemma_utf8_at_least_as_long(plaintext@);
                let n = bytes@.len() as int;
                assert(4 * ((n + 28 + 2) / 3) > n) by (nonlinear_arith)
                    requires n >= 0;
            }
            Ok(text)
        },
    }
}

/// Seals `plaintext` under `master_key` with a fresh random nonce: the
/// result is `sealed_secret` for some 12-byte nonce, and `decrypt_secret`
/// opens it again to the plaintext. Fails exactly when the plaintext is longer
/// than AES-GCM accepts.
pub fn encrypt_secret(master_key: &str, plaintext: &str) -> (res: Result<String, CryptoError>)
    requires
        encode_utf8(plaintext@).len() + 28 <= usize::MAX / 2,
    ensures
        match res {
            Ok(p) => exists|nonce: Seq<u8>|
                nonce.len() == NONCE_LEN && sealed_secret(master_key@, nonce, plaintext@) == Some(
                    p@,
                ),
            Err(e) => e == CryptoError::EncryptionFailed && encode_utf8(plaintext@).len()
                > AES_GCM_MAX_PLAINTEXT,
        },
        res matches Ok(p) ==> opened_secret(master_key@, p@) == Ok::<Seq<char>, CryptoError>(plaintext@),
        res matches Ok(p) ==> p@ != plaintext@,
{
    let nonce = fresh_nonce();
    encrypt_secret_with_nonce(master_key, plaintext, nonce.as_slice())
}

/// A fresh random 12-byte nonce.
pub fn fresh_nonce() -> (res: Vec<u8>)
    ensures
        res@.len() == NONCE_LEN,
{
    random_bytes(NONCE_LEN)
}

/// Opens a sealed password payload under `master_key`.
pub fn decrypt_secret(master_key: &str, payload: &str) -> (res: Result<String, CryptoError>)
    ensures
        match res {
            Ok(s) => opened_secret(master_key@, payload@) == Ok::<Seq<char>, CryptoError>(s@),
            Err(e) => opened_secret(master_key@, payload@) == Err::<Seq<char>, CryptoError>(e),
        },
{
    let key = derive_key_material(master_key, "server-password");
    proof {
        reveal_strlit("server-password");
    }
    let decoded = match base64_decode_str(payload) {
        Ok(d) => d,
        Err(f) => {
            return Err(CryptoError::InvalidEncoding(f));
        },
    };
    if decoded.len() < 13 {
        return Err(CryptoError::MalformedPayload);
    }
    let (nonce, sealed) = decoded.as_slice().split_at(12);
    assert(nonce@ =~= decoded@.take(12));
    assert(sealed@ =~= decoded@.skip(12));
    match aes256gcm_decrypt(key.as_slice(), nonce, sealed) {
        None => Err(CryptoError::DecryptionFailed),
        Some(bytes) => match string_from_utf8(bytes) {
            Some(s) => Ok(s),
            None => Err(CryptoError::InvalidUtf8),
        },
    }
}

/// A fresh master key: the base64 text of 32 random bytes, 44 characters
/// long, which decodes back to those bytes. The raw bytes are wiped before
/// returning. The key reads back unchanged from the file it is written to.
pub fn generate_master_key() -> (res: String)
    ensures
        exists|raw: Seq<u8>|
            raw.len() == MASTER_KEY_LEN && res@ == base64_encode(raw) && base64_decode(res@) == Ok::<
                Seq<u8>,
                Base64Fault,
            >(raw),
        res@.len() == 44,
        trim(res@) == res@,
{
    let mut raw = random_bytes(MASTER_KEY_LEN);
    let encoded = base64_encode_bytes(raw.as_slice());
    let ghost bytes = raw@;
    zeroize_bytes(&mut raw);
    proof {
        assert(bytes.len() == MASTER_KEY_LEN && encoded@ == base64_encode(bytes) && base64_decode(encoded@) == Ok::<Seq<u8>, Base64Fault>(bytes));
        assert forall|i: int| 0 <= i < encoded@.len() implies !is_white_space(#[trigger] encoded@[i]) by {
            assert(is_base64_char(encoded@[i]));
        }
        lemma_trim_no_white_space(encoded@);
    }
    encoded
}

/// The master key held in the text of a key file: the text without leading
/// and trailing white space.
pub fn master_key_from_file(contents: &str) -> (res: String)
    ensures
        res@ == trim(contents@),
{
    trim_str(contents)
}

/// Where the master key file lies in the data directory.
pub fn master_key_path(app_data_dir: &str) -> (res: String)
    ensures
        res@ == join_path(app_data_dir@, MASTER_KEY_FILENAME@),
{
    join_str(app_data_dir, MASTER_KEY_FILENAME)
}

} // verus!
