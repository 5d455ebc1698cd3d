//! The stored session: the access and refresh tokens, encrypted with the
//! launcher's key (AES-256 through `magic_crypt`) before they are written, and
//! decrypted when read back.
use vstd::prelude::*;
use vstd::utf8::{decode_utf8, encode_utf8, valid_utf8};

verus! {

broadcast use {vstd::utf8::encode_utf8_valid_utf8, vstd::utf8::encode_utf8_decode_utf8};

/// What `MagicCrypt256` (key from `key`, no IV) makes of `data`.
pub uninterp spec fn spec_aes256_encrypt(key: Seq<char>, data: Seq<u8>) -> Seq<u8>;

/// What `MagicCrypt256` (key from `key`, no IV) decrypts `data` to; `None`
/// where it reports an error.
pub uninterp spec fn spec_aes256_decrypt(key: Seq<char>, data: Seq<u8>) -> Option<Seq<u8>>;

/// Calls `MagicCrypt256::new(key, None)` and `encrypt_to_bytes` on the UTF-8
/// bytes of `text` (AES-256-CBC, PKCS7 padding, key from SHA-256 of `key`,
/// zero IV). Claimed: the result depends on the key and the text alone.
#[verifier::external_body]
fn encrypt_text(key: &str, text: &str) -> (res: Vec<u8>)
    ensures
        res@ == spec_aes256_encrypt(key@, encode_utf8(text@)),
{
    magic_crypt::MagicCryptTrait::encrypt_to_bytes(
        &<magic_crypt::MagicCrypt256 as magic_crypt::MagicCryptTrait>::new(key, None::<String>),
        text,
    )
}

/// Calls `MagicCrypt256::new(key, None)` and `decrypt_bytes_to_bytes`.
/// Claimed: the result depends on the key and the bytes alone, and bytes that
/// the same key encrypted decrypt to what was encrypted.
#[verifier::external_body]
fn decrypt_bytes(key: &str, data: &[u8]) -> (res: Option<Vec<u8>>)
    ensures
        match res {
            Some(r) => spec_aes256_decrypt(key@, data@) == Some(r@),
            None => spec_aes256_decrypt(key@, data@) is None,
        },
        forall|m: Seq<u8>| data@ == spec_aes256_encrypt(key@, m) ==> (res is Some && res->0@ == m),
{
    magic_crypt::MagicCryptTrait::decrypt_bytes_to_bytes(
        &<magic_crypt::MagicCrypt256 as magic_crypt::MagicCryptTrait>::new(key, None::<String>),
        data,
    ).ok()
}

/// Calls `std::str::from_utf8`: the text of valid UTF-8 bytes.
#[verifier::external_body]
fn utf8_text(b: &[u8]) -> (res: Option<String>)
    ensures
        res is Some <==> valid_utf8(b@),
        res matches Some(s) ==> s@ == decode_utf8(b@),
{
    std::str::from_utf8(b).ok().map(|s| s.to_string())
}

/// The two tokens as they are written to storage.
#[derive(Debug)]
pub struct StoredSession {
    pub access_token: Vec<u8>,
    pub refresh_token: Vec<u8>,
}

/// Why a stored session could not be read.
#[derive(Clone, Copy, Debug, PartialEq, Eq, Structural)]
pub enum StorageError {
    /// A token does not decrypt with the key.
    Decrypt,
    /// A decrypted token is no UTF-8 text.
    Utf8,
}

/// Encrypts the tokens for storage; the caller writes the result.
pub fn store_session(key: &str, access_token: &str, refresh_token: &str) -> (res: StoredSession)
    ensures
        res.access_token@ == spec_aes256_encrypt(key@, encode_utf8(access_token@)),
        res.refresh_token@ == spec_aes256_encrypt(key@, encode_utf8(refresh_token@)),
{
    StoredSession { access_token: encrypt_text(key, access_token), refresh_token: encrypt_text(key, refresh_token) }
}

/// The token that stored bytes hold.
pub open spec fn spec_read_token(key: Seq<char>, data: Seq<u8>) -> Result<Seq<char>, StorageError> {
    match spec_aes256_decrypt(key, data) {
        None => Err(StorageError::Decrypt),
        Some(b) => if valid_utf8(b) {
            Ok(decode_utf8(b))
        } else {
            Err(StorageError::Utf8)
        },
    }
}

fn read_token(key: &str, data: &[u8]) -> (res: Result<String, StorageError>)
    ensures
        match res {
            Ok(t) => spec_read_token(key@, data@) == Ok::<Seq<char>, StorageError>(t@),
            Err(e) => spec_read_token(key@, data@) == Err::<Seq<char>, StorageError>(e),
        },
        forall|t: Seq<char>| data@ == #[trigger] spec_aes256_encrypt(key@, encode_utf8(t)) ==> (res matches Ok(x) && x@ == t),
{
    let b = match decrypt_bytes(key, data) {
        Some(b) => b,
        None => {
            return Err(StorageError::Decrypt);
        },
    };
    match utf8_text(b.as_slice()) {
        Some(s) => Ok(s),
        None => Err(StorageError::Utf8),
    }
}

/// Reads the tokens back from what storage holds, as the caller read it:
/// nothing when either is missing, else both decrypted, the
/// access token first. What `store_session` wrote reads back as the tokens
/// it was given.
pub fn retrieve_session(key: &str, access_token: Option<&[u8]>, refresh_token: Option<&[u8]>) -> (res: Result<Option<(String, String)>, StorageError>)
    ensures
        (access_token is None || refresh_token is None) ==> res matches Ok(None),
        access_token matches Some(a) ==> refresh_token matches Some(r) ==> match (spec_read_token(key@, a@), spec_read_token(key@, r@)) {
            (Err(e), _) => res == Err::<Option<(String, String)>, StorageError>(e),
            (Ok(_), Err(e)) => res == Err::<Option<(String, String)>, StorageError>(e),
            (Ok(x), Ok(y)) => res matches Ok(Some((p, q))) && p@ == x && q@ == y,
        },
        forall|x: Seq<char>, y: Seq<char>|
            (access_token matches Some(a) && a@ == #[trigger] spec_aes256_encrypt(key@, encode_utf8(x)))
                && (refresh_token matches Some(r) && r@ == #[trigger] spec_aes256_encrypt(key@, encode_utf8(y)))
                ==> (res matches Ok(Some((p, q))) && p@ == x && q@ == y),
{
    match (access_token, refresh_token) {
        (Some(a), Some(r)) => {
            let x = read_token(key, a)?;
            let y = read_token(key, r)?;
            Ok(Some((x, y)))
        },
        _ => Ok(None),
    }
}

} // verus!
