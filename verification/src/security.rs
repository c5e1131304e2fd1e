//! Trusted boundary to the cryptographic and validation crates: random
//! bytes, SHA3 hashing, base64, the Argon2 key derivation, the AES-GCM
//! AEAD cipher, and URL syntax checking. Each wrapper's contract states
//! only what the wrapped crate's documentation promises; deterministic
//! results are given names that the rest of the library reasons with.

use vstd::prelude::*;
use sha3::Digest;
use base64ct::Encoding;
use aes_gcm::aead::Aead;
use aes_gcm::KeyInit;

verus! {

/// The SHA3-256 digest of a text: 32 bytes determined by the text alone.
pub uninterp spec fn sha3_of(s: Seq<char>) -> Seq<u8>;

/// The base64 encoding of a byte string.
pub uninterp spec fn b64_of(b: Seq<u8>) -> Seq<char>;

/// The strict base64 decoding of a text, if it is a valid encoding.
pub uninterp spec fn b64_decode_of(s: Seq<char>) -> Option<Seq<u8>>;

/// The 32-byte Argon2 key derived from a password and a salt.
pub uninterp spec fn argon_key_of(password: Seq<char>, salt: Seq<u8>) -> Seq<u8>;

/// The plaintext that AES-256-GCM decryption (followed by UTF-8 decoding)
/// yields for a key, nonce and ciphertext, if authentication succeeds.
pub uninterp spec fn aead_open_of(key: Seq<u8>, nonce: Seq<u8>, ct: Seq<u8>) -> Option<Seq<char>>;

/// Whether a text is an absolute URL that the `url` crate accepts.
pub uninterp spec fn url_ok(s: Seq<char>) -> bool;

/// The uppercase rendering of a text, depending on the text alone.
pub uninterp spec fn upper_of(s: Seq<char>) -> Seq<char>;

/// Whether a character belongs to the standard base64 alphabet
/// (including padding).
pub open spec fn is_b64_char(c: char) -> bool {
    ('A' as int <= c as int && c as int <= 'Z' as int) || ('a' as int <= c as int && c as int
        <= 'z' as int) || ('0' as int <= c as int && c as int <= '9' as int) || c == '+' || c == '/'
        || c == '='
}

/// Relies on getrandom::fill: on success the buffer of `n` bytes is filled
/// with random data. Nothing is assumed of the values.
#[verifier::external_body]
pub fn random_bytes(n: usize) -> (r: Option<Vec<u8>>)
    ensures
        r matches Some(v) ==> v@.len() == n as int,
{
    let mut buf = vec![0u8; n];
    match getrandom::fill(&mut buf) {
        Ok(()) => Some(buf),
        Err(_) => None,
    }
}

/// Relies on sha3::Sha3_256 (via the Digest trait): a 32-byte digest that
/// depends on the input text alone.
#[verifier::external_body]
fn sha3_digest(s: &str) -> (r: Vec<u8>)
    ensures
        r@ == sha3_of(s@),
        r@.len() == 32,
{
    sha3::Sha3_256::digest(s.as_bytes()).to_vec()
}

/// Relies on base64ct::Base64::encode_string: the standard padded base64
/// text of the bytes, over the base64 alphabet, and strict decoding
/// inverts it.
#[verifier::external_body]
pub fn b64_encode(b: &[u8]) -> (r: String)
    ensures
        r@ == b64_of(b@),
        b64_decode_of(r@) == Some(b@),
        forall|i: int| 0 <= i < r@.len() ==> is_b64_char(#[trigger] r@[i]),
{
    base64ct::Base64::encode_string(b)
}

/// Relies on base64ct::Base64::decode_vec: strict base64 decoding, a
/// function of the text alone.
#[verifier::external_body]
pub fn b64_decode(s: &str) -> (r: Option<Vec<u8>>)
    ensures
        r matches Some(v) ==> b64_decode_of(s@) == Some(v@),
        r is None ==> b64_decode_of(s@) is None,
{
    base64ct::Base64::decode_vec(s).ok()
}

/// Relies on argon2::hash_raw with the default configuration: a 32-byte
/// raw hash determined by the password and the salt alone. With that
/// configuration the call succeeds exactly when the salt holds 8 to
/// 2^32 - 1 bytes and the password at most 2^32 - 1 bytes; a character
/// takes at most four bytes, so a quarter of that count in characters is
/// surely enough.
#[verifier::external_body]
pub fn argon2_key(password: &str, salt: &[u8]) -> (r: Option<Vec<u8>>)
    ensures
        r matches Some(v) ==> v@ == argon_key_of(password@, salt@) && v@.len() == 32,
        8 <= salt@.len() <= 0xFFFF_FFFF && password@.len() <= 0x3FFF_FFFF ==> r is Some,
{
    argon2::hash_raw(password.as_bytes(), salt, &argon2::Config::default()).ok()
}

/// Relies on aes_gcm::Aes256Gcm (Aead::encrypt): on success, decrypting
/// the returned ciphertext with the same key and nonce yields the
/// plaintext back.
#[verifier::external_body]
pub fn aead_encrypt(key: &[u8], nonce: &[u8], plain: &str) -> (r: Option<Vec<u8>>)
    ensures
        r matches Some(ct) ==> aead_open_of(key@, nonce@, ct@) == Some(plain@),
{
    let cipher = aes_gcm::Aes256Gcm::new_from_slice(key).ok()?;
    let nonce = aes_gcm::Nonce::<aes_gcm::aead::consts::U12>::try_from(nonce).ok()?;
    cipher.encrypt(&nonce, plain.as_bytes()).ok()
}

/// Relies on aes_gcm::Aes256Gcm (Aead::decrypt) and UTF-8 decoding: the
/// authenticated plaintext, a function of key, nonce and ciphertext alone;
/// nothing when authentication or decoding fails.
#[verifier::external_body]
pub fn aead_decrypt(key: &[u8], nonce: &[u8], ct: &[u8]) -> (r: Option<String>)
    ensures
        r matches Some(p) ==> aead_open_of(key@, nonce@, ct@) == Some(p@),
        r is None ==> aead_open_of(key@, nonce@, ct@) is None,
{
    let cipher = aes_gcm::Aes256Gcm::new_from_slice(key).ok()?;
    let nonce = aes_gcm::Nonce::<aes_gcm::aead::consts::U12>::try_from(nonce).ok()?;
    let bytes = cipher.decrypt(&nonce, ct).ok()?;
    String::from_utf8(bytes).ok()
}

/// Relies on url::Url::parse: whether the text is an absolute URL, a
/// property of the text alone.
#[verifier::external_body]
pub fn url_valid(s: &str) -> (r: bool)
    ensures
        r == url_ok(s@),
{
    url::Url::parse(s).is_ok()
}

/// Relies on str::to_uppercase: the result depends on the characters
/// alone.
#[verifier::external_body]
pub fn str_to_uppercase(s: &str) -> (r: String)
    ensures
        r@ == upper_of(s@),
{
    s.to_uppercase()
}

/// A base64 character is never a double quote.
pub proof fn lemma_b64_no_quote(c: char)
    requires
        is_b64_char(c),
    ensures
        c != '"',
{
    assert('"' as int == 34);
    assert('A' as int == 65);
    assert('Z' as int == 90);
    assert('a' as int == 97);
    assert('z' as int == 122);
    assert('0' as int == 48);
    assert('9' as int == 57);
    assert('+' as int == 43);
    assert('/' as int == 47);
    assert('=' as int == 61);
}

/// A text of base64 characters holds no double quote.
pub proof fn lemma_b64_text_no_quote(s: Seq<char>)
    requires
        forall|i: int| 0 <= i < s.len() ==> is_b64_char(#[trigger] s[i]),
    ensures
        forall|i: int| 0 <= i < s.len() ==> s[i] != '"',
{
    assert forall|i: int| 0 <= i < s.len() implies s[i] != '"' by {
        lemma_b64_no_quote(s[i]);
    }
}

/// The SHA3-256 hash of a text, rendered in base64: the fingerprint used
/// for user identifiers.
pub fn hash(s: String) -> (r: String)
    ensures
        r@ == b64_of(sha3_of(s@)),
{
    let digest = sha3_digest(s.as_str());
    b64_encode(digest.as_slice())
}

/// A fresh random 128-bit salt, base64-rendered.
pub fn generate_salt() -> (r: Option<String>)
    ensures
        r matches Some(s) ==> exists|b: Seq<u8>| b.len() == 16 && s@ == b64_of(b),
{
    match generate_salt_raw() {
        Some(b) => Some(b64_encode(b.as_slice())),
        None => None,
    }
}

/// A fresh random 128-bit salt as raw bytes.
pub fn generate_salt_raw() -> (r: Option<Vec<u8>>)
    ensures
        r matches Some(v) ==> v@.len() == 16,
{
    random_bytes(16)
}

} // verus!
