//! The session's user: language preference, the hashed identifier the
//! server files data under, and the password-derived secret that encrypts
//! every module payload on the client. The envelope a payload travels in
//! is serialized as a small JSON object whose base64 fields hold no
//! quote, so its codec is proved to round-trip.

use vstd::prelude::*;
use crate::codec::find_quote;
use crate::codec::lemma_quote_idx;
use crate::codec::match_lit;
use crate::codec::quote_idx;
use crate::security::aead_decrypt;
use crate::security::aead_encrypt;
use crate::security::aead_open_of;
use crate::security::argon2_key;
use crate::security::argon_key_of;
use crate::security::b64_decode;
use crate::security::b64_decode_of;
use crate::security::b64_encode;
use crate::security::b64_of;
use crate::security::generate_salt_raw;
use crate::security::hash;
use crate::security::random_bytes;
use crate::security::sha3_of;
use crate::security::str_to_uppercase;
use crate::security::upper_of;

verus! {

/// The model of an encryption envelope: salt, nonce and ciphertext, each
/// base64-rendered.
pub struct UserDataCypherModel {
    pub salt: Seq<char>,
    pub nonce: Seq<char>,
    pub content: Seq<char>,
}

/// The encryption envelope as it travels inside a record's content.
#[derive(Debug, Clone)]
pub struct UserDataCypher {
    pub salt: String,
    pub nonce: String,
    pub content: String,
}

impl View for UserDataCypher {
    type V = UserDataCypherModel;

    open spec fn view(&self) -> UserDataCypherModel {
        UserDataCypherModel { salt: self.salt@, nonce: self.nonce@, content: self.content@ }
    }
}

/// Well-formed: no envelope field holds a double quote (base64 text
/// never does), so the serialized object can be cut apart again.
pub open spec fn env_wf(e: UserDataCypherModel) -> bool {
    (forall|i: int| 0 <= i < e.salt.len() ==> e.salt[i] != '"') && (forall|i: int|
        0 <= i < e.nonce.len() ==> e.nonce[i] != '"') && (forall|i: int|
        0 <= i < e.content.len() ==> e.content[i] != '"')
}

/// The serialized envelope: a JSON object with the three fields.
pub open spec fn env_enc(e: UserDataCypherModel) -> Seq<char> {
    "{\"salt\":\""@ + e.salt + "\",\"nonce\":\""@ + e.nonce + "\",\"content\":\""@ + e.content
        + "\"}"@
}

/// Read an envelope back out of its serialized form.
pub open spec fn env_dec(s: Seq<char>) -> Option<UserDataCypherModel> {
    let l1 = "{\"salt\":\""@;
    let l2 = "\",\"nonce\":\""@;
    let l3 = "\",\"content\":\""@;
    let l4 = "\"}"@;
    if s.len() < l1.len() || s.take(l1.len() as int) != l1 {
        None
    } else {
        let r1 = s.skip(l1.len() as int);
        let a = quote_idx(r1);
        if a >= r1.len() {
            None
        } else {
            let salt = r1.take(a);
            let r2 = r1.skip(a);
            if r2.len() < l2.len() || r2.take(l2.len() as int) != l2 {
                None
            } else {
                let r3 = r2.skip(l2.len() as int);
                let b = quote_idx(r3);
                if b >= r3.len() {
                    None
                } else {
                    let nonce = r3.take(b);
                    let r4 = r3.skip(b);
                    if r4.len() < l3.len() || r4.take(l3.len() as int) != l3 {
                        None
                    } else {
                        let r5 = r4.skip(l3.len() as int);
                        let c = quote_idx(r5);
                        if c >= r5.len() {
                            None
                        } else {
                            let content = r5.take(c);
                            let r6 = r5.skip(c);
                            if r6 != l4 {
                                None
                            } else {
                                Some(UserDataCypherModel { salt, nonce, content })
                            }
                        }
                    }
                }
            }
        }
    }
}

/// Law: a serialized well-formed envelope reads back to itself.
pub proof fn lemma_env_round_trip(e: UserDataCypherModel)
    requires
        env_wf(e),
    ensures
        env_dec(env_enc(e)) == Some(e),
{
    let l1 = "{\"salt\":\""@;
    let l2 = "\",\"nonce\":\""@;
    let l3 = "\",\"content\":\""@;
    let l4 = "\"}"@;
    reveal_strlit("{\"salt\":\"");
    reveal_strlit("\",\"nonce\":\"");
    reveal_strlit("\",\"content\":\"");
    reveal_strlit("\"}");
    assert(l1.len() == 9);
    assert(l2.len() == 11);
    assert(l3.len() == 13);
    assert(l4.len() == 2);
    assert(l2[0] == '"');
    assert(l3[0] == '"');
    assert(l4[0] == '"');
    let s = env_enc(e);
    assert(s.take(9) =~= l1);
    let r1 = s.skip(9);
    assert(r1 =~= e.salt + l2 + e.nonce + l3 + e.content + l4);
    assert(r1[e.salt.len() as int] == '"');
    lemma_quote_idx(r1, e.salt.len() as int);
    assert(r1.take(e.salt.len() as int) =~= e.salt);
    let r2 = r1.skip(e.salt.len() as int);
    assert(r2 =~= l2 + e.nonce + l3 + e.content + l4);
    assert(r2.take(11) =~= l2);
    let r3 = r2.skip(11);
    assert(r3 =~= e.nonce + l3 + e.content + l4);
    assert(r3[e.nonce.len() as int] == '"');
    lemma_quote_idx(r3, e.nonce.len() as int);
    assert(r3.take(e.nonce.len() as int) =~= e.nonce);
    let r4 = r3.skip(e.nonce.len() as int);
    assert(r4 =~= l3 + e.content + l4);
    assert(r4.take(13) =~= l3);
    let r5 = r4.skip(13);
    assert(r5 =~= e.content + l4);
    assert(r5[e.content.len() as int] == '"');
    lemma_quote_idx(r5, e.content.len() as int);
    assert(r5.take(e.content.len() as int) =~= e.content);
    let r6 = r5.skip(e.content.len() as int);
    assert(r6 =~= l4);
}

/// Serialize an envelope.
pub fn env_encode(e: &UserDataCypher) -> (r: String)
    ensures
        r@ == env_enc(e@),
{
    let mut out = String::new();
    out.append("{\"salt\":\"");
    out.append(e.salt.as_str());
    out.append("\",\"nonce\":\"");
    out.append(e.nonce.as_str());
    out.append("\",\"content\":\"");
    out.append(e.content.as_str());
    out.append("\"}");
    out
}

/// Read an envelope back out of its serialized form.
pub fn env_decode(s: &str) -> (r: Option<UserDataCypher>)
    ensures
        match r {
            Some(e) => env_dec(s@) == Some(e@),
            None => env_dec(s@) is None,
        },
{
    let n = s.unicode_len();
    proof {
        reveal_strlit("{\"salt\":\"");
        reveal_strlit("\",\"nonce\":\"");
        reveal_strlit("\",\"content\":\"");
        reveal_strlit("\"}");
        assert("{\"salt\":\""@.len() == 9);
        assert("\",\"nonce\":\""@.len() == 11);
        assert("\",\"content\":\""@.len() == 13);
        assert("\"}"@.len() == 2);
    }
    if !match_lit(s, 0, "{\"salt\":\"") {
        proof {
            assert(s@.subrange(0, 9) =~= s@.take(9));
        }
        return None;
    }
    proof {
        assert(s@.subrange(0, 9) =~= s@.take(9));
    }
    let a = find_quote(s, 9);
    proof {
        assert(forall|j: int| 0 <= j < s@.skip(9).len() ==> s@.skip(9)[j] == s@[j + 9]);
    }
    if a == n {
        return None;
    }
    let salt = s.substring_char(9, a).to_owned();
    proof {
        assert(salt@ =~= s@.skip(9).take(a as int - 9));
    }
    if !match_lit(s, a, "\",\"nonce\":\"") {
        proof {
            let r2 = s@.skip(9).skip(a as int - 9);
            assert(r2 =~= s@.skip(a as int));
            if r2.len() >= 11 {
                assert(r2.take(11) =~= s@.subrange(a as int, a as int + 11));
            }
        }
        return None;
    }
    proof {
        let r2 = s@.skip(9).skip(a as int - 9);
        assert(r2 =~= s@.skip(a as int));
        assert(r2.take(11) =~= s@.subrange(a as int, a as int + 11));
    }
    let b = find_quote(s, a + 11);
    proof {
        assert(forall|j: int|
            0 <= j < s@.skip(a as int + 11).len() ==> #[trigger] s@.skip(a as int + 11)[j] == s@[j + a + 11]);
        assert(s@.skip(a as int).skip(11) =~= s@.skip(a as int + 11));
    }
    if b == n {
        return None;
    }
    let nonce = s.substring_char(a + 11, b).to_owned();
    proof {
        assert(nonce@ =~= s@.skip(a as int + 11).take(b as int - (a as int + 11)));
    }
    if !match_lit(s, b, "\",\"content\":\"") {
        proof {
            let r4 = s@.skip(a as int + 11).skip(b as int - (a as int + 11));
            assert(r4 =~= s@.skip(b as int));
            if r4.len() >= 13 {
                assert(r4.take(13) =~= s@.subrange(b as int, b as int + 13));
            }
        }
        return None;
    }
    proof {
        let r4 = s@.skip(a as int + 11).skip(b as int - (a as int + 11));
        assert(r4 =~= s@.skip(b as int));
        assert(r4.take(13) =~= s@.subrange(b as int, b as int + 13));
    }
    let c = find_quote(s, b + 13);
    proof {
        assert(forall|j: int|
            0 <= j < s@.skip(b as int + 13).len() ==> #[trigger] s@.skip(b as int + 13)[j] == s@[j + b + 13]);
        assert(s@.skip(b as int).skip(13) =~= s@.skip(b as int + 13));
    }
    if c == n {
        return None;
    }
    let content = s.substring_char(b + 13, c).to_owned();
    proof {
        assert(content@ =~= s@.skip(b as int + 13).take(c as int - (b as int + 13)));
    }
    let ok_tail = match_lit(s, c, "\"}");
    if !(ok_tail && c + 2 == n) {
        proof {
            let r6 = s@.skip(b as int + 13).skip(c as int - (b as int + 13));
            assert(r6 =~= s@.skip(c as int));
            if ok_tail && c + 2 != n {
                assert(r6.len() != 2);
                assert(r6 != "\"}"@);
            }
            if !ok_tail {
                if r6 == "\"}"@ {
                    assert(s@.subrange(c as int, c as int + 2) =~= r6);
                    assert(false);
                }
            }
        }
        return None;
    }
    proof {
        let r6 = s@.skip(b as int + 13).skip(c as int - (b as int + 13));
        assert(r6 =~= s@.skip(c as int));
        assert(r6 =~= s@.subrange(c as int, c as int + 2));
        assert(r6 == "\"}"@);
    }
    Some(UserDataCypher { salt, nonce, content })
}

/// What deterministic decryption yields for a secret and an envelope:
/// decode the three base64 fields, derive the key from the secret and the
/// salt, and open the ciphertext.
pub open spec fn spec_open_envelope(secret: Seq<char>, e: UserDataCypherModel) -> Option<
    Seq<char>,
> {
    match (b64_decode_of(e.salt), b64_decode_of(e.nonce), b64_decode_of(e.content)) {
        (Some(salt), Some(nonce), Some(ct)) => aead_open_of(
            argon_key_of(secret, salt),
            nonce,
            ct,
        ),
        _ => None,
    }
}

/// What deterministic decryption yields for a secret and a serialized
/// envelope.
pub open spec fn spec_decrypt(secret: Seq<char>, content: Seq<char>) -> Option<Seq<char>> {
    match env_dec(content) {
        Some(e) => spec_open_envelope(secret, e),
        None => None,
    }
}

/// Whether an envelope's salt decodes to a usable key-derivation salt
/// (8 to 2^32 - 1 bytes, the bounds the key derivation accepts).
pub open spec fn salt_len_ok(e: UserDataCypherModel) -> bool {
    match b64_decode_of(e.salt) {
        Some(sb) => 8 <= sb.len() <= 0xFFFF_FFFF,
        None => false,
    }
}

/// Whether decryption is certain to answer: the secret is short enough
/// for the key derivation, the envelope parses, its salt is a usable
/// salt, and the deterministic opening succeeds. Under these conditions
/// nothing nondeterministic remains.
pub open spec fn decrypt_guaranteed(secret: Seq<char>, content: Seq<char>) -> bool {
    secret.len() <= 0x3FFF_FFFF && match env_dec(content) {
        Some(e) => salt_len_ok(e) && spec_open_envelope(secret, e) is Some,
        None => false,
    }
}

/// Law: decrypting a serialized well-formed envelope is opening the
/// envelope itself; serialization changes nothing of what it yields.
pub proof fn lemma_seal_open(secret: Seq<char>, e: UserDataCypherModel)
    requires
        env_wf(e),
    ensures
        spec_decrypt(secret, env_enc(e)) == spec_open_envelope(secret, e),
{
    lemma_env_round_trip(e);
}

/// The model of a session user.
pub struct UserDataModel {
    pub lang: Seq<char>,
    pub userSalt: Option<Seq<char>>,
    pub generatedId: Option<Seq<char>>,
}

/// The session user: language, the secret derived at login, and the
/// hashed identifier the server knows the user by.
#[derive(Debug, Clone)]
pub struct UserData {
    lang: String,
    userSalt: Option<String>,
    generatedId: Option<String>,
}

impl View for UserData {
    type V = UserDataModel;

    closed spec fn view(&self) -> UserDataModel {
        UserDataModel {
            lang: self.lang@,
            userSalt: match self.userSalt {
                Some(ref s) => Some(s@),
                None => None,
            },
            generatedId: match self.generatedId {
                Some(ref s) => Some(s@),
                None => None,
            },
        }
    }
}

impl Default for UserData {
    /// English, not logged in.
    fn default() -> (r: Self)
        ensures
            r@.lang == "EN"@,
            r@.userSalt is None,
            r@.generatedId is None,
    {
        UserData { lang: "EN".to_owned(), userSalt: None, generatedId: None }
    }
}

impl UserData {
    /// A fresh user with the given language tag (normalized).
    pub fn new(lang: &String) -> (r: Self)
        ensures
            r@.lang == upper_of(lang@.take(spec_dash_idx(lang@))),
            r@.userSalt is None,
            r@.generatedId is None,
    {
        let mut new = Self::default();
        new.lang_set(lang.clone());
        new
    }

    pub fn lang_get(&self) -> (r: String)
        ensures
            r@ == self@.lang,
    {
        self.lang.clone()
    }

    /// Normalize and store a language tag: everything before the first
    /// `-`, uppercased.
    pub fn lang_set(&mut self, lang: String)
        ensures
            final(self)@.lang == upper_of(lang@.take(spec_dash_idx(lang@))),
            final(self)@.userSalt == old(self)@.userSalt,
            final(self)@.generatedId == old(self)@.generatedId,
    {
        let n = lang.as_str().unicode_len();
        let mut i: usize = 0;
        while i < n
            invariant_except_break
                forall|j: int| 0 <= j < i as int ==> lang@[j] != '-',
            invariant
                0 <= i <= n,
                n as int == lang@.len(),
            ensures
                0 <= i <= n,
                forall|j: int| 0 <= j < i as int ==> lang@[j] != '-',
                i as int == lang@.len() || lang@[i as int] == '-',
            decreases n - i,
        {
            if lang.as_str().get_char(i) == '-' {
                break ;
            }
            i = i + 1;
        }
        proof {
            lemma_dash_idx(lang@, i as int);
        }
        let prefix = lang.as_str().substring_char(0, i);
        proof {
            assert(prefix@ =~= lang@.take(i as int));
        }
        self.lang = str_to_uppercase(prefix);
    }

    /// The hashed identifier, if the user has one.
    pub fn login_get(&self) -> (r: Option<String>)
        ensures
            match r {
                Some(s) => self@.generatedId == Some(s@),
                None => self@.generatedId is None,
            },
    {
        self.generatedId.clone()
    }

    /// Whether a session secret is present.
    pub fn login_isConnected(&self) -> (r: bool)
        ensures
            r == (self@.userSalt is Some),
    {
        self.userSalt.is_some()
    }

    /// Install the identifier and secret a successful login produced.
    pub fn login_install(&mut self, generatedId: String, userSalt: String)
        ensures
            final(self)@.generatedId == Some(generatedId@),
            final(self)@.userSalt == Some(userSalt@),
            final(self)@.lang == old(self)@.lang,
    {
        self.generatedId = Some(generatedId);
        self.userSalt = Some(userSalt);
    }

    /// Forget the session secret.
    pub fn login_disconnect(&mut self)
        ensures
            final(self)@.userSalt is None,
            final(self)@.generatedId == old(self)@.generatedId,
            final(self)@.lang == old(self)@.lang,
    {
        self.userSalt = None;
    }

    /// The salted password fingerprint sent at login: the hash of the
    /// server salt and the password, concatenated.
    pub fn pwdHash(pwd: String, salt: String) -> (r: String)
        ensures
            r@ == b64_of(sha3_of(salt@ + pwd@)),
    {
        let joined = salt.concat(pwd.as_str());
        hash(joined)
    }

    /// Encrypt a payload under the session secret: a fresh random salt
    /// and nonce, an Argon2-derived key, and the AEAD cipher. Whatever
    /// envelope comes back opens to the payload under the same secret;
    /// without a secret (or if the generators fail) there is none.
    pub fn crypt_with_password(&self, plaintext: &String) -> (r: Option<UserDataCypher>)
        ensures
            self@.userSalt is None ==> r is None,
            r matches Some(env) ==> (env_wf(env@) && salt_len_ok(env@) && (self@.userSalt
                matches Some(p) && spec_open_envelope(p, env@) == Some(plaintext@))),
    {
        let password = match &self.userSalt {
            Some(p) => p,
            None => {
                return None;
            },
        };
        let salt = match generate_salt_raw() {
            Some(s) => s,
            None => {
                return None;
            },
        };
        let key = match argon2_key(password.as_str(), salt.as_slice()) {
            Some(k) => k,
            None => {
                return None;
            },
        };
        let nonce = match random_bytes(12) {
            Some(v) => v,
            None => {
                return None;
            },
        };
        let ct = match aead_encrypt(key.as_slice(), nonce.as_slice(), plaintext.as_str()) {
            Some(c) => c,
            None => {
                return None;
            },
        };
        let env = UserDataCypher {
            salt: b64_encode(salt.as_slice()),
            nonce: b64_encode(nonce.as_slice()),
            content: b64_encode(ct.as_slice()),
        };
        proof {
            crate::security::lemma_b64_text_no_quote(env.salt@);
            crate::security::lemma_b64_text_no_quote(env.nonce@);
            crate::security::lemma_b64_text_no_quote(env.content@);
        }
        Some(env)
    }

    /// Decrypt a serialized envelope under the session secret. A result
    /// is always the deterministic opening of the envelope; there is none
    /// when the envelope is malformed, the secret is absent or wrong, or
    /// the ciphertext fails authentication. When the opening is certain
    /// to succeed, an answer is owed.
    pub fn decrypt_with_password(&self, content: &String) -> (r: Option<String>)
        ensures
            self@.userSalt is None ==> r is None,
            r matches Some(pt) ==> (self@.userSalt matches Some(p) && spec_decrypt(p, content@)
                == Some(pt@)),
            self@.userSalt matches Some(p) && decrypt_guaranteed(p, content@) ==> r is Some,
    {
        let env = match env_decode(content.as_str()) {
            Some(e) => e,
            None => {
                return None;
            },
        };
        let password = match &self.userSalt {
            Some(p) => p,
            None => {
                return None;
            },
        };
        let salt = match b64_decode(env.salt.as_str()) {
            Some(v) => v,
            None => {
                return None;
            },
        };
        let nonce = match b64_decode(env.nonce.as_str()) {
            Some(v) => v,
            None => {
                return None;
            },
        };
        let ct = match b64_decode(env.content.as_str()) {
            Some(v) => v,
            None => {
                return None;
            },
        };
        let key = match argon2_key(password.as_str(), salt.as_slice()) {
            Some(k) => k,
            None => {
                return None;
            },
        };
        aead_decrypt(key.as_slice(), nonce.as_slice(), ct.as_slice())
    }
}

/// The index of the first `-` in a language tag (the end if none).
pub open spec fn spec_dash_idx(s: Seq<char>) -> int
    decreases s.len(),
{
    if s.len() == 0 || s[0] == '-' {
        0
    } else {
        1 + spec_dash_idx(s.drop_first())
    }
}

/// The dash-free prefix ends exactly at the first dash (or the end).
proof fn lemma_dash_idx(s: Seq<char>, m: int)
    requires
        0 <= m <= s.len(),
        forall|i: int| 0 <= i < m ==> s[i] != '-',
        m == s.len() || s[m] == '-',
    ensures
        spec_dash_idx(s) == m,
    decreases m,
{
    if m > 0 {
        assert(s[0] != '-');
        let t = s.drop_first();
        assert(forall|i: int| 0 <= i < m - 1 ==> s[i + 1] == #[trigger] t[i]);
        lemma_dash_idx(t, m - 1);
    }
}

} // verus!
