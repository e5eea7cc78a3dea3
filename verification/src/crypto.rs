//! Password encryption at rest.
//!
//! Carillon holds credentials in order to watch; they must never sit in the
//! database as plaintext. Each password is encrypted to a per-box age (x25519)
//! identity and stored as Base64. Loading and generating the key file is file
//! I/O and lives with the daemon; this module holds the key handling and the
//! encrypt / decrypt logic.

use base64::Engine;
use zeroize::Zeroize;
use crate::base64_text::{
    base64_decoded, base64_encoded, is_base64_byte, lemma_base64_rejects_foreign_byte,
    lemma_base64_round_trip,
};
use crate::age_keys::{
    age_decrypt, age_decrypted, age_encrypt, is_age_secret_key, generate_identity, identity_secret,
    is_key_char, is_printable_ascii, parse_identity, public_recipient, secret_from_string, AgeIdentity, AgeRecipient,
};
use vstd::prelude::*;
use vstd::string::StrSliceExecFns;
use vstd::utf8::*;

pub use crate::age_keys::SecretString;

verus! {

#[verifier::external_type_specification]
#[verifier::external_body]
pub struct ExBase64DecodeError(base64::DecodeError);

#[verifier::external_type_specification]
#[verifier::external_body]
pub struct ExFromUtf8Error(std::string::FromUtf8Error);

#[verifier::external_type_specification]
#[verifier::external_body]
pub struct ExUtf8Error(std::str::Utf8Error);

/// The characters that `char::is_whitespace` accepts: those with the Unicode
/// `White_Space` property.
pub open spec fn is_white_space(c: char) -> bool {
    let u = c as u32;
    ||| 0x09 <= u <= 0x0d
    ||| u == 0x20
    ||| u == 0x85
    ||| u == 0xa0
    ||| u == 0x1680
    ||| 0x2000 <= u <= 0x200a
    ||| u == 0x2028
    ||| u == 0x2029
    ||| u == 0x202f
    ||| u == 0x205f
    ||| u == 0x3000
}

/// `s` without its leading white space.
pub open spec fn trim_start(s: Seq<char>) -> Seq<char>
    decreases s.len(),
{
    if s.len() > 0 && is_white_space(s[0]) {
        trim_start(s.drop_first())
    } else {
        s
    }
}

/// `s` without its trailing white space.
pub open spec fn trim_end(s: Seq<char>) -> Seq<char>
    decreases s.len(),
{
    if s.len() > 0 && is_white_space(s.last()) {
        trim_end(s.drop_last())
    } else {
        s
    }
}

/// `s` without leading and trailing white space (`str::trim`).
pub open spec fn trim(s: Seq<char>) -> Seq<char> {
    trim_end(trim_start(s))
}

/// Whether `c` is white space, as `char::is_whitespace` decides.
pub fn is_white_space_char(c: char) -> (b: bool)
    ensures
        b == is_white_space(c),
{
    let u = c as u32;
    (0x09 <= u && u <= 0x0d) || u == 0x20 || u == 0x85 || u == 0xa0 || u == 0x1680 || (0x2000 <= u
        && u <= 0x200a) || u == 0x2028 || u == 0x2029 || u == 0x202f || u == 0x205f || u == 0x3000
}

proof fn lemma_trim_start_skip(s: Seq<char>, lo: int)
    requires
        0 <= lo < s.len(),
        is_white_space(s[lo]),
    ensures
        trim_start(s.subrange(lo, s.len() as int)) == trim_start(s.subrange(lo + 1, s.len() as int)),
{
    let t = s.subrange(lo, s.len() as int);
    assert(t.drop_first() =~= s.subrange(lo + 1, s.len() as int));
}

proof fn lemma_trim_end_skip(s: Seq<char>, lo: int, hi: int)
    requires
        0 <= lo < hi <= s.len(),
        is_white_space(s[hi - 1]),
    ensures
        trim_end(s.subrange(lo, hi)) == trim_end(s.subrange(lo, hi - 1)),
{
    let t = s.subrange(lo, hi);
    assert(t.drop_last() =~= s.subrange(lo, hi - 1));
}

/// `text` with leading and trailing white space removed.
pub fn trim_white_space(text: &str) -> (r: &str)
    ensures
        r@ == trim(text@),
{
    let n = text.unicode_len();
    let mut lo: usize = 0;
    proof {
        assert(text@.subrange(0, n as int) =~= text@);
    }
    while lo < n && is_white_space_char(text.get_char(lo))
        invariant
            n == text@.len(),
            lo <= n,
            trim_start(text@) == trim_start(text@.subrange(lo as int, n as int)),
        decreases n - lo,
    {
        proof {
            lemma_trim_start_skip(text@, lo as int);
        }
        lo = lo + 1;
    }
    proof {
        let t = text@.subrange(lo as int, n as int);
        if lo < n {
            assert(t[0] == text@[lo as int]);
        }
        assert(trim_start(t) == t);
    }
    let mut hi: usize = n;
    while hi > lo && is_white_space_char(text.get_char(hi - 1))
        invariant
            n == text@.len(),
            lo <= hi <= n,
            trim(text@) == trim_end(text@.subrange(lo as int, hi as int)),
        decreases hi - lo,
    {
        proof {
            lemma_trim_end_skip(text@, lo as int, hi as int);
        }
        hi = hi - 1;
    }
    proof {
        let t = text@.subrange(lo as int, hi as int);
        if lo < hi {
            assert(t.last() == text@[hi - 1]);
        }
        assert(trim_end(t) == t);
    }
    text.substring_char(lo, hi)
}

/// Why an encryption, a decryption or a key parse failed.
#[derive(Clone, Copy, Debug, PartialEq, Eq)]
pub enum CryptoError {
    /// The key text is not an age x25519 secret key; the reason is age's own.
    InvalidKey(&'static str),
    /// age could not encrypt the plaintext.
    EncryptFailed,
    /// The stored blob is not valid Base64.
    NotBase64,
    /// age could not decrypt the blob with this identity.
    Undecryptable,
    /// The decrypted bytes are not valid UTF-8.
    NotUtf8,
}

impl CryptoError {
    /// The daemon's text for this error on a stored password (for an invalid key,
    /// age's reason follows it).
    pub open spec fn password_text(&self) -> Seq<char> {
        match self {
            CryptoError::InvalidKey(_) => "Invalid age key"@,
            CryptoError::EncryptFailed => "Cannot encrypt password"@,
            CryptoError::NotBase64 => "Stored password is not valid base64"@,
            CryptoError::Undecryptable => "Cannot decrypt password"@,
            CryptoError::NotUtf8 => "Decrypted password is not valid UTF-8"@,
        }
    }

    /// The daemon's text for this error on a stored secret read into a
    /// `SecretString`; the other errors read as for a password.
    pub open spec fn secret_text(&self) -> Seq<char> {
        match self {
            CryptoError::NotBase64 => "Stored secret is not valid base64"@,
            CryptoError::Undecryptable => "Cannot decrypt secret"@,
            CryptoError::NotUtf8 => "Decrypted secret is not valid UTF-8"@,
            _ => self.password_text(),
        }
    }

    /// The daemon's text for this error on a stored password.
    pub fn password_message(&self) -> (m: &'static str)
        ensures
            m@ == self.password_text(),
    {
        proof {
            reveal_strlit("Invalid age key");
            reveal_strlit("Cannot encrypt password");
            reveal_strlit("Stored password is not valid base64");
            reveal_strlit("Cannot decrypt password");
            reveal_strlit("Decrypted password is not valid UTF-8");
        }
        match self {
            CryptoError::InvalidKey(_) => "Invalid age key",
            CryptoError::EncryptFailed => "Cannot encrypt password",
            CryptoError::NotBase64 => "Stored password is not valid base64",
            CryptoError::Undecryptable => "Cannot decrypt password",
            CryptoError::NotUtf8 => "Decrypted password is not valid UTF-8",
        }
    }

    /// The daemon's text for this error on a stored secret.
    pub fn secret_message(&self) -> (m: &'static str)
        ensures
            m@ == self.secret_text(),
    {
        proof {
            reveal_strlit("Stored secret is not valid base64");
            reveal_strlit("Cannot decrypt secret");
            reveal_strlit("Decrypted secret is not valid UTF-8");
        }
        match self {
            CryptoError::NotBase64 => "Stored secret is not valid base64",
            CryptoError::Undecryptable => "Cannot decrypt secret",
            CryptoError::NotUtf8 => "Decrypted secret is not valid UTF-8",
            _ => self.password_message(),
        }
    }
}

/// What decrypting the stored Base64 blob `blob` under the secret key `key` gives:
/// Base64-decode the blob's bytes, age-decrypt them, then read them as UTF-8;
/// the first step that fails names the error.
pub open spec fn decrypt_spec(key: Seq<char>, blob: Seq<char>) -> Result<Seq<char>, CryptoError> {
    match base64_decoded(encode_utf8(blob)) {
        None => Err(CryptoError::NotBase64),
        Some(ciphertext) => match age_decrypted(key, ciphertext) {
            None => Err(CryptoError::Undecryptable),
            Some(plaintext) => if valid_utf8(plaintext) {
                Ok(decode_utf8(plaintext))
            } else {
                Err(CryptoError::NotUtf8)
            },
        },
    }
}

/// The largest ciphertext whose padded Base64 length fits in a `usize`.
pub const MAX_ENCODABLE_LEN: usize = usize::MAX / 4 * 3;

/// Symmetric self-recipient encryptor backed by an age identity.
///
/// Its view is the secret key text of its identity. The recipient it encrypts to
/// is that identity's own public key (the type invariant), which is what lets
/// `decrypt` invert `encrypt`.
pub struct Crypto {
    identity: AgeIdentity,
    recipient: AgeRecipient,
}

impl View for Crypto {
    type V = Seq<char>;

    closed spec fn view(&self) -> Seq<char> {
        self.identity@
    }
}

impl Crypto {
    /// The secret key text of the identity whose public key this encryptor
    /// encrypts to.
    pub closed spec fn recipient_key(&self) -> Seq<char> {
        self.recipient@
    }

    /// The recipient is the public key of the identity.
    #[verifier::type_invariant]
    closed spec fn keys_match(self) -> bool {
        self.recipient@ == self.identity@
    }
}

/// Secret key texts under which age decrypts every ciphertext alike: they name the
/// same identity.
pub open spec fn same_identity(a: Seq<char>, b: Seq<char>) -> bool {
    forall|ciphertext: Seq<u8>| #[trigger] age_decrypted(a, ciphertext) == age_decrypted(b, ciphertext)
}

/// `Zeroize::zeroize` on a `Vec<u8>` (the zeroize crate, re-exported by secrecy):
/// overwrites the bytes and the spare capacity with zeros and clears the vector.
#[verifier::external_body]
fn wipe(bytes: &mut Vec<u8>)
    ensures
        final(bytes)@ == Seq::<u8>::empty(),
{
    bytes.zeroize()
}

/// `Engine::encode` of the standard Base64 engine. The text is `base64_encoded` of
/// the bytes. The length
/// bound is where the engine's buffer size does not overflow (it panics there).
#[verifier::external_body]
fn base64_encode(bytes: &[u8]) -> (r: String)
    requires
        bytes@.len() <= MAX_ENCODABLE_LEN,
    ensures
        r@ == base64_encoded(bytes@),
{
    base64::engine::general_purpose::STANDARD.encode(bytes)
}

/// `Engine::decode` of the standard Base64 engine: the bytes exactly where
/// `base64_decoded` gives them.
#[verifier::external_body]
fn base64_decode(input: &[u8]) -> (r: Result<Vec<u8>, base64::DecodeError>)
    ensures
        r is Ok <==> base64_decoded(input@) is Some,
        r matches Ok(bytes) ==> base64_decoded(input@) == Some(bytes@),
{
    base64::engine::general_purpose::STANDARD.decode(input)
}

/// `String::from_utf8` from std: the string exactly when the bytes are valid UTF-8,
/// holding the characters they encode.
#[verifier::external_body]
fn string_from_utf8(bytes: Vec<u8>) -> (r: Result<String, std::string::FromUtf8Error>)
    ensures
        r is Ok <==> valid_utf8(bytes@),
        r matches Ok(s) ==> s@ == decode_utf8(bytes@),
{
    String::from_utf8(bytes)
}

/// `std::str::from_utf8`: the string slice exactly when the bytes are valid UTF-8,
/// holding the characters they encode.
#[verifier::external_body]
fn str_from_utf8(bytes: &[u8]) -> (r: Result<&str, std::str::Utf8Error>)
    ensures
        r is Ok <==> valid_utf8(bytes@),
        r matches Ok(s) ==> s@ == decode_utf8(bytes@),
{
    std::str::from_utf8(bytes)
}

impl Crypto {
    /// Builds the encryptor from an identity: it holds that identity, and the
    /// identity's own public key as its recipient.
    fn from_identity(identity: AgeIdentity) -> (c: Crypto)
        ensures
            c@ == identity@,
            c.identity == identity,
            c.recipient@ == identity@,
    {
        let recipient = public_recipient(&identity);
        Crypto { identity, recipient }
    }

    /// Builds the encryptor from the contents of an age key file: the text with
    /// surrounding white space removed must be an x25519 secret key, and the
    /// encryptor holds the identity parsed from it.
    pub fn from_key_text(text: &str) -> (r: Result<Crypto, CryptoError>)
        ensures
            r is Ok <==> is_age_secret_key(trim(text@)),
            r matches Ok(c) ==> c@ == trim(text@) && c.recipient_key() == c@,
            r matches Err(e) ==> e is InvalidKey,
    {
        let trimmed = trim_white_space(text);
        match parse_identity(trimmed) {
            Ok(identity) => Ok(Crypto::from_identity(identity)),
            Err(reason) => Err(CryptoError::InvalidKey(reason)),
        }
    }

    /// Generates a fresh age identity. Its key is a valid x25519 secret key (one
    /// `from_key_text` accepts); the text to persist is `secret_key`.
    pub fn generate_fresh() -> (c: Crypto)
        ensures
            is_age_secret_key(c@),
            c.recipient_key() == c@,
    {
        Crypto::from_identity(generate_identity())
    }

    /// The identity serialized as its secret key text, in a zeroize-on-drop
    /// `SecretString`: what the key file holds. The text is a valid key made of
    /// upper-case letters, digits and `-`, and it names this encryptor's identity.
    pub fn secret_key(&self) -> (r: SecretString)
        ensures
            is_age_secret_key(r@),
            forall|i: int| 0 <= i < r@.len() ==> is_key_char(#[trigger] r@[i]),
            same_identity(r@, self@),
    {
        identity_secret(&self.identity)
    }

    /// Encrypts a password into a Base64 blob for the database. It always succeeds:
    /// the blob is the Base64 text of an age ciphertext that this encryptor's
    /// identity decrypts to the password's UTF-8 bytes, exactly, so decrypting the
    /// blob with this encryptor gives the password back.
    pub fn encrypt(&self, plaintext: &str) -> (r: Result<String, CryptoError>)
        ensures
            r matches Ok(blob) && base64_decoded(encode_utf8(blob@)) matches Some(ciphertext)
                && age_decrypted(self@, ciphertext) == Some(encode_utf8(plaintext@)),
            r matches Ok(blob) && decrypt_spec(self@, blob@) == Ok::<Seq<char>, CryptoError>(plaintext@),
    {
        proof {
            use_type_invariant(self);
        }
        let bytes = plaintext.as_bytes();
        match age_encrypt(&self.recipient, bytes) {
            Ok(ciphertext) => {
                proof {
                    assert(isize::MAX <= MAX_ENCODABLE_LEN);
                }
                let r = encode_ciphertext(ciphertext.as_slice());
                proof {
                    encode_utf8_valid_utf8(plaintext@);
                    encode_utf8_decode_utf8(plaintext@);
                }
                r
            },
            Err(_) => Err(CryptoError::EncryptFailed),
        }
    }

    /// Decrypts a Base64 blob produced by `encrypt`: it succeeds exactly when the
    /// blob is Base64 of a ciphertext that this identity decrypts to UTF-8 bytes,
    /// and the password is the text those bytes encode, with nothing added or cut.
    pub fn decrypt(&self, ciphertext_b64: &str) -> (r: Result<String, CryptoError>)
        ensures
            r is Ok <==> (base64_decoded(encode_utf8(ciphertext_b64@)) matches Some(ciphertext)
                && age_decrypted(self@, ciphertext) matches Some(p) && valid_utf8(p)),
            r matches Ok(s) ==> (base64_decoded(encode_utf8(ciphertext_b64@)) matches Some(ciphertext)
                && age_decrypted(self@, ciphertext) matches Some(p) && s@ == decode_utf8(p)),
            r matches Ok(s) ==> decrypt_spec(self@, ciphertext_b64@) == Ok::<Seq<char>, CryptoError>(s@),
            r matches Err(e) ==> decrypt_spec(self@, ciphertext_b64@) == Err::<Seq<char>, _>(e),
    {
        match base64_decode(ciphertext_b64.as_bytes()) {
            Ok(ciphertext) => self.decrypt_ciphertext(ciphertext.as_slice()),
            Err(_) => Err(CryptoError::NotBase64),
        }
    }

    /// Decrypts an age ciphertext (a blob after Base64 decoding) to a password.
    pub fn decrypt_ciphertext(&self, ciphertext: &[u8]) -> (r: Result<String, CryptoError>)
        ensures
            r matches Ok(s) ==> age_decrypted(self@, ciphertext@) matches Some(p) && valid_utf8(p)
                && s@ == decode_utf8(p),
            r matches Err(e) ==> match age_decrypted(self@, ciphertext@) {
                None => e == CryptoError::Undecryptable,
                Some(p) => !valid_utf8(p) && e == CryptoError::NotUtf8,
            },
    {
        match age_decrypt(&self.identity, ciphertext) {
            Ok(plaintext) => password_from_plaintext(plaintext),
            Err(_) => Err(CryptoError::Undecryptable),
        }
    }

    /// Decrypts a blob straight into a zeroize-on-drop `SecretString`, keeping the
    /// plaintext out of any long-lived `String`. It succeeds and fails exactly as
    /// `decrypt` does, and holds the text of the bytes age decrypted, unaltered.
    pub fn decrypt_secret(&self, ciphertext_b64: &str) -> (r: Result<SecretString, CryptoError>)
        ensures
            r is Ok <==> (base64_decoded(encode_utf8(ciphertext_b64@)) matches Some(ciphertext)
                && age_decrypted(self@, ciphertext) matches Some(p) && valid_utf8(p)),
            r matches Ok(s) ==> (base64_decoded(encode_utf8(ciphertext_b64@)) matches Some(ciphertext)
                && age_decrypted(self@, ciphertext) matches Some(p) && s@ == decode_utf8(p)),
            r matches Ok(s) ==> decrypt_spec(self@, ciphertext_b64@) == Ok::<Seq<char>, CryptoError>(s@),
            r matches Err(e) ==> decrypt_spec(self@, ciphertext_b64@) == Err::<Seq<char>, _>(e),
    {
        match base64_decode(ciphertext_b64.as_bytes()) {
            Ok(ciphertext) => self.decrypt_ciphertext_secret(ciphertext.as_slice()),
            Err(_) => Err(CryptoError::NotBase64),
        }
    }

    /// Decrypts an age ciphertext straight into a zeroize-on-drop `SecretString`.
    pub fn decrypt_ciphertext_secret(&self, ciphertext: &[u8]) -> (r: Result<SecretString, CryptoError>)
        ensures
            r matches Ok(s) ==> age_decrypted(self@, ciphertext@) matches Some(p) && valid_utf8(p)
                && s@ == decode_utf8(p),
            r matches Err(e) ==> match age_decrypted(self@, ciphertext@) {
                None => e == CryptoError::Undecryptable,
                Some(p) => !valid_utf8(p) && e == CryptoError::NotUtf8,
            },
    {
        match age_decrypt(&self.identity, ciphertext) {
            Ok(plaintext) => secret_from_plaintext(plaintext),
            Err(_) => Err(CryptoError::Undecryptable),
        }
    }
}

/// The Base64 blob stored for an age ciphertext; a ciphertext too long for its
/// Base64 text to fit in memory is refused.
pub fn encode_ciphertext(ciphertext: &[u8]) -> (r: Result<String, CryptoError>)
    ensures
        ciphertext@.len() <= MAX_ENCODABLE_LEN ==> (r matches Ok(blob) && blob@ == base64_encoded(
            ciphertext@,
        ) && base64_decoded(encode_utf8(blob@)) == Some(ciphertext@)),
        ciphertext@.len() > MAX_ENCODABLE_LEN ==> r == Err::<String, _>(CryptoError::EncryptFailed),
{
    if ciphertext.len() > MAX_ENCODABLE_LEN {
        return Err(CryptoError::EncryptFailed);
    }
    let blob = base64_encode(ciphertext);
    proof {
        lemma_base64_round_trip(ciphertext@);
    }
    Ok(blob)
}

/// The password in decrypted bytes: their UTF-8 text, or `NotUtf8`.
pub fn password_from_plaintext(plaintext: Vec<u8>) -> (r: Result<String, CryptoError>)
    ensures
        valid_utf8(plaintext@) ==> (r matches Ok(s) && s@ == decode_utf8(plaintext@)),
        !valid_utf8(plaintext@) ==> r == Err::<String, _>(CryptoError::NotUtf8),
{
    match string_from_utf8(plaintext) {
        Ok(text) => Ok(text),
        Err(_) => Err(CryptoError::NotUtf8),
    }
}

/// The secret in decrypted bytes, moved into a zeroize-on-drop `SecretString`:
/// the bytes must be UTF-8, and they are wiped before returning either way.
pub fn secret_from_plaintext(plaintext: Vec<u8>) -> (r: Result<SecretString, CryptoError>)
    ensures
        valid_utf8(plaintext@) ==> (r matches Ok(s) && s@ == decode_utf8(plaintext@)),
        !valid_utf8(plaintext@) ==> r == Err::<SecretString, _>(CryptoError::NotUtf8),
{
    let mut plaintext = plaintext;
    let result = match str_from_utf8(plaintext.as_slice()) {
        Ok(text) => Ok(secret_from_string(text.to_owned())),
        Err(_) => Err(CryptoError::NotUtf8),
    };
    wipe(&mut plaintext);
    result
}

/// Text with no white space at either end is its own trim.
proof fn lemma_trim_of_unpadded(s: Seq<char>)
    requires
        s.len() > 0 ==> !is_white_space(s[0]) && !is_white_space(s.last()),
    ensures
        trim(s) == s,
{
}

/// White space before a text does not change where its trimmed start is.
proof fn lemma_trim_start_after_white_space(pre: Seq<char>, s: Seq<char>)
    requires
        forall|i: int| 0 <= i < pre.len() ==> is_white_space(#[trigger] pre[i]),
    ensures
        trim_start(pre + s) == trim_start(s),
    decreases pre.len(),
{
    if pre.len() > 0 {
        assert((pre + s)[0] == pre[0]);
        assert((pre + s).drop_first() =~= pre.drop_first() + s);
        lemma_trim_start_after_white_space(pre.drop_first(), s);
    } else {
        assert(pre + s =~= s);
    }
}

/// White space after a text does not change where its trimmed end is.
proof fn lemma_trim_end_before_white_space(s: Seq<char>, post: Seq<char>)
    requires
        forall|i: int| 0 <= i < post.len() ==> is_white_space(#[trigger] post[i]),
    ensures
        trim_end(s + post) == trim_end(s),
    decreases post.len(),
{
    if post.len() > 0 {
        assert((s + post).last() == post.last());
        assert((s + post).drop_last() =~= s + post.drop_last());
        lemma_trim_end_before_white_space(s, post.drop_last());
    } else {
        assert(s + post =~= s);
    }
}

/// Trimming the start of a text followed by white space: the white space stays
/// at the end, unless the whole text is white space.
proof fn lemma_trim_start_then_white_space(s: Seq<char>, post: Seq<char>)
    requires
        forall|i: int| 0 <= i < post.len() ==> is_white_space(#[trigger] post[i]),
    ensures
        trim_end(trim_start(s + post)) == trim_end(trim_start(s)),
    decreases s.len(),
{
    if s.len() == 0 {
        assert(s + post =~= post);
        lemma_trim_start_after_white_space(post, Seq::empty());
        assert(post + Seq::<char>::empty() =~= post);
    } else if is_white_space(s[0]) {
        assert((s + post)[0] == s[0]);
        assert((s + post).drop_first() =~= s.drop_first() + post);
        lemma_trim_start_then_white_space(s.drop_first(), post);
    } else {
        assert((s + post)[0] == s[0]);
        lemma_trim_end_before_white_space(s, post);
    }
}

/// White space around a key file's text does not change what it loads to: the
/// text between, trimmed, is what `from_key_text` parses in both cases.
pub proof fn lemma_surrounding_white_space_is_ignored(
    pre: Seq<char>,
    text: Seq<char>,
    post: Seq<char>,
)
    requires
        forall|i: int| 0 <= i < pre.len() ==> is_white_space(#[trigger] pre[i]),
        forall|i: int| 0 <= i < post.len() ==> is_white_space(#[trigger] post[i]),
    ensures
        trim(pre + text + post) == trim(text),
{
    lemma_trim_start_after_white_space(pre, text + post);
    assert(pre + text + post =~= pre + (text + post));
    lemma_trim_start_then_white_space(text, post);
}

/// A key file holding a key age accepts loads, with or without white space
/// around the key: the key is its own trim, and so is the padded text's trim.
pub proof fn lemma_key_file_loads(pre: Seq<char>, key: Seq<char>, post: Seq<char>)
    requires
        is_age_secret_key(key),
        forall|i: int| 0 <= i < pre.len() ==> is_white_space(#[trigger] pre[i]),
        forall|i: int| 0 <= i < post.len() ==> is_white_space(#[trigger] post[i]),
    ensures
        trim(key) == key,
        trim(pre + key + post) == key,
        is_age_secret_key(trim(pre + key + post)),
{
    if key.len() > 0 {
        assert(is_printable_ascii(key[0]));
        assert(is_printable_ascii(key[key.len() - 1]));
    }
    lemma_trim_of_unpadded(key);
    lemma_surrounding_white_space_is_ignored(pre, key, post);
}

/// A Base64 blob holding a character that is neither of the Base64 alphabet nor
/// `=` is refused as not Base64, whatever the key.
pub proof fn lemma_foreign_character_is_not_base64(key: Seq<char>, blob: Seq<char>, i: int)
    requires
        is_ascii_chars(blob),
        0 <= i < blob.len(),
        !is_base64_byte(blob[i] as u8),
    ensures
        decrypt_spec(key, blob) == Err::<Seq<char>, CryptoError>(CryptoError::NotBase64),
{
    is_ascii_chars_encode_utf8(blob);
    lemma_base64_rejects_foreign_byte(encode_utf8(blob), i);
}

/// A key written out by `secret_key` loads back to the same identity: its text is
/// its own trim, `from_key_text` accepts it, and the loaded encryptor decrypts
/// every blob exactly as the one that wrote it.
pub proof fn lemma_saved_key_loads(saved: Seq<char>, original: Seq<char>)
    requires
        is_age_secret_key(saved),
        forall|i: int| 0 <= i < saved.len() ==> is_key_char(#[trigger] saved[i]),
        same_identity(saved, original),
    ensures
        trim(saved) == saved,
        is_age_secret_key(trim(saved)),
        forall|blob: Seq<char>| #[trigger] decrypt_spec(trim(saved), blob) == decrypt_spec(original, blob),
{
    if saved.len() > 0 {
        assert(is_key_char(saved[0]));
        assert(is_key_char(saved[saved.len() - 1]));
    }
    lemma_trim_of_unpadded(saved);
    assert forall|blob: Seq<char>| #[trigger] decrypt_spec(trim(saved), blob) == decrypt_spec(original, blob) by {
        match base64_decoded(encode_utf8(blob)) {
            Some(ciphertext) => {
                assert(age_decrypted(saved, ciphertext) == age_decrypted(original, ciphertext));
            },
            None => {},
        }
    }
}

/// Decrypting a blob under a key gives the text of the bytes age decrypts its
/// ciphertext to, and nothing else: it succeeds exactly when the blob is Base64 of
/// a ciphertext the key decrypts to UTF-8 bytes, and the text is then those bytes
/// read as UTF-8.
pub proof fn lemma_decryption_is_age_plaintext(key: Seq<char>, blob: Seq<char>)
    ensures
        decrypt_spec(key, blob) is Ok <==> (base64_decoded(encode_utf8(blob)) matches Some(ciphertext)
            && age_decrypted(key, ciphertext) matches Some(p) && valid_utf8(p)),
        decrypt_spec(key, blob) matches Ok(text) ==> (base64_decoded(encode_utf8(blob)) matches Some(
            ciphertext,
        ) && age_decrypted(key, ciphertext) matches Some(p) && text == decode_utf8(p)),
{
}

/// Every password comes back whole: a blob whose ciphertext age decrypts under the
/// key to the password's UTF-8 bytes (what `encrypt` stores) decrypts to exactly
/// that password, whatever its length or characters.
pub proof fn lemma_decrypt_recovers_encrypted(key: Seq<char>, password: Seq<char>, blob: Seq<char>)
    requires
        base64_decoded(encode_utf8(blob)) matches Some(ciphertext) && age_decrypted(key, ciphertext)
            == Some(encode_utf8(password)),
    ensures
        decrypt_spec(key, blob) == Ok::<Seq<char>, CryptoError>(password),
{
    encode_utf8_valid_utf8(password);
    encode_utf8_decode_utf8(password);
}

} // verus!
