//! The age key material and the calls into age and secrecy that handle it.
//!
//! Every value here pairs an opaque outside value with its plain view: an
//! identity with its secret key text, a recipient with the secret key text of
//! the identity it belongs to, a zeroize-on-drop secret with the text it holds.
//! Only the trusted items of this module build these values, each from the
//! outside value and the view it has, so a view always describes the value
//! beside it. The rest of the library reads them through the views.

use secrecy::ExposeSecret;
use std::str::FromStr;
use vstd::prelude::*;

verus! {

#[verifier::external_type_specification]
#[verifier::external_body]
pub struct ExAgeIdentity(age::x25519::Identity);

#[verifier::external_type_specification]
#[verifier::external_body]
pub struct ExAgeRecipient(age::x25519::Recipient);

#[verifier::external_type_specification]
#[verifier::external_body]
pub struct ExAgeEncryptError(age::EncryptError);

#[verifier::external_type_specification]
#[verifier::external_body]
pub struct ExAgeDecryptError(age::DecryptError);

/// Whether `Identity::from_str` (age's x25519 identity parser) accepts `text`: a
/// Bech32 string with the `age-secret-key-` prefix holding 32 bytes.
pub uninterp spec fn age_secret_key_valid(text: Seq<char>) -> bool;

/// What `age::decrypt` gives back for `ciphertext` under the identity whose
/// secret key text is `key` (the identity taken by its view): the plaintext, or
/// `None` where it returns an error.
pub uninterp spec fn age_decrypted(key: Seq<char>, ciphertext: Seq<u8>) -> Option<Seq<u8>>;

/// A character Bech32 text can hold: printable ASCII other than space (codes
/// 33-126).
pub open spec fn is_printable_ascii(c: char) -> bool {
    33 <= c as u32 && c as u32 <= 126
}

/// A secret key text age accepts: `Identity::from_str` parses it, and, as Bech32
/// decoding demands of every character it accepts, it is printable ASCII with no
/// white space.
pub open spec fn is_age_secret_key(text: Seq<char>) -> bool {
    &&& age_secret_key_valid(text)
    &&& forall|i: int| 0 <= i < text.len() ==> is_printable_ascii(#[trigger] text[i])
}

/// A character of a serialized age secret key: an upper-case letter, a digit or
/// `-` (the upper-case form of the Bech32 alphabet and of the key's prefix).
pub open spec fn is_key_char(c: char) -> bool {
    ('A' <= c && c <= 'Z') || ('0' <= c && c <= '9') || c == '-'
}

/// An age x25519 identity together with its secret key text.
pub struct AgeIdentity {
    identity: age::x25519::Identity,
    key: Ghost<Seq<char>>,
}

impl View for AgeIdentity {
    type V = Seq<char>;

    closed spec fn view(&self) -> Seq<char> {
        self.key@
    }
}

/// An age x25519 recipient together with the secret key text of the identity it
/// is the public key of.
pub struct AgeRecipient {
    recipient: age::x25519::Recipient,
    key: Ghost<Seq<char>>,
}

impl View for AgeRecipient {
    type V = Seq<char>;

    closed spec fn view(&self) -> Seq<char> {
        self.key@
    }
}

/// secrecy's zeroize-on-drop `SecretString`. secrecy's `SecretBox` cannot be
/// declared as an outside type here (its bound names a trait of a crate that is
/// declared nowhere in this library), so the box is held opaque.
#[verifier::external_body]
struct SecretBox(secrecy::SecretString);

/// A secret text held in secrecy's zeroize-on-drop `SecretString`: the memory is
/// wiped when the value is dropped, and `Debug` prints it redacted. Its view is
/// the text it holds.
pub struct SecretString {
    inner: SecretBox,
    text: Ghost<Seq<char>>,
}

impl View for SecretString {
    type V = Seq<char>;

    closed spec fn view(&self) -> Seq<char> {
        self.text@
    }
}

/// `Identity::from_str` from age: parses an x25519 secret key. It succeeds exactly
/// where `age_secret_key_valid` holds of the text, and then the text is printable
/// ASCII (Bech32 decoding refuses any other character), and the identity's key text is the text
/// parsed; the error is age's reason.
#[verifier::external_body]
pub(crate) fn parse_identity(text: &str) -> (r: Result<AgeIdentity, &'static str>)
    ensures
        r is Ok <==> age_secret_key_valid(text@),
        r is Ok ==> forall|i: int| 0 <= i < text@.len() ==> is_printable_ascii(#[trigger] text@[i]),
        r matches Ok(identity) ==> identity@ == text@,
{
    match age::x25519::Identity::from_str(text) {
        Ok(identity) => Ok(AgeIdentity { identity, key: Ghost(text@) }),
        Err(reason) => Err(reason),
    }
}

/// `Identity::generate` from age: a fresh random secret key. Its key text is the
/// one `Identity::to_string` serializes it to, which `Identity::from_str` accepts
/// (upper-case Bech32 under the `age-secret-key-` prefix over 32 bytes: letters,
/// digits and `-`). Which key
/// comes out depends on chance.
#[verifier::external_body]
pub(crate) fn generate_identity() -> (r: AgeIdentity)
    ensures
        age_secret_key_valid(r@),
        forall|i: int| 0 <= i < r@.len() ==> is_key_char(#[trigger] r@[i]),
{
    let identity = age::x25519::Identity::generate();
    let secret = identity.to_string();
    let key = Ghost(secret.expose_secret()@);
    AgeIdentity { identity, key }
}

/// `Identity::to_public` from age: the recipient key of an identity, the public
/// key of the same secret key.
#[verifier::external_body]
pub(crate) fn public_recipient(identity: &AgeIdentity) -> (r: AgeRecipient)
    ensures
        r@ == identity@,
{
    AgeRecipient { recipient: identity.identity.to_public(), key: Ghost(identity.key@) }
}

/// `Identity::to_string` from age: the identity's secret key serialized as
/// upper-case Bech32 text with the `age-secret-key-` prefix over its 32 bytes, in
/// a zeroize-on-drop `SecretString`. `Identity::from_str` accepts that text and
/// parses it back to the same identity, so age decrypts under it exactly as under
/// the identity's own key text.
#[verifier::external_body]
pub(crate) fn identity_secret(identity: &AgeIdentity) -> (r: SecretString)
    ensures
        age_secret_key_valid(r@),
        forall|i: int| 0 <= i < r@.len() ==> is_key_char(#[trigger] r@[i]),
        forall|ciphertext: Seq<u8>|
            #[trigger] age_decrypted(r@, ciphertext) == age_decrypted(identity@, ciphertext),
{
    let secret = identity.identity.to_string();
    let text = Ghost(secret.expose_secret()@);
    SecretString { inner: SecretBox(secret), text }
}

/// `SecretString::from(String)` from secrecy: moves the text into a zeroize-on-drop
/// box; the secret holds that text.
#[verifier::external_body]
pub(crate) fn secret_from_string(text: String) -> (r: SecretString)
    ensures
        r@ == text@,
{
    let view = Ghost(text@);
    SecretString { inner: SecretBox(secrecy::SecretString::from(text)), text: view }
}

#[verifier::external_type_specification]
#[verifier::external_body]
pub struct ExFormatter<'a>(core::fmt::Formatter<'a>);

#[verifier::external_type_specification]
#[verifier::external_body]
pub struct ExFmtError(core::fmt::Error);

impl core::fmt::Debug for SecretString {
    /// secrecy's `Debug` for the box: a fixed redacted text, never the secret.
    #[verifier::external_body]
    fn fmt(&self, f: &mut core::fmt::Formatter<'_>) -> core::fmt::Result {
        core::fmt::Debug::fmt(&self.inner.0, f)
    }
}

impl SecretString {
    /// `ExposeSecret::expose_secret` from secrecy: the text the secret holds.
    #[verifier::external_body]
    pub fn expose_secret(&self) -> (r: &str)
        ensures
            r@ == self@,
    {
        self.inner.0.expose_secret()
    }
}

/// `age::encrypt` to one x25519 recipient. For a single x25519 recipient written
/// into a `Vec` age has no error path, so it returns `Ok`; the ciphertext
/// decrypts, under the identity the recipient belongs to, to the plaintext that
/// went in (which ciphertext comes back depends on fresh randomness). Like any
/// `Vec<u8>`, it holds at most `isize::MAX` bytes.
#[verifier::external_body]
pub(crate) fn age_encrypt(recipient: &AgeRecipient, plaintext: &[u8]) -> (r: Result<
    Vec<u8>,
    age::EncryptError,
>)
    ensures
        r is Ok,
        r matches Ok(ciphertext) ==> age_decrypted(recipient@, ciphertext@) == Some(plaintext@)
            && ciphertext@.len() <= isize::MAX,
{
    age::encrypt(&recipient.recipient, plaintext)
}

/// `age::decrypt` with an identity: the plaintext exactly where `age_decrypted`
/// gives one.
#[verifier::external_body]
pub(crate) fn age_decrypt(identity: &AgeIdentity, ciphertext: &[u8]) -> (r: Result<
    Vec<u8>,
    age::DecryptError,
>)
    ensures
        r is Ok <==> age_decrypted(identity@, ciphertext@) is Some,
        r matches Ok(plaintext) ==> age_decrypted(identity@, ciphertext@) == Some(plaintext@),
{
    age::decrypt(&identity.identity, ciphertext)
}

} // verus!
