//! AES-128-GCM sealing of secrets under one fixed key, and the base64 text
//! form in which sealed secrets are kept.

use aes_gcm::aead::generic_array::GenericArray;
use aes_gcm::aead::{Aead, NewAead};
use aes_gcm::Aes128Gcm;
use rand::distributions::Alphanumeric;
use rand::Rng;
use vstd::prelude::*;
use vstd::utf8::encode_utf8;

verus! {

/// Length of a symmetric key, in bytes.
pub const KEY_LEN: usize = 16;

/// Length of a nonce, in bytes.
pub const NONCE_LEN: usize = 12;

/// Length of the authentication tag appended to every ciphertext.
pub const TAG_LEN: usize = 16;

/// The longest plaintext sealed here: 2^36 - 32 bytes, the most that
/// AES-GCM's 32-bit block counter covers.
pub const MAX_PLAINTEXT: u64 = 0xF_FFFF_FFE0;

/// What AES-128-GCM makes of `plaintext` under `key` and `nonce`, with no
/// associated data: the ciphertext followed by its tag.
pub uninterp spec fn aead_seal(key: Seq<u8>, nonce: Seq<u8>, plaintext: Seq<u8>) -> Seq<u8>;

/// What AES-128-GCM opening of `ciphertext` under `key` and `nonce` gives:
/// `None` when the tag does not authenticate it.
pub uninterp spec fn aead_open(key: Seq<u8>, nonce: Seq<u8>, ciphertext: Seq<u8>) -> Option<
    Seq<u8>,
>;

/// The standard, padded base64 text of `bytes`.
pub uninterp spec fn base64_of(bytes: Seq<u8>) -> Seq<char>;

/// The bytes that standard base64 `text` stands for, `None` when it is not
/// valid standard base64.
pub uninterp spec fn base64_decoded(text: Seq<char>) -> Option<Seq<u8>>;

/// What opening `ciphertext` under `key` and the nonce text gives here: it
/// fails closed on a nonce that does not fit the cipher and on a ciphertext
/// longer than the longest sealed plaintext and its tag.
pub open spec fn opened_secret(key: Seq<u8>, nonce: Seq<char>, ciphertext: Seq<u8>) -> Option<
    Seq<u8>,
> {
    if nonce_fits(nonce) && ciphertext.len() <= MAX_PLAINTEXT + TAG_LEN {
        aead_open(key, nonce_bytes(nonce), ciphertext)
    } else {
        None
    }
}

/// The bytes of a nonce kept as text: its UTF-8 encoding.
pub open spec fn nonce_bytes(nonce: Seq<char>) -> Seq<u8> {
    encode_utf8(nonce)
}

/// A nonce text whose encoding has the length the cipher takes.
pub open spec fn nonce_fits(nonce: Seq<char>) -> bool {
    nonce_bytes(nonce).len() == NONCE_LEN
}

pub open spec fn is_ascii_alphanumeric(c: char) -> bool {
    ('a' <= c && c <= 'z') || ('A' <= c && c <= 'Z') || ('0' <= c && c <= '9')
}

/// A key shorter than `KEY_LEN`, filled up with zero bytes.
pub open spec fn padded_key(key: Seq<u8>) -> Seq<u8> {
    key + Seq::new((KEY_LEN - key.len()) as nat, |i: int| 0u8)
}

/// Each character takes at most four bytes of UTF-8.
pub proof fn lemma_utf8_len_bound(chars: Seq<char>)
    ensures
        encode_utf8(chars).len() <= 4 * chars.len(),
    decreases chars.len(),
{
    if chars.len() > 0 {
        lemma_utf8_len_bound(chars.drop_first());
    }
}

/// Relies on `aes_gcm::Aes128Gcm` through `aead::Aead::encrypt`: with a
/// 16-byte key and a 12-byte nonce it succeeds on every plaintext of at most
/// 2^36 - 32 bytes (the block counter covers that many), appends a 16-byte tag, and opening the result under the same
/// key and nonce recomputes that tag and gives the plaintext back.
#[verifier::external_body]
fn aes_seal(key: &[u8], nonce: &[u8], plaintext: &[u8]) -> (r: Vec<u8>)
    requires
        key@.len() == KEY_LEN,
        nonce@.len() == NONCE_LEN,
        plaintext@.len() <= MAX_PLAINTEXT,
    ensures
        r@ == aead_seal(key@, nonce@, plaintext@),
        r@.len() == plaintext@.len() + TAG_LEN,
        aead_open(key@, nonce@, r@) == Some(plaintext@),
{
    let cipher = Aes128Gcm::new(GenericArray::from_slice(key));
    cipher.encrypt(GenericArray::from_slice(nonce), plaintext).unwrap()
}

/// Relies on `aes_gcm::Aes128Gcm` through `aead::Aead::decrypt`: it succeeds
/// only when the trailing 16-byte tag equals the one computed over the rest,
/// and then the rest is the keystream applied to the plaintext, so sealing
/// that plaintext again gives back the same ciphertext. The length bound
/// keeps the block counter from running out.
#[verifier::external_body]
fn aes_open(key: &[u8], nonce: &[u8], ciphertext: &[u8]) -> (r: Option<Vec<u8>>)
    requires
        key@.len() == KEY_LEN,
        nonce@.len() == NONCE_LEN,
        ciphertext@.len() <= MAX_PLAINTEXT + TAG_LEN,
    ensures
        r matches Some(p) ==> Some(p@) == aead_open(key@, nonce@, ciphertext@),
        r is None ==> aead_open(key@, nonce@, ciphertext@) is None,
        r matches Some(p) ==> p@.len() + TAG_LEN == ciphertext@.len(),
        r matches Some(p) ==> aead_seal(key@, nonce@, p@) == ciphertext@,
{
    let cipher = Aes128Gcm::new(GenericArray::from_slice(key));
    cipher.decrypt(GenericArray::from_slice(nonce), ciphertext).ok()
}

/// Relies on `rand::thread_rng` sampling `rand::distributions::Alphanumeric`:
/// twelve characters, each an ASCII letter or digit.
#[verifier::external_body]
pub(crate) fn random_nonce() -> (r: String)
    ensures
        r@.len() == NONCE_LEN,
        forall|i: int| 0 <= i < r@.len() ==> is_ascii_alphanumeric(#[trigger] r@[i]),
        nonce_fits(r@),
{
    rand::thread_rng().sample_iter(&Alphanumeric).take(NONCE_LEN).map(char::from).collect()
}

/// Relies on `base64::encode`: standard alphabet with padding, and
/// `base64::decode` reads that text back to the same bytes.
#[verifier::external_body]
pub(crate) fn base64_encode(bytes: &[u8]) -> (r: String)
    ensures
        r@ == base64_of(bytes@),
        base64_decoded(r@) == Some(bytes@),
{
    base64::encode(bytes)
}

/// Relies on `base64::decode`: the bytes of standard base64 text, or an
/// error for text that is not valid base64.
#[verifier::external_body]
pub(crate) fn base64_decode(text: &str) -> (r: Option<Vec<u8>>)
    ensures
        r matches Some(b) ==> Some(b@) == base64_decoded(text@),
        r is None ==> base64_decoded(text@) is None,
{
    base64::decode(text).ok()
}

/// Why a sealed secret could not be opened.
#[derive(Debug, Clone, Copy, PartialEq, Eq, Structural)]
pub enum CipherError {
    /// The tag did not authenticate the ciphertext: wrong key, or tampered data.
    AuthenticationFailure,
}

/// Why a key could not be made from the bytes given.
#[derive(Debug, Clone, Copy, PartialEq, Eq, Structural)]
pub enum KeyError {
    /// More than `KEY_LEN` bytes.
    TooLong,
}

/// The cipher keyed by one fixed 16-byte key.
pub struct AesWrapper {
    key: Vec<u8>,
}

impl AesWrapper {
    #[verifier::type_invariant]
    spec fn key_has_cipher_length(&self) -> bool {
        self.key@.len() == KEY_LEN
    }

    /// The key bytes.
    pub closed spec fn key_bytes(&self) -> Seq<u8> {
        self.key@
    }

    /// A cipher keyed by exactly `KEY_LEN` bytes.
    pub fn new(key: &[u8]) -> (r: Self)
        requires
            key@.len() == KEY_LEN,
        ensures
            r.key_bytes() == key@,
    {
        AesWrapper { key: vstd::slice::slice_to_vec(key) }
    }

    /// Seals `plaintext` under this key and the given nonce text.
    pub fn seal(&self, plaintext: &[u8], nonce: &str) -> (r: Vec<u8>)
        requires
            nonce_fits(nonce@),
            plaintext@.len() <= MAX_PLAINTEXT,
        ensures
            r@ == aead_seal(self.key_bytes(), nonce_bytes(nonce@), plaintext@),
            r@.len() == plaintext@.len() + TAG_LEN,
            aead_open(self.key_bytes(), nonce_bytes(nonce@), r@) == Some(plaintext@),
            opened_secret(self.key_bytes(), nonce@, r@) == Some(plaintext@),
    {
        proof {
            use_type_invariant(self);
        }
        aes_seal(self.key.as_slice(), nonce.as_bytes(), plaintext)
    }

    /// Opens `ciphertext` under this key and the given nonce text; fails
    /// closed, with the authentication failure, when the tag does not
    /// authenticate it, the nonce does not fit, or the ciphertext is longer
    /// than any sealed here.
    pub fn open(&self, ciphertext: &[u8], nonce: &str) -> (r: Result<Vec<u8>, CipherError>)
        ensures
            match opened_secret(self.key_bytes(), nonce@, ciphertext@) {
                Some(p) => r matches Ok(q) && q@ == p,
                None => r == Err::<Vec<u8>, CipherError>(CipherError::AuthenticationFailure),
            },
            r matches Ok(p) ==> p@.len() + TAG_LEN == ciphertext@.len(),
            r matches Ok(p) ==> aead_seal(self.key_bytes(), nonce_bytes(nonce@), p@)
                == ciphertext@,
    {
        proof {
            use_type_invariant(self);
        }
        let nonce_bytes = nonce.as_bytes();
        if nonce_bytes.len() != NONCE_LEN || (ciphertext.len() as u64) > MAX_PLAINTEXT
            + TAG_LEN as u64 {
            return Err(CipherError::AuthenticationFailure);
        }
        match aes_open(self.key.as_slice(), nonce_bytes, ciphertext) {
            Some(p) => Ok(p),
            None => Err(CipherError::AuthenticationFailure),
        }
    }
}

/// Makes the cipher from a user's key: shorter keys are filled up with zero
/// bytes to `KEY_LEN`; longer ones are refused.
pub fn keygen(key: Vec<u8>) -> (r: Result<AesWrapper, KeyError>)
    ensures
        key@.len() > KEY_LEN <==> r is Err,
        r matches Ok(w) ==> w.key_bytes() == padded_key(key@),
{
    if key.len() > KEY_LEN {
        return Err(KeyError::TooLong);
    }
    let mut padded = key;
    let ghost original = padded@;
    while padded.len() < KEY_LEN
        invariant
            original.len() <= padded@.len() <= KEY_LEN,
            padded@ =~= original + Seq::new((padded@.len() - original.len()) as nat, |i: int| 0u8),
        decreases KEY_LEN - padded@.len(),
    {
        padded.push(0u8);
    }
    assert(padded@ =~= padded_key(original));
    Ok(AesWrapper::new(padded.as_slice()))
}

/// Seals `password` under a fresh random nonce; gives the ciphertext and the
/// nonce.
pub fn encrypt(password: &[u8], aead: &AesWrapper) -> (r: (Vec<u8>, String))
    requires
        password@.len() <= MAX_PLAINTEXT,
    ensures
        nonce_fits(r.1@),
        r.1@.len() == NONCE_LEN,
        forall|i: int| 0 <= i < r.1@.len() ==> is_ascii_alphanumeric(#[trigger] r.1@[i]),
        r.0@ == aead_seal(aead.key_bytes(), nonce_bytes(r.1@), password@),
        r.0@.len() == password@.len() + TAG_LEN,
        opened_secret(aead.key_bytes(), r.1@, r.0@) == Some(password@),
{
    let nonce = random_nonce();
    let sealed = aead.seal(password, nonce.as_str());
    (sealed, nonce)
}

/// Seals `password` under the given nonce and gives the base64 text of the
/// ciphertext.
pub fn encrypt_known(password: &[u8], aead: &AesWrapper, nonce: &str) -> (r: String)
    requires
        nonce_fits(nonce@),
        password@.len() <= MAX_PLAINTEXT,
    ensures
        r@ == base64_of(aead_seal(aead.key_bytes(), nonce_bytes(nonce@), password@)),
        base64_decoded(r@) == Some(aead_seal(aead.key_bytes(), nonce_bytes(nonce@), password@)),
        opened_secret(
            aead.key_bytes(),
            nonce@,
            aead_seal(aead.key_bytes(), nonce_bytes(nonce@), password@),
        ) == Some(password@),
{
    let sealed = aead.seal(password, nonce);
    base64_encode(sealed.as_slice())
}

/// Opens a secret kept as base64 text under the given nonce. Everything
/// that does not open to a plaintext (text that is not base64, a nonce that
/// does not fit, a tag that does not authenticate) is the authentication
/// failure.
pub fn decrypt(password: &str, aead: &AesWrapper, nonce: &str) -> (r: Result<
    Vec<u8>,
    CipherError,
>)
    ensures
        match base64_decoded(password@) {
            Some(c) => match opened_secret(aead.key_bytes(), nonce@, c) {
                Some(p) => r matches Ok(q) && q@ == p,
                None => r == Err::<Vec<u8>, CipherError>(CipherError::AuthenticationFailure),
            },
            None => r == Err::<Vec<u8>, CipherError>(CipherError::AuthenticationFailure),
        },
{
    match base64_decode(password) {
        None => Err(CipherError::AuthenticationFailure),
        Some(sealed) => aead.open(sealed.as_slice(), nonce),
    }
}

} // verus!
