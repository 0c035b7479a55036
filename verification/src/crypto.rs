//! The cipher of the credential vault: ChaCha20-Poly1305 under a 256-bit
//! key, with a fresh random nonce for every token.

use base64::engine::general_purpose::STANDARD;
use base64::Engine;
use chacha20poly1305::aead::{Aead, KeyInit};
use chacha20poly1305::{ChaCha20Poly1305, Key, Nonce};
use rand::RngCore;
use vstd::prelude::*;
use vstd::string::*;
use vstd::utf8::{decode_utf8, valid_utf8};

use crate::text::{chars_of, push_str_chars, string_from_chars};

verus! {

/// The length of a nonce in bytes.
pub const NONCE_SIZE: usize = 12;

/// The length of a key in bytes.
pub const KEY_SIZE: usize = 32;

/// The length of the authentication tag that ends a sealed message.
pub const TAG_SIZE: usize = 16;

/// The standard base64 text of `data`, with padding.
pub uninterp spec fn base64_text(data: Seq<u8>) -> Seq<char>;

/// The bytes that a standard base64 text stands for, where it is one.
pub uninterp spec fn base64_bytes(text: Seq<char>) -> Option<Seq<u8>>;

/// `message` sealed by ChaCha20-Poly1305 under `key` and `nonce`, without
/// associated data: the ciphertext followed by its tag.
pub uninterp spec fn sealed(key: Seq<u8>, nonce: Seq<u8>, message: Seq<u8>) -> Option<Seq<u8>>;

/// The message that ChaCha20-Poly1305 recovers from `ciphertext` under
/// `key` and `nonce`, where the tag verifies.
pub uninterp spec fn opened(key: Seq<u8>, nonce: Seq<u8>, ciphertext: Seq<u8>) -> Option<
    Seq<u8>,
>;

/// The bytes of an optional vector.
pub open spec fn bytes_view(bytes: Option<Vec<u8>>) -> Option<Seq<u8>> {
    match bytes {
        Some(v) => Some(v@),
        None => None,
    }
}

/// A character of the standard base64 alphabet, or the padding sign.
pub open spec fn is_base64_char(c: char) -> bool {
    ||| ('A' <= c && c <= 'Z')
    ||| ('a' <= c && c <= 'z')
    ||| ('0' <= c && c <= '9')
    ||| c == '+'
    ||| c == '/'
    ||| c == '='
}

/// Whether base64 can encode this many bytes: the length of the text, four
/// characters for every three bytes begun, has to fit `usize`.
pub open spec fn base64_encodable(len: nat) -> bool {
    (len / 3) * 4 + 4 <= usize::MAX
}

/// `STANDARD.encode` of the `base64` crate. The text is that of RFC 4648
/// with padding: it consists of the 64 characters of the alphabet and `=`,
/// and decoding it gives the bytes back. The call panics where the length
/// of the text overflows `usize`, which `requires` excludes.
#[verifier::external_body]
pub(crate) fn base64_encode(data: &Vec<u8>) -> (text: String)
    requires
        base64_encodable(data@.len()),
    ensures
        text@ == base64_text(data@),
        base64_bytes(text@) == Some(data@),
        forall|i: int| 0 <= i < text@.len() ==> is_base64_char(#[trigger] text@[i]),
{
    STANDARD.encode(data)
}

/// `STANDARD.decode` of the `base64` crate: the bytes of a text in
/// canonical standard base64, and nothing for any other text.
#[verifier::external_body]
pub(crate) fn base64_decode(text: &str) -> (data: Option<Vec<u8>>)
    ensures
        bytes_view(data) == base64_bytes(text@),
{
    STANDARD.decode(text).ok()
}

/// The longest message that the cipher takes, in bytes: the key stream
/// has `u32::MAX` blocks of 64 bytes, of which the first makes the key of
/// the tag and the counter stops before the last.
pub const MAX_MESSAGE_SIZE: u64 = 274877906816;

/// Whether the cipher seals a message of this length.
pub open spec fn sealable(len: nat) -> bool {
    len <= MAX_MESSAGE_SIZE
}

/// Whether the cipher takes a sealed message of this length: a message
/// that it seals, and its tag.
pub open spec fn openable(len: nat) -> bool {
    len <= MAX_MESSAGE_SIZE + TAG_SIZE
}

/// `ChaCha20Poly1305::encrypt` without associated data. On a message that
/// the key stream covers it succeeds, appends a tag of 16 bytes, and what
/// it returns opens to the message under the same key and nonce. On a
/// longer message the call panics or fails, so `requires` leaves it out,
/// as it does a buffer, the message and its tag, of more than `isize::MAX`
/// bytes.
#[verifier::external_body]
pub(crate) fn aead_seal(key: &[u8; 32], nonce: &[u8; 12], message: &Vec<u8>) -> (ciphertext:
    Option<Vec<u8>>)
    requires
        sealable(message@.len()),
        message@.len() + TAG_SIZE <= isize::MAX,
    ensures
        bytes_view(ciphertext) == sealed(key@, nonce@, message@),
        ciphertext is Some,
        ciphertext matches Some(c) ==> c@.len() == message@.len() + TAG_SIZE && opened(
            key@,
            nonce@,
            c@,
        ) == Some(message@),
{
    ChaCha20Poly1305::new(Key::from_slice(key)).encrypt(
        Nonce::from_slice(nonce),
        message.as_slice(),
    ).ok()
}

/// `ChaCha20Poly1305::decrypt` without associated data: the message, or
/// nothing where the tag does not verify. On data longer than a sealed
/// message can be the call panics where the tag verifies, so `requires`
/// leaves such data out.
#[verifier::external_body]
pub(crate) fn aead_open(key: &[u8; 32], nonce: &[u8; 12], ciphertext: &Vec<u8>) -> (message:
    Option<Vec<u8>>)
    requires
        openable(ciphertext@.len()),
    ensures
        bytes_view(message) == opened(key@, nonce@, ciphertext@),
{
    ChaCha20Poly1305::new(Key::from_slice(key)).decrypt(
        Nonce::from_slice(nonce),
        ciphertext.as_slice(),
    ).ok()
}

/// `RngCore::fill_bytes` of `rand::thread_rng()` on a fresh array. Nothing
/// is known of the bytes.
#[verifier::external_body]
pub(crate) fn random_bytes<const N: usize>() -> (bytes: [u8; N]) {
    let mut bytes = [0u8; N];
    rand::thread_rng().fill_bytes(&mut bytes);
    bytes
}

/// `String::from_utf8`: the text that the bytes encode, where they are
/// valid UTF-8.
#[verifier::external_body]
pub(crate) fn string_from_utf8(bytes: Vec<u8>) -> (text: Option<String>)
    ensures
        text is Some <==> valid_utf8(bytes@),
        text matches Some(s) ==> s@ == decode_utf8(bytes@),
{
    String::from_utf8(bytes).ok()
}

/// Why a plaintext was not encrypted.
#[derive(Clone, Copy, Debug, PartialEq, Eq, Structural)]
pub enum EncryptError {
    /// The plaintext is longer than the cipher or a buffer can take.
    PlaintextTooLong,
}

/// Why a token was not decrypted.
#[derive(Clone, Copy, Debug, PartialEq, Eq, Structural)]
pub enum DecryptError {
    /// The token does not start with `enc:`.
    InvalidTokenFormat,
    /// What follows the prefix is not base64.
    InvalidEncoding,
    /// The decoded data is shorter than a nonce.
    TruncatedData,
    /// The cipher does not open the data: the tag does not verify, because
    /// the token was altered or made under another key, or the data is
    /// longer than anything that the cipher seals.
    AuthenticationFailure,
    /// The decrypted bytes are not UTF-8.
    InvalidPlaintext,
}

impl EncryptError {
    /// The error in words.
    pub fn message(&self) -> (text: &'static str)
        ensures
            text@ == "Encryption failed: plaintext too long"@,
    {
        "Encryption failed: plaintext too long"
    }
}

impl DecryptError {
    /// The error in words.
    pub open spec fn message_text(self) -> Seq<char> {
        match self {
            DecryptError::InvalidTokenFormat => "Invalid encrypted format"@,
            DecryptError::InvalidEncoding => "Invalid base64 encoding"@,
            DecryptError::TruncatedData => "Invalid encrypted data"@,
            DecryptError::AuthenticationFailure => "Decryption failed: aead::Error"@,
            DecryptError::InvalidPlaintext => "Invalid UTF-8 in decrypted data"@,
        }
    }

    /// The error in words.
    pub fn message(&self) -> (text: &'static str)
        ensures
            text@ == self.message_text(),
    {
        match self {
            DecryptError::InvalidTokenFormat => "Invalid encrypted format",
            DecryptError::InvalidEncoding => "Invalid base64 encoding",
            DecryptError::TruncatedData => "Invalid encrypted data",
            DecryptError::AuthenticationFailure => "Decryption failed: aead::Error",
            DecryptError::InvalidPlaintext => "Invalid UTF-8 in decrypted data",
        }
    }
}

/// The prefix that marks a value as a token.
pub open spec fn token_prefix() -> Seq<char> {
    seq!['e', 'n', 'c', ':']
}

/// Whether a value carries the prefix of a token.
pub open spec fn is_token(value: Seq<char>) -> bool {
    value.len() >= 4 && value.take(4) == token_prefix()
}

/// The token for a nonce and the sealed message made with it.
pub open spec fn token_text(nonce: Seq<u8>, ciphertext: Seq<u8>) -> Seq<char> {
    token_prefix() + base64_text(nonce + ciphertext)
}

/// A nonce and a sealed message, or why a token holds none.
pub type TokenPayloadView = Result<(Seq<u8>, Seq<u8>), DecryptError>;

/// A plaintext, or why a token gave none.
pub type DecryptOutcomeView = Result<Seq<char>, DecryptError>;

/// The nonce and the sealed message that a token carries.
pub open spec fn token_payload(token: Seq<char>) -> TokenPayloadView {
    if !is_token(token) {
        Err(DecryptError::InvalidTokenFormat)
    } else {
        match base64_bytes(token.skip(4)) {
            None => Err(DecryptError::InvalidEncoding),
            Some(data) => if data.len() < NONCE_SIZE {
                Err(DecryptError::TruncatedData)
            } else {
                Ok((data.take(NONCE_SIZE as int), data.skip(NONCE_SIZE as int)))
            },
        }
    }
}

/// What the cipher makes of a sealed message under a key and a nonce: the
/// message, or nothing where the data is longer than anything that it
/// seals or the tag does not verify.
pub open spec fn authentic(key: Seq<u8>, nonce: Seq<u8>, ciphertext: Seq<u8>) -> Option<Seq<u8>> {
    if openable(ciphertext.len()) {
        opened(key, nonce, ciphertext)
    } else {
        None
    }
}

/// What decrypting a token under a key gives.
pub open spec fn decrypt_outcome(key: Seq<u8>, token: Seq<char>) -> DecryptOutcomeView {
    match token_payload(token) {
        Err(error) => Err(error),
        Ok((nonce, ciphertext)) => match authentic(key, nonce, ciphertext) {
            None => Err(DecryptError::AuthenticationFailure),
            Some(bytes) => if valid_utf8(bytes) {
                Ok(decode_utf8(bytes))
            } else {
                Err(DecryptError::InvalidPlaintext)
            },
        },
    }
}

/// `token` is what encrypting `message` under `key` with `nonce` gives: the
/// cipher seals the message into as many bytes and a tag, the token frames
/// the nonce and the sealed message, and both can be read back from it.
pub open spec fn is_token_of(
    token: Seq<char>,
    key: Seq<u8>,
    message: Seq<u8>,
    nonce: Seq<u8>,
) -> bool {
    &&& nonce.len() == NONCE_SIZE
    &&& sealed(key, nonce, message) matches Some(ciphertext)
    &&& ciphertext.len() == message.len() + TAG_SIZE
    &&& token == token_text(nonce, ciphertext)
    &&& token_payload(token) == TokenPayloadView::Ok((nonce, ciphertext))
}

/// A token of which the cipher does not open the data gives no plaintext,
/// whatever the data holds: decrypting it fails with
/// `AuthenticationFailure`.
pub proof fn lemma_rejected_data_gives_no_plaintext(key: Seq<u8>, token: Seq<char>)
    requires
        token_payload(token) matches Ok(payload) && authentic(key, payload.0, payload.1) is None,
    ensures
        decrypt_outcome(key, token) == DecryptOutcomeView::Err(
            DecryptError::AuthenticationFailure,
        ),
{
}

/// A plaintext comes out of a token only where the cipher opened its data:
/// it is the text of the bytes that the cipher gave, and of nothing else.
pub proof fn lemma_plaintext_only_from_opened_data(key: Seq<u8>, token: Seq<char>)
    requires
        decrypt_outcome(key, token) is Ok,
    ensures
        token_payload(token) matches Ok(payload) && opened(key, payload.0, payload.1) matches Some(
            bytes,
        ) && valid_utf8(bytes) && decrypt_outcome(key, token) == DecryptOutcomeView::Ok(
            decode_utf8(bytes),
        ),
{
}

/// A token carries its nonce: tokens that frame different nonces are
/// different texts.
pub proof fn lemma_tokens_tell_nonces_apart(first: Seq<char>, second: Seq<char>)
    requires
        token_payload(first) is Ok,
        token_payload(second) is Ok,
        token_payload(first)->Ok_0.0 != token_payload(second)->Ok_0.0,
    ensures
        first != second,
{
}

/// Whether a plaintext of this many bytes can be encrypted: the cipher
/// takes it, and the sealed message fits a buffer.
pub open spec fn encryptable(len: nat) -> bool {
    sealable(len) && len + TAG_SIZE <= isize::MAX
}

/// What `decrypt` returns, with the plaintext as a sequence of characters.
pub open spec fn plaintext_view(outcome: Result<String, DecryptError>) -> DecryptOutcomeView {
    match outcome {
        Ok(plaintext) => Ok(plaintext@),
        Err(error) => Err(error),
    }
}

/// What `parse_token` returns, as sequences of bytes.
pub open spec fn payload_view(
    outcome: Result<([u8; 12], Vec<u8>), DecryptError>,
) -> TokenPayloadView {
    match outcome {
        Ok((nonce, ciphertext)) => Ok((nonce@, ciphertext@)),
        Err(error) => Err(error),
    }
}

/// Whether a configuration value is a token rather than a plaintext.
pub fn is_encrypted(value: &str) -> (marked: bool)
    ensures
        marked == is_token(value@),
{
    let chars = chars_of(value);
    if chars.len() < 4 {
        return false;
    }
    let marked = chars[0] == 'e' && chars[1] == 'n' && chars[2] == 'c' && chars[3] == ':';
    proof {
        if marked {
            assert(value@.take(4) =~= token_prefix());
        } else {
            assert(value@.take(4)[0] == value@[0]);
            assert(value@.take(4)[1] == value@[1]);
            assert(value@.take(4)[2] == value@[2]);
            assert(value@.take(4)[3] == value@[3]);
        }
    }
    marked
}

/// Frames a nonce and the message sealed with it as a token.
pub fn frame_token(nonce: &[u8; 12], ciphertext: &Vec<u8>) -> (token: String)
    requires
        base64_encodable(NONCE_SIZE as nat + ciphertext@.len()),
    ensures
        token@ == token_text(nonce@, ciphertext@),
        token_payload(token@) == TokenPayloadView::Ok((nonce@, ciphertext@)),
{
    let mut data: Vec<u8> = Vec::new();
    let mut i: usize = 0;
    while i < 12
        invariant
            i <= 12,
            data@ == nonce@.take(i as int),
        decreases 12 - i,
    {
        data.push(nonce[i]);
        i += 1;
        assert(data@ =~= nonce@.take(i as int));
    }
    assert(nonce@.take(12) =~= nonce@);
    let mut j: usize = 0;
    while j < ciphertext.len()
        invariant
            j <= ciphertext.len(),
            data@ == nonce@ + ciphertext@.take(j as int),
        decreases ciphertext.len() - j,
    {
        data.push(ciphertext[j]);
        j += 1;
        assert(data@ =~= nonce@ + ciphertext@.take(j as int));
    }
    assert(ciphertext@.take(j as int) =~= ciphertext@);
    let encoded = base64_encode(&data);
    let mut chars: Vec<char> = Vec::new();
    chars.push('e');
    chars.push('n');
    chars.push('c');
    chars.push(':');
    assert(chars@ =~= token_prefix());
    push_str_chars(&mut chars, encoded.as_str());
    let token = string_from_chars(&chars);
    proof {
        assert(token@.take(4) =~= token_prefix());
        assert(token@.skip(4) =~= encoded@);
        assert(data@.take(NONCE_SIZE as int) =~= nonce@);
        assert(data@.skip(NONCE_SIZE as int) =~= ciphertext@);
    }
    token
}

/// Takes a token apart into its nonce and the sealed message.
pub fn parse_token(token: &str) -> (payload: Result<([u8; 12], Vec<u8>), DecryptError>)
    ensures
        payload_view(payload) == token_payload(token@),
{
    let chars = chars_of(token);
    if !is_encrypted(token) {
        return Err(DecryptError::InvalidTokenFormat);
    }
    let mut rest: Vec<char> = Vec::new();
    let mut i: usize = 4;
    while i < chars.len()
        invariant
            4 <= i <= chars.len(),
            rest@ == chars@.subrange(4, i as int),
        decreases chars.len() - i,
    {
        rest.push(chars[i]);
        i += 1;
        assert(rest@ =~= chars@.subrange(4, i as int));
    }
    assert(rest@ =~= token@.skip(4));
    let encoded = string_from_chars(&rest);
    let data = match base64_decode(encoded.as_str()) {
        Some(data) => data,
        None => {
            return Err(DecryptError::InvalidEncoding);
        },
    };
    if data.len() < NONCE_SIZE {
        return Err(DecryptError::TruncatedData);
    }
    let mut nonce: [u8; 12] = [0u8; 12];
    let mut k: usize = 0;
    while k < 12
        invariant
            k <= 12,
            data.len() >= 12,
            forall|j: int| 0 <= j < k ==> nonce@[j] == data@[j],
        decreases 12 - k,
    {
        nonce[k] = data[k];
        k += 1;
    }
    assert(nonce@ =~= data@.take(NONCE_SIZE as int));
    let mut ciphertext: Vec<u8> = Vec::new();
    let mut m: usize = 12;
    while m < data.len()
        invariant
            12 <= m <= data.len(),
            ciphertext@ == data@.subrange(12, m as int),
        decreases data.len() - m,
    {
        ciphertext.push(data[m]);
        m += 1;
        assert(ciphertext@ =~= data@.subrange(12, m as int));
    }
    assert(ciphertext@ =~= data@.skip(NONCE_SIZE as int));
    Ok((nonce, ciphertext))
}

/// A cipher under one key.
pub struct Crypto {
    key: [u8; 32],
}

impl Crypto {
    /// The key of the cipher.
    pub closed spec fn key(&self) -> Seq<u8> {
        self.key@
    }

    /// A cipher under `key`.
    pub fn new(key: &[u8; 32]) -> (crypto: Self)
        ensures
            crypto.key() == key@,
    {
        Crypto { key: *key }
    }

    /// Encrypts `plaintext` under a nonce that it draws at random, and
    /// frames the result as a token. The token decrypts to the plaintext
    /// under the same key.
    pub fn encrypt(&self, plaintext: &str) -> (outcome: Result<String, EncryptError>)
        ensures
            outcome is Ok <==> encryptable(plaintext.spec_bytes().len()),
            outcome matches Ok(token) ==> exists|nonce: Seq<u8>|
                is_token_of(token@, self.key(), plaintext.spec_bytes(), nonce),
            outcome matches Ok(token) ==> is_token(token@),
            outcome matches Ok(token) ==> decrypt_outcome(self.key(), token@)
                == DecryptOutcomeView::Ok(plaintext@),
            outcome matches Err(error) ==> error == EncryptError::PlaintextTooLong,
    {
        let message = plaintext.as_bytes_vec();
        if message.len() as u64 > MAX_MESSAGE_SIZE || message.len() > isize::MAX as usize
            - TAG_SIZE {
            return Err(EncryptError::PlaintextTooLong);
        }
        let nonce: [u8; 12] = random_bytes();
        let ciphertext = match aead_seal(&self.key, &nonce, &message) {
            Some(ciphertext) => ciphertext,
            None => {
                return Err(EncryptError::PlaintextTooLong);
            },
        };
        let token = frame_token(&nonce, &ciphertext);
        proof {
            vstd::utf8::encode_utf8_valid_utf8(plaintext@);
            vstd::utf8::encode_utf8_decode_utf8(plaintext@);
            assert(token@.take(4) =~= token_prefix());
            assert(is_token_of(token@, self.key(), plaintext.spec_bytes(), nonce@));
        }
        Ok(token)
    }

    /// Decrypts a token: the plaintext, or the first reason why the token
    /// cannot be read. Nothing of the plaintext is returned where the
    /// cipher does not open the data.
    pub fn decrypt(&self, encrypted: &str) -> (outcome: Result<String, DecryptError>)
        ensures
            plaintext_view(outcome) == decrypt_outcome(self.key(), encrypted@),
    {
        let (nonce, ciphertext) = match parse_token(encrypted) {
            Ok(payload) => payload,
            Err(error) => {
                return Err(error);
            },
        };
        if ciphertext.len() as u64 > MAX_MESSAGE_SIZE + TAG_SIZE as u64 {
            return Err(DecryptError::AuthenticationFailure);
        }
        let bytes = match aead_open(&self.key, &nonce, &ciphertext) {
            Some(bytes) => bytes,
            None => {
                return Err(DecryptError::AuthenticationFailure);
            },
        };
        match string_from_utf8(bytes) {
            Some(plaintext) => Ok(plaintext),
            None => Err(DecryptError::InvalidPlaintext),
        }
    }
}

/// A key drawn at random.
pub fn generate_key() -> (key: [u8; 32]) {
    random_bytes()
}

} // verus!
