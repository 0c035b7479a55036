//! The master key store: one key, created on first use and kept until it
//! is reset. The manager decides on what was read from the backing store
//! and says what is to be written back; reading and writing are the
//! caller's.

use vstd::prelude::*;

use crate::crypto::{
    base64_bytes, base64_decode, base64_encode, base64_text, generate_key, is_base64_char,
    KEY_SIZE,
};
use crate::text::{lemma_trimmed_unchanged, string_from_chars, trim, trimmed};

verus! {

/// The name of the key file below the configuration directory.
pub open spec fn key_file_name() -> Seq<char> {
    ".master.key"@
}

/// The permissions of the key file: read and write for its owner alone.
pub const KEY_FILE_MODE: u32 = 0o600;

/// The backing stores that can hold the master key. An installation uses
/// one of them, and the manager never turns from it to the other.
#[derive(Clone, Copy, Debug, PartialEq, Eq, Structural)]
pub enum MasterKeySource {
    /// The credential facility of the platform.
    SecureStore,
    /// A file that only its owner can read and write.
    KeyFile,
}

/// What is wrong with stored key material.
#[derive(Clone, Copy, Debug, PartialEq, Eq, Structural)]
pub enum KeyDefect {
    /// It is not base64.
    Encoding,
    /// It does not decode to 32 bytes.
    Size,
}

/// Why the master key could not be had.
#[derive(Clone, Copy, Debug, PartialEq, Eq, Structural)]
pub enum KeyStoreError {
    /// The backing store cannot be reached.
    KeyStoreUnavailable,
    /// The backing store holds something that is no key.
    CorruptKeyMaterial(KeyDefect),
}

impl KeyStoreError {
    /// The error in words.
    pub open spec fn message_text(self) -> Seq<char> {
        match self {
            KeyStoreError::KeyStoreUnavailable => "Master key store unavailable"@,
            KeyStoreError::CorruptKeyMaterial(KeyDefect::Encoding) => {
                "Invalid master key encoding"@
            },
            KeyStoreError::CorruptKeyMaterial(KeyDefect::Size) => "Invalid master key size"@,
        }
    }

    /// The error in words.
    pub fn message(&self) -> (text: &'static str)
        ensures
            text@ == self.message_text(),
    {
        match self {
            KeyStoreError::KeyStoreUnavailable => "Master key store unavailable",
            KeyStoreError::CorruptKeyMaterial(KeyDefect::Encoding) => {
                "Invalid master key encoding"
            },
            KeyStoreError::CorruptKeyMaterial(KeyDefect::Size) => "Invalid master key size",
        }
    }
}

/// What the backing store holds, as far as the manager knows.
#[derive(Clone, Debug)]
pub enum StoreContent {
    /// The store cannot be reached.
    Unavailable,
    /// The store holds something that could not be read.
    Unreadable,
    /// The store holds no key.
    Missing,
    /// The store holds this text.
    Present(String),
}

/// A `StoreContent` with its text as a sequence of characters.
pub ghost enum StoreContentView {
    Unavailable,
    Unreadable,
    Missing,
    Present(Seq<char>),
}

impl View for StoreContent {
    type V = StoreContentView;

    open spec fn view(&self) -> StoreContentView {
        match *self {
            StoreContent::Unavailable => StoreContentView::Unavailable,
            StoreContent::Unreadable => StoreContentView::Unreadable,
            StoreContent::Missing => StoreContentView::Missing,
            StoreContent::Present(text) => StoreContentView::Present(text@),
        }
    }
}

/// What the caller has to do to the backing store so that it holds what the
/// manager holds.
#[derive(Clone, Copy, Debug, PartialEq, Eq, Structural)]
pub enum StoreAction {
    /// The store is up to date.
    Nothing,
    /// Write the manager's text, readable and writable by the owner alone.
    Write,
    /// Delete the stored key.
    Delete,
}

/// A key, or why there is none.
pub type KeyOutcomeView = Result<Seq<u8>, KeyStoreError>;

/// The key that a stored text holds: the text is trimmed and decoded, and
/// has to give 32 bytes.
pub open spec fn stored_key(text: Seq<char>) -> KeyOutcomeView {
    match base64_bytes(trimmed(text)) {
        None => Err(KeyStoreError::CorruptKeyMaterial(KeyDefect::Encoding)),
        Some(bytes) => if bytes.len() == KEY_SIZE {
            Ok(bytes)
        } else {
            Err(KeyStoreError::CorruptKeyMaterial(KeyDefect::Size))
        },
    }
}

/// The text under which a key is stored.
pub open spec fn key_text(key: Seq<u8>) -> Seq<char> {
    base64_text(key)
}

/// How one request for the key takes the store from `before` to `after`:
/// a store that holds a text is read and left alone, an empty one receives
/// a new key, and one that cannot be reached or read gives an error and is
/// never replaced by anything.
pub open spec fn key_request(
    before: StoreContentView,
    outcome: KeyOutcomeView,
    after: StoreContentView,
) -> bool {
    match before {
        StoreContentView::Unavailable | StoreContentView::Unreadable => {
            &&& outcome == KeyOutcomeView::Err(KeyStoreError::KeyStoreUnavailable)
            &&& after == before
        },
        StoreContentView::Present(text) => {
            &&& outcome == stored_key(text)
            &&& after == before
        },
        StoreContentView::Missing => {
            &&& outcome matches Ok(key)
            &&& key.len() == KEY_SIZE
            &&& after == StoreContentView::Present(key_text(key))
            &&& stored_key(key_text(key)) == outcome
        },
    }
}

/// How a reset takes the store from `before` to `after`: a store that can
/// be reached is emptied, whether or not what it holds can be read.
pub open spec fn key_reset(
    before: StoreContentView,
    outcome: Result<(), KeyStoreError>,
    after: StoreContentView,
) -> bool {
    match before {
        StoreContentView::Unavailable => {
            &&& outcome matches Err(error)
            &&& error == KeyStoreError::KeyStoreUnavailable
            &&& after == before
        },
        _ => outcome is Ok && after == StoreContentView::Missing,
    }
}

/// What `get_or_create_master_key` returns, as a sequence of bytes.
pub open spec fn key_view(outcome: Result<[u8; 32], KeyStoreError>) -> KeyOutcomeView {
    match outcome {
        Ok(key) => Ok(key@),
        Err(error) => Err(error),
    }
}

/// Reads the key that a stored text holds.
pub fn decode_stored_key(text: &str) -> (outcome: Result<[u8; 32], KeyStoreError>)
    ensures
        key_view(outcome) == stored_key(text@),
{
    let kept = trim(text);
    let encoded = string_from_chars(&kept);
    let decoded = match base64_decode(encoded.as_str()) {
        Some(decoded) => decoded,
        None => {
            return Err(KeyStoreError::CorruptKeyMaterial(KeyDefect::Encoding));
        },
    };
    if decoded.len() != KEY_SIZE {
        return Err(KeyStoreError::CorruptKeyMaterial(KeyDefect::Size));
    }
    let mut key: [u8; 32] = [0u8; 32];
    let mut i: usize = 0;
    while i < 32
        invariant
            i <= 32,
            decoded.len() == 32,
            forall|j: int| 0 <= j < i ==> key@[j] == decoded@[j],
        decreases 32 - i,
    {
        key[i] = decoded[i];
        i += 1;
    }
    assert(key@ =~= decoded@);
    Ok(key)
}

/// The text under which `key` is stored. Reading it back gives the key.
pub fn encode_key(key: &[u8; 32]) -> (text: String)
    ensures
        text@ == key_text(key@),
        stored_key(text@) == KeyOutcomeView::Ok(key@),
{
    let mut bytes: Vec<u8> = Vec::new();
    let mut i: usize = 0;
    while i < 32
        invariant
            i <= 32,
            bytes@ == key@.take(i as int),
        decreases 32 - i,
    {
        bytes.push(key[i]);
        i += 1;
        assert(bytes@ =~= key@.take(i as int));
    }
    assert(key@.take(32) =~= key@);
    let text = base64_encode(&bytes);
    proof {
        if text@.len() > 0 {
            assert(is_base64_char(text@[0]));
            assert(is_base64_char(text@.last()));
        }
        lemma_trimmed_unchanged(text@);
    }
    text
}

/// The path of the key file for a configuration directory.
pub open spec fn key_file_path_text(config_dir: Seq<char>) -> Seq<char> {
    crate::config::joined_path(config_dir, key_file_name())
}

/// The keeper of the master key.
pub struct SecretManager {
    source: MasterKeySource,
    content: StoreContent,
    pending: StoreAction,
}

impl SecretManager {
    /// The backing store that the manager stands for.
    pub closed spec fn source(&self) -> MasterKeySource {
        self.source
    }

    /// What the backing store will hold once the pending action is done.
    pub closed spec fn content(&self) -> StoreContentView {
        self.content@
    }

    /// What the caller has to do to the backing store.
    pub closed spec fn pending(&self) -> StoreAction {
        self.pending
    }

    /// A manager over an empty key file.
    pub fn new() -> (manager: Result<Self, KeyStoreError>)
        ensures
            manager matches Ok(m) && m.source() == MasterKeySource::KeyFile && m.content()
                == StoreContentView::Missing && m.pending() == StoreAction::Nothing,
    {
        Ok(
            SecretManager {
                source: MasterKeySource::KeyFile,
                content: StoreContent::Missing,
                pending: StoreAction::Nothing,
            },
        )
    }

    /// A manager over a backing store of which `content` was read.
    pub fn open(source: MasterKeySource, content: StoreContent) -> (manager: Self)
        ensures
            manager.source() == source,
            manager.content() == content@,
            manager.pending() == StoreAction::Nothing,
    {
        SecretManager { source, content, pending: StoreAction::Nothing }
    }

    /// The path of the key file, where the configuration directory is known.
    pub fn key_file_path(config_dir: Option<&str>) -> (path: Result<String, KeyStoreError>)
        ensures
            config_dir is None ==> (path matches Err(error) && error
                == KeyStoreError::KeyStoreUnavailable),
            config_dir matches Some(dir) ==> (path matches Ok(p) && p@ == key_file_path_text(
                dir@,
            )),
    {
        match config_dir {
            None => Err(KeyStoreError::KeyStoreUnavailable),
            Some(dir) => Ok(crate::config::join_path(dir, ".master.key")),
        }
    }

    /// The backing store that the manager stands for.
    pub fn key_source(&self) -> (source: MasterKeySource)
        ensures
            source == self.source(),
    {
        self.source
    }

    /// What the caller has to do to the backing store.
    pub fn pending_action(&self) -> (action: StoreAction)
        ensures
            action == self.pending(),
    {
        self.pending
    }

    /// The text to write, where there is one.
    pub fn stored_text(&self) -> (text: Option<&String>)
        ensures
            match self.content() {
                StoreContentView::Present(t) => text matches Some(s) && s@ == t,
                _ => text is None,
            },
    {
        match &self.content {
            StoreContent::Present(text) => Some(text),
            _ => None,
        }
    }

    /// Records that the caller has done the pending action.
    pub fn acknowledge(&mut self)
        ensures
            final(self).source() == old(self).source(),
            final(self).content() == old(self).content(),
            final(self).pending() == StoreAction::Nothing,
    {
        self.pending = StoreAction::Nothing;
    }

    /// The master key: the stored one where the store holds one, a new one
    /// drawn at random where the store is empty. The new key is then to be
    /// written back. A store that cannot be reached or read gives an error,
    /// and never a key from elsewhere.
    pub fn get_or_create_master_key(&mut self) -> (outcome: Result<[u8; 32], KeyStoreError>)
        ensures
            key_request(old(self).content(), key_view(outcome), final(self).content()),
            final(self).source() == old(self).source(),
            final(self).pending() == if old(self).content() == StoreContentView::Missing {
                StoreAction::Write
            } else {
                old(self).pending()
            },
    {
        match &self.content {
            StoreContent::Unavailable => Err(KeyStoreError::KeyStoreUnavailable),
            StoreContent::Unreadable => Err(KeyStoreError::KeyStoreUnavailable),
            StoreContent::Present(text) => decode_stored_key(text.as_str()),
            StoreContent::Missing => {
                let key = generate_key();
                let text = encode_key(&key);
                self.content = StoreContent::Present(text);
                self.pending = StoreAction::Write;
                Ok(key)
            },
        }
    }

    /// Forgets the master key. Every token made under it is lost. The
    /// stored key is then to be deleted, also where it could not be read.
    pub fn reset_master_key(&mut self) -> (outcome: Result<(), KeyStoreError>)
        ensures
            key_reset(old(self).content(), outcome, final(self).content()),
            final(self).source() == old(self).source(),
            final(self).pending() == if outcome is Ok {
                StoreAction::Delete
            } else {
                old(self).pending()
            },
    {
        match &self.content {
            StoreContent::Unavailable => Err(KeyStoreError::KeyStoreUnavailable),
            _ => {
                self.content = StoreContent::Missing;
                self.pending = StoreAction::Delete;
                Ok(())
            },
        }
    }
}

/// Two requests in a row give the same key and leave the store as the
/// first left it.
pub proof fn lemma_key_request_idempotent(
    before: StoreContentView,
    key: Seq<u8>,
    between: StoreContentView,
    second: KeyOutcomeView,
    after: StoreContentView,
)
    requires
        key_request(before, Ok(key), between),
        key_request(between, second, after),
    ensures
        second == KeyOutcomeView::Ok(key),
        after == between,
{
}

/// A request that follows a reset draws a new key and stores it, whatever
/// the store held before the reset.
pub proof fn lemma_key_request_after_reset(
    before: StoreContentView,
    emptied: StoreContentView,
    outcome: KeyOutcomeView,
    after: StoreContentView,
)
    requires
        key_reset(before, Ok(()), emptied),
        key_request(emptied, outcome, after),
    ensures
        emptied == StoreContentView::Missing,
        outcome matches Ok(key) && after == StoreContentView::Present(key_text(key)),
{
}

} // verus!
