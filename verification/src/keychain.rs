//! Storage of the API key: in the Keychain where that works, else in a private file.

use vstd::prelude::*;

use crate::config;
use crate::text;

verus! {

pub const SERVICE: &'static str = "com.curiosityos.fntype";

pub const ACCOUNT: &'static str = "xai-api-key";

/// The shortest complete API key, in bytes.
pub const MIN_KEY_BYTES: usize = 40;

/// The permission bits of the private file: read and write for the owner alone.
pub const PRIVATE_FILE_MODE: u32 = 0o600;

/// The key that a stored text holds: the text without surrounding whitespace, if it is long
/// enough.
pub open spec fn key_in(stored: Seq<char>) -> Option<Seq<char>> {
    let key = text::trim(stored);
    if vstd::utf8::encode_utf8(key).len() >= MIN_KEY_BYTES {
        Some(key)
    } else {
        None
    }
}

/// What reading the Keychain leads to.
pub enum KeyLookup {
    /// The key, or that there is none.
    Done(Option<String>),
    /// The Keychain has no text: look in the private file.
    ReadFile,
}

/// How storing a key goes on after the Keychain was tried.
#[derive(Clone, Copy, PartialEq, Eq, Structural, Debug)]
pub enum SaveStep {
    /// The key is in the Keychain: remove the private file.
    RemoveFile,
    /// The Keychain is unavailable: write the private file.
    WriteFile,
}

/// Trusted: `String::from_utf8` gives the text that the bytes encode, and fails exactly where
/// they are not UTF-8.
#[verifier::external_body]
fn utf8_text(bytes: Vec<u8>) -> (r: Option<String>)
    ensures
        match r {
            Some(s) => vstd::utf8::valid_utf8(bytes@) && s@ == vstd::utf8::decode_utf8(bytes@),
            None => !vstd::utf8::valid_utf8(bytes@),
        },
{
    String::from_utf8(bytes).ok()
}

/// The key that a stored text holds, if it is long enough.
fn usable(stored: &str) -> (r: Option<String>)
    ensures
        text::optional(r) == key_in(stored@),
{
    let key = text::string_of(&text::trimmed(&text::chars_of(stored)));
    if key.as_str().as_bytes().len() >= MIN_KEY_BYTES {
        Some(key)
    } else {
        None
    }
}

/// The private file.
pub fn private_key_path() -> (r: Vec<u8>)
    ensures
        exists|base: Option<Seq<u8>>|
            r@ == config::joined(
                #[trigger] config::config_dir_of(base),
                config::utf8(".xai-key"@),
            ),
{
    config::join(config::config_dir(), ".xai-key")
}

/// Looks for the key in what the Keychain holds.
pub fn load(secret: Option<Vec<u8>>) -> (r: KeyLookup)
    ensures
        match secret {
            Some(bytes) if vstd::utf8::valid_utf8(bytes@) => {
                r matches KeyLookup::Done(key) && text::optional(key) == key_in(
                    vstd::utf8::decode_utf8(bytes@),
                )
            },
            _ => r is ReadFile,
        },
{
    match secret {
        Some(bytes) => match utf8_text(bytes) {
            Some(stored) => KeyLookup::Done(usable(stored.as_str())),
            None => KeyLookup::ReadFile,
        },
        None => KeyLookup::ReadFile,
    }
}

/// Looks for the key in what the private file holds; `None` where it cannot be read.
pub fn load_file(contents: Option<String>) -> (r: Option<String>)
    ensures
        text::optional(r) == match contents {
            Some(stored) => key_in(stored@),
            None => None,
        },
{
    match contents {
        Some(stored) => usable(stored.as_str()),
        None => None,
    }
}

/// Why a key is not stored.
pub enum KeyError {
    /// It is too short to be complete.
    Incomplete,
    /// The clipboard holds no text.
    NoText,
    /// The file that should hold it cannot be read.
    Unreadable(String),
}

impl KeyError {
    /// What the error reads.
    pub open spec fn reads(self) -> Seq<char> {
        match self {
            KeyError::Incomplete => "that does not look like a complete xAI API key"@,
            KeyError::NoText => "the clipboard does not contain text"@,
            KeyError::Unreadable(error) => "could not read key file: "@ + error@,
        }
    }

    /// What the error reads.
    pub fn message(&self) -> (r: String)
        ensures
            r@ == self.reads(),
    {
        match self {
            KeyError::Incomplete => "that does not look like a complete xAI API key".to_owned(),
            KeyError::NoText => "the clipboard does not contain text".to_owned(),
            KeyError::Unreadable(error) => {
                let mut out = "could not read key file: ".to_owned();
                out.append(error.as_str());
                out
            },
        }
    }
}

/// The key to store for the text that the user gave.
pub fn save(key: &str) -> (r: Result<String, KeyError>)
    ensures
        match r {
            Ok(trimmed) => key_in(key@) == Some(trimmed@),
            Err(error) => key_in(key@) is None && error is Incomplete,
        },
{
    match usable(key) {
        Some(trimmed) => Ok(trimmed),
        None => Err(KeyError::Incomplete),
    }
}

/// The key to store for what the clipboard holds; `None` where that is no text.
pub fn import_from_clipboard(contents: Option<String>) -> (r: Result<String, KeyError>)
    ensures
        match (contents, r) {
            (Some(text), Ok(key)) => key_in(text@) == Some(key@),
            (Some(text), Err(error)) => key_in(text@) is None && error is Incomplete,
            (None, Ok(_)) => false,
            (None, Err(error)) => error is NoText,
        },
{
    match contents {
        Some(text) => save(text.as_str()),
        None => Err(KeyError::NoText),
    }
}

/// The key to store for what was read from a file, or why it could not be read.
pub fn import_from_file(contents: Result<String, String>) -> (r: Result<String, KeyError>)
    ensures
        match (contents, r) {
            (Ok(text), Ok(key)) => key_in(text@) == Some(key@),
            (Ok(text), Err(error)) => key_in(text@) is None && error is Incomplete,
            (Err(_), Ok(_)) => false,
            (Err(why), Err(error)) => error == KeyError::Unreadable(why),
        },
{
    match contents {
        Ok(text) => save(text.as_str()),
        Err(why) => Err(KeyError::Unreadable(why)),
    }
}

/// How storing a key goes on, by whether the Keychain took it.
pub fn after_keychain(stored: bool) -> (r: SaveStep)
    ensures
        r == if stored {
            SaveStep::RemoveFile
        } else {
            SaveStep::WriteFile
        },
{
    if stored {
        SaveStep::RemoveFile
    } else {
        SaveStep::WriteFile
    }
}

// ---- Laws ----

/// What is stored is read back: the key that was accepted is the key that is found, in the
/// Keychain or in the private file.
pub proof fn law_a_stored_key_is_read_back(given: Seq<char>)
    requires
        key_in(given) is Some,
    ensures
        key_in(key_in(given)->0) == key_in(given),
        vstd::utf8::valid_utf8(vstd::utf8::encode_utf8(key_in(given)->0)),
        key_in(vstd::utf8::decode_utf8(vstd::utf8::encode_utf8(key_in(given)->0))) == key_in(
            given,
        ),
{
    text::lemma_trim_idempotent(given);
    vstd::utf8::encode_utf8_valid_utf8(key_in(given)->0);
    vstd::utf8::encode_utf8_decode_utf8(key_in(given)->0);
}

/// A key is what stands between the whitespace around it; it counts from 40 bytes on.
pub proof fn law_a_key_is_the_text_without_whitespace_around_it(
    a: Seq<char>,
    key: Seq<char>,
    b: Seq<char>,
)
    requires
        text::all_white(a),
        text::all_white(b),
        key.len() > 0 ==> !text::is_white(key[0]) && !text::is_white(key.last()),
    ensures
        key_in(a + key + b) == if vstd::utf8::encode_utf8(key).len() >= 40 {
            Some(key)
        } else {
            None
        },
{
    text::law_trimming_takes_the_whitespace_off_both_ends(a, key, b);
}

/// A file that cannot be read is reported with the reason.
pub proof fn law_an_unreadable_file_is_reported_with_the_reason(why: String)
    ensures
        KeyError::Unreadable(why).reads() == "could not read key file: "@ + why@,
{
}

} // verus!
