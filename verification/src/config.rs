//! Settings and the places where the app keeps its files.
//!
//! Paths are byte strings, as the operating system has them.

use vstd::prelude::*;

verus! {

/// The user's settings.
pub struct Settings {
    pub language: String,
    pub auto_submit: bool,
    pub allow_terminal_submit: bool,
}

/// [`Settings`] by their contents.
#[verifier::ext_equal]
pub struct Preferences {
    pub language: Seq<char>,
    pub auto_submit: bool,
    pub allow_terminal_submit: bool,
}

impl View for Settings {
    type V = Preferences;

    open spec fn view(&self) -> Preferences {
        Preferences {
            language: self.language@,
            auto_submit: self.auto_submit,
            allow_terminal_submit: self.allow_terminal_submit,
        }
    }
}

impl Settings {
    /// English, paste only, no Return in terminals.
    pub open spec fn is_default(&self) -> bool {
        &&& self.language@ == "en"@
        &&& !self.auto_submit
        &&& !self.allow_terminal_submit
    }

    /// The settings for what the settings file holds; `None` where it cannot be read or does
    /// not hold settings.
    pub fn load(stored: Option<Settings>) -> (r: Self)
        ensures
            match stored {
                Some(settings) => r == settings,
                None => r.is_default(),
            },
    {
        match stored {
            Some(settings) => settings,
            None => Settings::default(),
        }
    }
}

impl Default for Settings {
    fn default() -> (r: Self)
        ensures
            r.is_default(),
    {
        Settings {
            language: "en".to_owned(),
            auto_submit: false,
            allow_terminal_submit: false,
        }
    }
}

// ---- Paths ----

/// `name` inside the directory `dir`.
pub open spec fn joined(dir: Seq<u8>, name: Seq<u8>) -> Seq<u8> {
    if dir.len() == 0 || dir.last() == 47 {
        dir + name
    } else {
        dir.push(47) + name
    }
}

/// The bytes of a text.
pub open spec fn utf8(s: Seq<char>) -> Seq<u8> {
    vstd::utf8::encode_utf8(s)
}

/// `base`, or `/tmp` where there is none.
pub open spec fn base_or_tmp(base: Option<Seq<u8>>) -> Seq<u8> {
    match base {
        Some(dir) => dir,
        None => utf8("/tmp"@),
    }
}

/// The app's directory inside the user's configuration directory.
pub open spec fn config_dir_of(base: Option<Seq<u8>>) -> Seq<u8> {
    joined(base_or_tmp(base), utf8("FnType"@))
}

/// The log directory inside the user's home directory.
pub open spec fn log_dir_of(home: Option<Seq<u8>>) -> Seq<u8> {
    joined(base_or_tmp(home), utf8("Library/Logs/FnType"@))
}

/// The bytes of an optional path.
pub open spec fn path_view(path: Option<Vec<u8>>) -> Option<Seq<u8>> {
    match path {
        Some(bytes) => Some(bytes@),
        None => None,
    }
}

/// Trusted: calls `dirs::config_dir`. The result depends on the environment of the process, so
/// nothing is claimed of it.
#[verifier::external_body]
fn platform_config_dir() -> (r: Option<Vec<u8>>) {
    dirs::config_dir().map(|dir| dir.into_os_string().into_encoded_bytes())
}

/// Trusted: calls `dirs::home_dir`. The result depends on the environment of the process, so
/// nothing is claimed of it.
#[verifier::external_body]
fn platform_home_dir() -> (r: Option<Vec<u8>>) {
    dirs::home_dir().map(|dir| dir.into_os_string().into_encoded_bytes())
}

/// `name` inside the directory `dir`.
pub fn join(dir: Vec<u8>, name: &str) -> (r: Vec<u8>)
    ensures
        r@ == joined(dir@, utf8(name@)),
{
    let mut path = dir;
    if path.len() > 0 && path[path.len() - 1] != 47 {
        path.push(47);
    }
    let ghost before = path@;
    path.extend_from_slice(name.as_bytes());
    assert(path@ =~= before + utf8(name@));
    path
}

/// `base`, or `/tmp` where there is none.
fn base_or(base: Option<Vec<u8>>) -> (r: Vec<u8>)
    ensures
        r@ == base_or_tmp(path_view(base)),
{
    match base {
        Some(dir) => dir,
        None => vstd::slice::slice_to_vec("/tmp".as_bytes()),
    }
}

/// The app's directory inside the configuration directory `base`.
pub fn config_dir_in(base: Option<Vec<u8>>) -> (r: Vec<u8>)
    ensures
        r@ == config_dir_of(path_view(base)),
{
    join(base_or(base), "FnType")
}

/// The log directory inside the home directory `home`.
pub fn log_dir_in(home: Option<Vec<u8>>) -> (r: Vec<u8>)
    ensures
        r@ == log_dir_of(path_view(home)),
{
    join(base_or(home), "Library/Logs/FnType")
}

/// The app's own directory.
pub fn config_dir() -> (r: Vec<u8>)
    ensures
        exists|base: Option<Seq<u8>>| r@ == #[trigger] config_dir_of(base),
{
    let base = platform_config_dir();
    let ghost b = path_view(base);
    let dir = config_dir_in(base);
    assert(dir@ == config_dir_of(b));
    dir
}

/// The settings file.
pub fn settings_path() -> (r: Vec<u8>)
    ensures
        exists|base: Option<Seq<u8>>|
            r@ == joined(#[trigger] config_dir_of(base), utf8("config.json"@)),
{
    join(config_dir(), "config.json")
}

/// The dictionary file.
pub fn dictionary_path() -> (r: Vec<u8>)
    ensures
        exists|base: Option<Seq<u8>>|
            r@ == joined(#[trigger] config_dir_of(base), utf8("dictionary.txt"@)),
{
    join(config_dir(), "dictionary.txt")
}

/// The directory for log files.
pub fn log_dir() -> (r: Vec<u8>)
    ensures
        exists|home: Option<Seq<u8>>| r@ == #[trigger] log_dir_of(home),
{
    let home = platform_home_dir();
    let ghost h = path_view(home);
    let dir = log_dir_in(home);
    assert(dir@ == log_dir_of(h));
    dir
}

/// The file that is locked while the app runs.
pub fn lock_path() -> (r: Vec<u8>)
    ensures
        exists|base: Option<Seq<u8>>|
            r@ == joined(#[trigger] config_dir_of(base), utf8("fntype.lock"@)),
{
    join(config_dir(), "fntype.lock")
}

// ---- Laws ----

/// A name stands behind its directory and exactly one slash, whether or not the directory ends
/// with one.
pub proof fn law_one_slash_stands_between_directory_and_name(dir: Seq<u8>, name: Seq<u8>)
    requires
        dir.len() > 0,
    ensures
        dir.last() != 47 ==> joined(dir, name) == dir + seq![47u8] + name,
        dir.last() == 47 ==> joined(dir, name) == dir + name,
        joined(Seq::empty(), name) == name,
{
    assert(dir.push(47) + name =~= dir + seq![47u8] + name);
    assert(Seq::<u8>::empty() + name =~= name);
}

/// The app's files are below the directory that the system gives, and below `/tmp` where it
/// gives none.
pub proof fn law_files_are_below_the_given_directory(dir: Seq<u8>)
    ensures
        config_dir_of(Some(dir)) == joined(dir, vstd::utf8::encode_utf8("FnType"@)),
        log_dir_of(Some(dir)) == joined(dir, vstd::utf8::encode_utf8("Library/Logs/FnType"@)),
        config_dir_of(None) == config_dir_of(Some(vstd::utf8::encode_utf8("/tmp"@))),
        log_dir_of(None) == log_dir_of(Some(vstd::utf8::encode_utf8("/tmp"@))),
{
}

} // verus!
