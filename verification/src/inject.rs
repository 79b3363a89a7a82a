//! The app that text goes to, and the keys that are posted to it.

use vstd::prelude::*;

use crate::text;
use crate::transcript::{self, is_terminal_app};

verus! {

pub const KEY_V: u16 = 9;

pub const KEY_RETURN: u16 = 36;

/// The app that was in front when dictation started.
#[derive(Debug)]
pub struct Target {
    pub pid: i32,
    pub name: String,
    pub bundle_id: String,
}

/// A [`Target`] by its contents.
pub struct App {
    pub pid: i32,
    pub name: Seq<char>,
    pub bundle_id: Seq<char>,
}

impl View for Target {
    type V = App;

    open spec fn view(&self) -> App {
        App { pid: self.pid, name: self.name@, bundle_id: self.bundle_id@ }
    }
}

impl Clone for Target {
    fn clone(&self) -> (r: Self)
        ensures
            r == *self,
    {
        Target { pid: self.pid, name: self.name.clone(), bundle_id: self.bundle_id.clone() }
    }
}

impl Target {
    /// Whether the app is a terminal.
    pub fn is_terminal(&self) -> (r: bool)
        ensures
            r == transcript::terminal_app(self.name@, self.bundle_id@),
    {
        is_terminal_app(self.name.as_str(), self.bundle_id.as_str())
    }
}

/// The characters of an optional text, none where there is none.
pub open spec fn or_empty(s: Option<String>) -> Seq<char> {
    match s {
        Some(t) => t@,
        None => Seq::empty(),
    }
}

/// An app by what the system says of it: one without a name is called "Current app".
pub open spec fn app_of(pid: i32, name: Seq<char>, bundle_id: Seq<char>) -> App {
    App {
        pid,
        name: if name.len() == 0 {
            "Current app"@
        } else {
            name
        },
        bundle_id,
    }
}

/// The app in front, by its process, name and bundle id; each text is `None` where the system
/// has none.
pub fn frontmost_app(pid: i32, name: Option<String>, bundle_id: Option<String>) -> (r: Target)
    ensures
        r@ == app_of(pid, or_empty(name), or_empty(bundle_id)),
{
    let known = match name {
        Some(name) => name,
        None => String::new(),
    };
    let name = if known.as_str().is_empty() {
        "Current app".to_owned()
    } else {
        known
    };
    let bundle_id = match bundle_id {
        Some(bundle_id) => bundle_id,
        None => String::new(),
    };
    Target { pid, name, bundle_id }
}

/// Whether an app can be brought to the front, by whether it still exists and has terminated.
pub fn activate(running: bool, terminated: bool) -> (r: bool)
    ensures
        r == (running && !terminated),
{
    running && !terminated
}

/// Whether keyboard focus is on a password field, by the accessibility subrole of the focused
/// element; `None` where any step of looking it up fails or it is not a text.
pub fn focused_element_is_secure(subrole: Option<&str>) -> (r: bool)
    ensures
        r == match subrole {
            Some(s) => s@ == "AXSecureTextField"@,
            None => false,
        },
{
    match subrole {
        Some(s) => text::same(s, "AXSecureTextField"),
        None => false,
    }
}

/// One keyboard event.
#[derive(Clone, Copy, PartialEq, Eq, Structural, Debug)]
pub struct KeyEvent {
    pub keycode: u16,
    pub down: bool,
    pub command: bool,
}

/// The events of one key press, with or without the Command key: the key goes down and up.
pub fn post_key(keycode: u16, command: bool) -> (r: Vec<KeyEvent>)
    ensures
        r@ == seq![
            (KeyEvent { keycode, down: true, command }),
            (KeyEvent { keycode, down: false, command }),
        ],
{
    let mut events: Vec<KeyEvent> = Vec::new();
    events.push(KeyEvent { keycode, down: true, command });
    events.push(KeyEvent { keycode, down: false, command });
    assert(events@ =~= seq![
        (KeyEvent { keycode, down: true, command }),
        (KeyEvent { keycode, down: false, command }),
    ]);
    events
}

/// The permissions the app has.
pub struct Permissions {
    pub input_monitoring: bool,
    pub accessibility: bool,
}

/// A permission to ask the user for.
#[derive(Clone, Copy, PartialEq, Eq, Structural, Debug)]
pub enum PermissionRequest {
    InputMonitoring,
    PostEvents,
    Accessibility,
}

/// Whether to ask the user for a permission, by whether it is granted. The Accessibility prompt
/// is always asked for and shows itself only where it is needed.
pub fn request_permissions(permission: PermissionRequest, granted: bool) -> (r: bool)
    ensures
        r == (permission == PermissionRequest::Accessibility || !granted),
{
    match permission {
        PermissionRequest::Accessibility => true,
        _ => !granted,
    }
}

// ---- Laws ----

/// An app is known by what the system says of it; only one without a name gets one.
pub proof fn law_an_app_is_what_the_system_says(pid: i32, name: String, bundle_id: String)
    ensures
        app_of(pid, or_empty(Some(name)), or_empty(Some(bundle_id))).pid == pid,
        app_of(pid, or_empty(Some(name)), or_empty(Some(bundle_id))).bundle_id == bundle_id@,
        name@.len() > 0 ==> app_of(pid, or_empty(Some(name)), or_empty(None)).name == name@,
        app_of(pid, or_empty(None), or_empty(None)).name == "Current app"@,
        name@.len() == 0 ==> app_of(pid, or_empty(Some(name)), or_empty(None)).name
            == "Current app"@,
        app_of(pid, or_empty(None), or_empty(None)).bundle_id.len() == 0,
{
}

} // verus!
