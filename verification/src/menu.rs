//! The menu-bar menu.

use vstd::prelude::*;

use crate::events::UiEvent;
use crate::text;

verus! {

/// What a click in the menu leads to.
pub enum MenuAction {
    /// An event for the coordinator.
    Send(UiEvent),
    /// Open the dictionary file in an editor; it is written first if there is none.
    EditDictionary,
    RequestPermissions,
    Quit,
    Ignore,
}

/// What a click on the item `id` leads to. The two check marks are as the click left them.
pub open spec fn action_for(id: Seq<char>, auto_submit: bool, terminal_submit: bool) -> MenuAction {
    if id == "reconnect"@ {
        MenuAction::Send(UiEvent::MenuReconnect)
    } else if id == "import"@ {
        MenuAction::Send(UiEvent::MenuImportKey)
    } else if id == "dict"@ {
        MenuAction::EditDictionary
    } else if id == "auto_submit"@ {
        MenuAction::Send(UiEvent::MenuAutoSubmit(auto_submit))
    } else if id == "terminal_submit"@ {
        MenuAction::Send(UiEvent::MenuTerminalSubmit(terminal_submit))
    } else if id == "perms"@ {
        MenuAction::RequestPermissions
    } else if id == "quit"@ {
        MenuAction::Quit
    } else {
        MenuAction::Ignore
    }
}

/// What a click on the item `id` leads to. The two check marks are as the click left them.
pub fn menu_action(id: &str, auto_submit: bool, terminal_submit: bool) -> (r: MenuAction)
    ensures
        r == action_for(id@, auto_submit, terminal_submit),
{
    if text::same(id, "reconnect") {
        MenuAction::Send(UiEvent::MenuReconnect)
    } else if text::same(id, "import") {
        MenuAction::Send(UiEvent::MenuImportKey)
    } else if text::same(id, "dict") {
        MenuAction::EditDictionary
    } else if text::same(id, "auto_submit") {
        MenuAction::Send(UiEvent::MenuAutoSubmit(auto_submit))
    } else if text::same(id, "terminal_submit") {
        MenuAction::Send(UiEvent::MenuTerminalSubmit(terminal_submit))
    } else if text::same(id, "perms") {
        MenuAction::RequestPermissions
    } else if text::same(id, "quit") {
        MenuAction::Quit
    } else {
        MenuAction::Ignore
    }
}

// ---- Laws ----

/// Each item of the menu leads to its own action, the two check marks with the state that the
/// click left them in, and no other item leads to anything.
pub proof fn law_each_item_leads_to_its_action(id: Seq<char>, auto: bool, terminal: bool)
    ensures
        id == "reconnect"@ ==> action_for(id, auto, terminal) == MenuAction::Send(
            UiEvent::MenuReconnect,
        ),
        id == "import"@ ==> action_for(id, auto, terminal) == MenuAction::Send(
            UiEvent::MenuImportKey,
        ),
        id == "dict"@ ==> action_for(id, auto, terminal) is EditDictionary,
        id == "auto_submit"@ ==> action_for(id, auto, terminal) == MenuAction::Send(
            UiEvent::MenuAutoSubmit(auto),
        ),
        id == "terminal_submit"@ ==> action_for(id, auto, terminal) == MenuAction::Send(
            UiEvent::MenuTerminalSubmit(terminal),
        ),
        id == "perms"@ ==> action_for(id, auto, terminal) is RequestPermissions,
        action_for(id, auto, terminal) is Quit <==> id == "quit"@,
        action_for(id, auto, terminal) is Ignore <==> !(id == "reconnect"@ || id == "import"@
            || id == "dict"@ || id == "auto_submit"@ || id == "terminal_submit"@ || id == "perms"@
            || id == "quit"@),
{
    reveal_strlit("reconnect");
    reveal_strlit("import");
    reveal_strlit("dict");
    reveal_strlit("auto_submit");
    reveal_strlit("terminal_submit");
    reveal_strlit("perms");
    reveal_strlit("quit");
    assert("reconnect"@.len() == 9 && "import"@.len() == 6 && "perms"@.len() == 5);
    assert("auto_submit"@.len() == 11 && "terminal_submit"@.len() == 15);
    assert("dict"@.len() == 4 && "quit"@.len() == 4);
    assert("dict"@[0] == 'd' && "quit"@[0] == 'q');
}

} // verus!
