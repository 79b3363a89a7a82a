//! The command line.

use vstd::prelude::*;

use crate::inject::Permissions;
use crate::text;

verus! {

/// What the app is started for.
pub enum CliMode {
    /// Store the key on the clipboard.
    ImportFromPasteboard,
    /// Store the key in a file.
    ImportFromFile(String),
    /// `--import-key-from-file` without a path.
    ImportPathMissing,
    /// Report on key and permissions, to a file if one is given.
    CheckTo(Option<String>),
    /// Report on key and permissions.
    Check,
    /// Run the app.
    Run,
}

/// `i` is the first position of `flag` among `args`.
pub open spec fn first_at(args: Seq<String>, flag: Seq<char>, i: int) -> bool {
    &&& 0 <= i < args.len()
    &&& args[i]@ == flag
    &&& forall|j: int| 0 <= j < i ==> (#[trigger] args[j])@ != flag
}

/// `flag` is among `args`.
pub open spec fn given(args: Seq<String>, flag: Seq<char>) -> bool {
    exists|i: int| 0 <= i < args.len() && (#[trigger] args[i])@ == flag
}

/// The mode that `args` ask for; the first of the flags in this order decides.
pub open spec fn mode_is(args: Seq<String>, mode: CliMode) -> bool {
    if given(args, "--import-key-from-pasteboard"@) {
        mode is ImportFromPasteboard
    } else if given(args, "--import-key-from-file"@) {
        exists|i: int|
            first_at(args, "--import-key-from-file"@, i) && if i + 1 < args.len() {
                mode matches CliMode::ImportFromFile(path) && path@ == args[i + 1]@
            } else {
                mode is ImportPathMissing
            }
    } else if given(args, "--check-to"@) {
        exists|i: int|
            first_at(args, "--check-to"@, i) && if i + 1 < args.len() {
                mode matches CliMode::CheckTo(Some(path)) && path@ == args[i + 1]@
            } else {
                mode matches CliMode::CheckTo(None)
            }
    } else if given(args, "--check"@) {
        mode is Check
    } else {
        mode is Run
    }
}

/// The first position of `flag` among `args`.
fn position(args: &[String], flag: &str) -> (r: Option<usize>)
    ensures
        match r {
            Some(i) => first_at(args@, flag@, i as int),
            None => !given(args@, flag@),
        },
{
    let mut i: usize = 0;
    while i < args.len()
        invariant
            i <= args@.len(),
            forall|j: int| 0 <= j < i ==> (#[trigger] args@[j])@ != flag@,
        decreases args@.len() - i,
    {
        if text::same(args[i].as_str(), flag) {
            return Some(i);
        }
        i = i + 1;
    }
    None
}

/// What the app is started for with these arguments.
pub fn cli_mode(args: &[String]) -> (r: CliMode)
    ensures
        mode_is(args@, r),
{
    let n = args.len();
    if position(args, "--import-key-from-pasteboard").is_some() {
        return CliMode::ImportFromPasteboard;
    }
    if let Some(i) = position(args, "--import-key-from-file") {
        assert(given(args@, "--import-key-from-file"@)) by {
            assert(args@[i as int]@ == "--import-key-from-file"@);
        }
        if i < n - 1 {
            return CliMode::ImportFromFile(args[i + 1].clone());
        }
        return CliMode::ImportPathMissing;
    }
    if let Some(i) = position(args, "--check-to") {
        assert(given(args@, "--check-to"@)) by {
            assert(args@[i as int]@ == "--check-to"@);
        }
        if i < n - 1 {
            return CliMode::CheckTo(Some(args[i + 1].clone()));
        }
        return CliMode::CheckTo(None);
    }
    if position(args, "--check").is_some() {
        return CliMode::Check;
    }
    CliMode::Run
}

/// `true` or `false`.
pub open spec fn bool_text(b: bool) -> Seq<char> {
    if b {
        "true"@
    } else {
        "false"@
    }
}

fn bool_str(b: bool) -> (r: &'static str)
    ensures
        r@ == bool_text(b),
{
    if b {
        "true"
    } else {
        "false"
    }
}

/// The one-line report on key and permissions.
pub fn check_report(api_key: bool, permissions: &Permissions) -> (r: String)
    ensures
        r@ == "api_key="@ + bool_text(api_key) + " input_monitoring="@ + bool_text(
            permissions.input_monitoring,
        ) + " accessibility="@ + bool_text(permissions.accessibility),
{
    let mut out = "api_key=".to_owned();
    out.append(bool_str(api_key));
    out.append(" input_monitoring=");
    out.append(bool_str(permissions.input_monitoring));
    out.append(" accessibility=");
    out.append(bool_str(permissions.accessibility));
    out
}

/// The report on key and permissions for reading, a line each.
pub fn check_lines(api_key: bool, permissions: &Permissions) -> (r: String)
    ensures
        r@ == "api key in keychain : "@ + bool_text(api_key) + "\ninput monitoring    : "@
            + bool_text(permissions.input_monitoring) + "\naccessibility       : "@ + bool_text(
            permissions.accessibility,
        ),
{
    let mut out = "api key in keychain : ".to_owned();
    out.append(bool_str(api_key));
    out.append("\ninput monitoring    : ");
    out.append(bool_str(permissions.input_monitoring));
    out.append("\naccessibility       : ");
    out.append(bool_str(permissions.accessibility));
    out
}

/// The file that reports the outcome of an import from the file `path`.
pub fn result_path(path: &str) -> (r: String)
    ensures
        r@ == path@ + ".result"@,
{
    let mut out = path.to_owned();
    out.append(".result");
    out
}

/// What the outcome of an import reads.
pub fn import_report(outcome: Result<(), &str>) -> (r: String)
    ensures
        r@ == match outcome {
            Ok(_) => "ok"@,
            Err(error) => "error: "@ + error@,
        },
{
    match outcome {
        Ok(_) => "ok".to_owned(),
        Err(error) => {
            let mut out = "error: ".to_owned();
            out.append(error);
            out
        },
    }
}

// ---- Laws ----

/// The flags are looked for in a fixed order, wherever they stand: import from the clipboard,
/// import from a file, report to a file, report. A path is the argument behind the first of its
/// flag.
pub proof fn law_the_first_flag_in_order_decides(args: Seq<String>, mode: CliMode, i: int)
    requires
        mode_is(args, mode),
        0 <= i < args.len(),
    ensures
        ({
            let absent = |flag: Seq<char>|
                forall|j: int| 0 <= j < args.len() ==> (#[trigger] args[j])@ != flag;
            let first = |flag: Seq<char>|
                args[i]@ == flag && forall|j: int| 0 <= j < i ==> (#[trigger] args[j])@ != flag;
            let here = absent("--import-key-from-pasteboard"@);
            let no_import = here && absent("--import-key-from-file"@);
            let no_path = no_import && absent("--check-to"@);
            &&& args[i]@ == "--import-key-from-pasteboard"@ ==> mode is ImportFromPasteboard
            &&& (here && first("--import-key-from-file"@) && i + 1 < args.len()) ==> mode
                is ImportFromFile && mode->ImportFromFile_0@ == args[i + 1]@
            &&& (here && first("--import-key-from-file"@) && i + 1 == args.len()) ==> mode
                is ImportPathMissing
            &&& (no_import && first("--check-to"@) && i + 1 < args.len()) ==> mode is CheckTo
                && mode->CheckTo_0 is Some && mode->CheckTo_0->0@ == args[i + 1]@
            &&& (no_import && first("--check-to"@) && i + 1 == args.len()) ==> mode
                == CliMode::CheckTo(None)
            &&& (no_path && args[i]@ == "--check"@) ==> mode is Check
            &&& (no_path && absent("--check"@)) ==> mode is Run
        }),
{
    let path_flag = "--import-key-from-file"@;
    let check_flag = "--check-to"@;
    if given(args, path_flag) && first_at(args, path_flag, i) {
        assert forall|j: int| first_at(args, path_flag, j) implies j == i by {
            if j < i {
                assert(args[j]@ != path_flag);
            } else if i < j {
                assert(args[i]@ != path_flag);
            }
        }
    }
    if given(args, check_flag) && first_at(args, check_flag, i) {
        assert forall|j: int| first_at(args, check_flag, j) implies j == i by {
            if j < i {
                assert(args[j]@ != check_flag);
            } else if i < j {
                assert(args[i]@ != check_flag);
            }
        }
    }
}

/// Without arguments the app runs.
pub proof fn law_without_arguments_the_app_runs(mode: CliMode)
    requires
        mode_is(Seq::empty(), mode),
    ensures
        mode is Run,
{
}

} // verus!
