use vstd::prelude::*;
use vstd::string::*;
use crate::text::{eq_ignore_ascii_case, eq_ignore_ascii_case_spec};

verus! {

/// The name of the shortcut that puts the program in the "Send To" menu.
pub const SEND_TO_SHORTCUT_NAME: &'static str = "ICObGONE - Use Image as Icon.lnk";

/// The description given to the "Send To" shortcut.
pub const SEND_TO_SHORTCUT_DESCRIPTION: &'static str =
    "Use an image file to change a shortcut's icon.";

/// What a run of the program does, from its command line.
#[derive(Debug, PartialEq, Eq)]
pub enum Command {
    /// Put the program in the "Send To" menu.
    Register,
    /// Take the program out of the "Send To" menu.
    Unregister,
    /// Use the image at this path as the icon of a file the user picks.
    SetIcon(String),
}

/// Why the command line names nothing to do.
#[derive(Debug, PartialEq, Eq, Structural)]
pub enum CommandError {
    /// Neither a flag nor an icon path was given.
    MissingIcon,
}

impl CommandError {
    /// The message that reports this error.
    pub fn message(&self) -> (r: String)
        ensures
            r@ == "Icon path not provided. Use --icon <FILE> or drag and drop an image on the app,alternatively,use the Send To menu."@,
    {
        String::from_str(
            "Icon path not provided. Use --icon <FILE> or drag and drop an image on the app,alternatively,use the Send To menu.",
        )
    }
}

/// The command that the arguments ask for: `--register` first, then
/// `--unregister`, then the icon path, which is then required.
pub fn choose_command(icon: Option<String>, register: bool, unregister: bool) -> (r: Result<
    Command,
    CommandError,
>)
    ensures
        register ==> r matches Ok(Command::Register),
        !register && unregister ==> r matches Ok(Command::Unregister),
        !register && !unregister ==> match icon {
            Some(path) => r matches Ok(Command::SetIcon(p)) && p@ == path@,
            None => r matches Err(CommandError::MissingIcon),
        },
{
    if register {
        Ok(Command::Register)
    } else if unregister {
        Ok(Command::Unregister)
    } else {
        match icon {
            Some(path) => Ok(Command::SetIcon(path)),
            None => Err(CommandError::MissingIcon),
        }
    }
}

/// The kind of file the user picked to change the icon of.
#[derive(Debug, PartialEq, Eq, Structural)]
pub enum TargetKind {
    /// A `.lnk` shortcut.
    Shortcut,
    /// A `.exe` program.
    Executable,
    /// Anything else.
    Unsupported,
}

/// The kind of file with the extension `extension`, compared without ASCII case.
pub open spec fn target_kind_spec(extension: Option<Seq<char>>) -> TargetKind {
    match extension {
        Some(e) => if eq_ignore_ascii_case_spec(e, "lnk"@) {
            TargetKind::Shortcut
        } else if eq_ignore_ascii_case_spec(e, "exe"@) {
            TargetKind::Executable
        } else {
            TargetKind::Unsupported
        },
        None => TargetKind::Unsupported,
    }
}

/// The kind of the picked file, by its extension.
pub fn classify_target(extension: Option<&str>) -> (r: TargetKind)
    ensures
        r == target_kind_spec(
            match extension {
                Some(e) => Some(e@),
                None => None,
            },
        ),
{
    match extension {
        Some(e) => if eq_ignore_ascii_case(e, "lnk") {
            TargetKind::Shortcut
        } else if eq_ignore_ascii_case(e, "exe") {
            TargetKind::Executable
        } else {
            TargetKind::Unsupported
        },
        None => TargetKind::Unsupported,
    }
}


/// Extensions that differ only in the case of ASCII letters name the same kind of
/// file.
pub proof fn lemma_target_kind_ignores_case(a: Seq<char>, b: Seq<char>)
    requires
        eq_ignore_ascii_case_spec(a, b),
    ensures
        target_kind_spec(Some(a)) == target_kind_spec(Some(b)),
{
    assert(eq_ignore_ascii_case_spec(a, "lnk"@) == eq_ignore_ascii_case_spec(b, "lnk"@));
    assert(eq_ignore_ascii_case_spec(a, "exe"@) == eq_ignore_ascii_case_spec(b, "exe"@));
}

} // verus!
