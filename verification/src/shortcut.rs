use vstd::prelude::*;
use vstd::string::*;
use crate::text::{
    lemma_trim_end_nul_len, lemma_trim_end_nul_padding, lemma_utf16_decode_len,
    lemma_utf16_encode_nuls, nul_chars, zero_units, lemma_utf16_round_trip, trim_end_nul_spec,
    trim_end_nuls, utf16_decode_lossy, utf16_encode, utf16_lossy_to_string,
};

verus! {

/// The Win32 `FILE_ATTRIBUTE_READONLY` flag.
pub const FILE_ATTRIBUTE_READONLY: u32 = 0x1;

/// The Win32 `FILE_ATTRIBUTE_HIDDEN` flag.
pub const FILE_ATTRIBUTE_HIDDEN: u32 = 0x2;

/// The Win32 `FILE_ATTRIBUTE_SYSTEM` flag.
pub const FILE_ATTRIBUTE_SYSTEM: u32 = 0x4;

/// The name of the settings file that gives a folder its icon.
pub const DESKTOP_INI_NAME: &'static str = "desktop.ini";

/// Why a folder could not be given an icon.
#[derive(Debug, PartialEq, Eq, Structural)]
pub enum FolderIconError {
    /// The folder's attributes could not be read.
    FolderAttributes,
    /// The attributes of the folder's `desktop.ini` could not be read.
    DesktopIniAttributes,
}

impl FolderIconError {
    /// The message that reports this error.
    pub fn message(&self) -> (r: String)
        ensures
            r@ == match self {
                FolderIconError::FolderAttributes => "Failed to get folder attributes"@,
                FolderIconError::DesktopIniAttributes => "Failed to get desktop.ini attributes"@,
            },
    {
        match self {
            FolderIconError::FolderAttributes => String::from_str("Failed to get folder attributes"),
            FolderIconError::DesktopIniAttributes => String::from_str(
                "Failed to get desktop.ini attributes",
            ),
        }
    }
}

/// The content of the `desktop.ini` that sets a folder's icon to `icon_file`.
/// The line breaks are written as the four characters `\r\n`, as a raw string
/// literal writes them.
pub open spec fn desktop_ini_content_spec(icon_file: Seq<char>) -> Seq<char> {
    r"[.ShellClassInfo]\r\nIconFile="@ + icon_file + r"\r\nIconIndex=0\r\n"@
}

/// The `desktop.ini` content holds the whole icon path, whatever characters it
/// holds, between the `IconFile=` line start and the line end that follows it.
pub proof fn lemma_desktop_ini_holds_whole_icon_path(icon_file: Seq<char>)
    ensures
        ({
            let c = desktop_ini_content_spec(icon_file);
            let head = r"[.ShellClassInfo]\r\nIconFile="@;
            let tail = r"\r\nIconIndex=0\r\n"@;
            &&& c.len() == head.len() + icon_file.len() + tail.len()
            &&& c.take(head.len() as int) == head
            &&& c.subrange(head.len() as int, head.len() as int + icon_file.len()) == icon_file
            &&& c.skip(head.len() as int + icon_file.len()) == tail
        }),
{
    let c = desktop_ini_content_spec(icon_file);
    let head = r"[.ShellClassInfo]\r\nIconFile="@;
    let tail = r"\r\nIconIndex=0\r\n"@;
    assert(c.take(head.len() as int) =~= head);
    assert(c.subrange(head.len() as int, head.len() as int + icon_file.len()) =~= icon_file);
    assert(c.skip(head.len() as int + icon_file.len()) =~= tail);
}

/// Different icon paths give different `desktop.ini` contents.
pub proof fn lemma_desktop_ini_content_injective(a: Seq<char>, b: Seq<char>)
    requires
        desktop_ini_content_spec(a) == desktop_ini_content_spec(b),
    ensures
        a == b,
{
    lemma_desktop_ini_holds_whole_icon_path(a);
    lemma_desktop_ini_holds_whole_icon_path(b);
    let head = r"[.ShellClassInfo]\r\nIconFile="@;
    assert(a.len() == b.len());
    assert(a == desktop_ini_content_spec(a).subrange(head.len() as int, head.len() as int + a.len()));
}

/// The content of the `desktop.ini` that sets a folder's icon to `icon_file`.
pub fn desktop_ini_content(icon_file: &str) -> (r: String)
    ensures
        r@ == desktop_ini_content_spec(icon_file@),
{
    let mut content = String::from_str(r"[.ShellClassInfo]\r\nIconFile=");
    content.append(icon_file);
    content.append(r"\r\nIconIndex=0\r\n");
    content
}

/// The attributes that a folder with the attributes `current` gets when it is given
/// a custom icon: read-only and system added. Zero attributes count as a failure to
/// read them.
pub fn folder_icon_attributes(current: u32) -> (r: Result<u32, FolderIconError>)
    ensures
        current == 0 ==> r == Err::<u32, FolderIconError>(FolderIconError::FolderAttributes),
        current != 0 ==> r == Ok::<u32, FolderIconError>(
            current | FILE_ATTRIBUTE_READONLY | FILE_ATTRIBUTE_SYSTEM,
        ),
{
    if current == 0 {
        Err(FolderIconError::FolderAttributes)
    } else {
        Ok(current | FILE_ATTRIBUTE_READONLY | FILE_ATTRIBUTE_SYSTEM)
    }
}

/// The attributes that the `desktop.ini` with the attributes `current` gets: hidden
/// and system added. Zero attributes count as a failure to read them.
pub fn desktop_ini_attributes(current: u32) -> (r: Result<u32, FolderIconError>)
    ensures
        current == 0 ==> r == Err::<u32, FolderIconError>(
            FolderIconError::DesktopIniAttributes,
        ),
        current != 0 ==> r == Ok::<u32, FolderIconError>(
            current | FILE_ATTRIBUTE_HIDDEN | FILE_ATTRIBUTE_SYSTEM,
        ),
{
    if current == 0 {
        Err(FolderIconError::DesktopIniAttributes)
    } else {
        Ok(current | FILE_ATTRIBUTE_HIDDEN | FILE_ATTRIBUTE_SYSTEM)
    }
}

/// The path that a shortcut's fixed-size, zero-padded UTF-16 path buffer holds:
/// the buffer decoded (each unpaired surrogate replaced by U+FFFD), with the
/// trailing NUL characters removed. It has at most as many characters as the
/// buffer has units; where the buffer is the UTF-16 of a text, it is that text
/// without its trailing NULs; and where the buffer is a text not ending in NUL
/// followed by zero units, it is that text.
pub fn shortcut_target_from_wide(buf: &[u16]) -> (r: String)
    ensures
        r@ == trim_end_nul_spec(utf16_decode_lossy(buf@)),
        r@.len() <= buf@.len(),
        forall|t: Seq<char>| buf@ == utf16_encode(t) ==> r@ == trim_end_nul_spec(t),
        forall|t: Seq<char>, k: nat|
            (t.len() == 0 || t.last() != '\0') && buf@ == utf16_encode(t) + zero_units(k) ==> r@
                == t,
{
    let decoded = utf16_lossy_to_string(buf);
    let r = trim_end_nuls(decoded.as_str());
    proof {
        lemma_utf16_decode_len(buf@);
        lemma_trim_end_nul_len(utf16_decode_lossy(buf@));
        assert forall|t: Seq<char>| buf@ == utf16_encode(t) implies r@ == trim_end_nul_spec(t) by {
            lemma_utf16_round_trip(t);
        }
        assert forall|t: Seq<char>, k: nat|
            (t.len() == 0 || t.last() != '\0') && buf@ == utf16_encode(t) + zero_units(k) implies r@
                == t by {
            lemma_utf16_encode_nuls(t, k);
            lemma_utf16_round_trip(t + nul_chars(k));
            lemma_trim_end_nul_padding(t, k);
        }
    }
    r
}

/// The file name of the icon made for the shortcut target named `stem`.
pub fn custom_icon_file_name(stem: &str) -> (r: String)
    ensures
        r@ == stem@ + "_custom.ico"@,
{
    let mut name = String::from_str(stem);
    name.append("_custom.ico");
    name
}

} // verus!
