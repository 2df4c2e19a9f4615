use icobgone::shortcut::{
    custom_icon_file_name, desktop_ini_attributes, desktop_ini_content, folder_icon_attributes,
    shortcut_target_from_wide, FolderIconError, DESKTOP_INI_NAME, FILE_ATTRIBUTE_HIDDEN,
    FILE_ATTRIBUTE_READONLY, FILE_ATTRIBUTE_SYSTEM,
};
use icobgone::text::to_wide_null;

#[test]
fn desktop_ini_content_keeps_the_literal_escapes() {
    let content = desktop_ini_content("folder\\custom.ico");
    assert_eq!(content, "[.ShellClassInfo]\\r\\nIconFile=folder\\custom.ico\\r\\nIconIndex=0\\r\\n");
    assert_eq!(content, format!(r"[.ShellClassInfo]\r\nIconFile={}\r\nIconIndex=0\r\n", "folder\\custom.ico"));
    assert_eq!(DESKTOP_INI_NAME, "desktop.ini");
}

#[test]
fn folder_attributes_gain_readonly_and_system() {
    assert_eq!(FILE_ATTRIBUTE_READONLY, 0x1);
    assert_eq!(FILE_ATTRIBUTE_HIDDEN, 0x2);
    assert_eq!(FILE_ATTRIBUTE_SYSTEM, 0x4);
    assert_eq!(folder_icon_attributes(0x10), Ok(0x15));
    assert_eq!(folder_icon_attributes(0x15), Ok(0x15));
    assert_eq!(folder_icon_attributes(0), Err(FolderIconError::FolderAttributes));
}

#[test]
fn desktop_ini_attributes_gain_hidden_and_system() {
    assert_eq!(desktop_ini_attributes(0x20), Ok(0x26));
    assert_eq!(desktop_ini_attributes(0x80), Ok(0x86));
    assert_eq!(desktop_ini_attributes(0), Err(FolderIconError::DesktopIniAttributes));
}

#[test]
fn error_messages() {
    assert_eq!(FolderIconError::FolderAttributes.message(), "Failed to get folder attributes");
    assert_eq!(FolderIconError::DesktopIniAttributes.message(), "Failed to get desktop.ini attributes");
}

#[test]
fn target_from_padded_buffer() {
    let mut buf = [0u16; 260];
    let path: Vec<u16> = "C:\\Games\\Spiel ü 😀.exe".encode_utf16().collect();
    buf[..path.len()].copy_from_slice(&path);
    assert_eq!(shortcut_target_from_wide(&buf), "C:\\Games\\Spiel ü 😀.exe");
}

#[test]
fn target_from_wide_null_is_the_text() {
    for s in ["", "a", "C:\\x\\y.lnk", "ü😀"] {
        assert_eq!(shortcut_target_from_wide(&to_wide_null(s)), s);
    }
}

#[test]
fn target_with_unpaired_surrogate_is_replaced() {
    let buf = [0x41u16, 0xD800, 0x42, 0, 0];
    assert_eq!(shortcut_target_from_wide(&buf), "A\u{FFFD}B");
}

#[test]
fn custom_icon_name() {
    assert_eq!(custom_icon_file_name("Portal 2"), "Portal 2_custom.ico");
    assert_eq!(custom_icon_file_name(""), "_custom.ico");
}

#[test]
fn target_of_an_empty_buffer_is_empty() {
    assert_eq!(shortcut_target_from_wide(&[0u16; 260]), "");
    assert_eq!(shortcut_target_from_wide(&[]), "");
}

#[test]
fn lossy_decoding_matches_std() {
    let samples: [&[u16]; 6] = [
        &[0xD83D, 0xDE00, 0x41],
        &[0xDC00, 0xD800],
        &[0xD800, 0xD800, 0xDC00],
        &[0xDBFF, 0xDFFF, 0xE000, 0xFFFF],
        &[0x0041, 0x0000, 0x0042, 0x0000],
        &[0xD800],
    ];
    for s in samples {
        let expected = String::from_utf16_lossy(s);
        assert_eq!(icobgone::text::utf16_lossy_to_string(s), expected);
        assert_eq!(shortcut_target_from_wide(s), expected.trim_end_matches('\0'));
    }
}
