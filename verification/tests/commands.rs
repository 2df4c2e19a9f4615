use icobgone::commands::{
    choose_command, classify_target, Command, CommandError, TargetKind, SEND_TO_SHORTCUT_DESCRIPTION,
    SEND_TO_SHORTCUT_NAME,
};

#[test]
fn register_takes_precedence() {
    assert_eq!(choose_command(Some("a.png".to_string()), true, true), Ok(Command::Register));
    assert_eq!(choose_command(None, true, false), Ok(Command::Register));
}

#[test]
fn unregister_comes_next() {
    assert_eq!(choose_command(Some("a.png".to_string()), false, true), Ok(Command::Unregister));
}

#[test]
fn icon_path_is_required_otherwise() {
    assert_eq!(
        choose_command(Some("a.png".to_string()), false, false),
        Ok(Command::SetIcon("a.png".to_string()))
    );
    assert_eq!(choose_command(None, false, false), Err(CommandError::MissingIcon));
    assert_eq!(
        CommandError::MissingIcon.message(),
        "Icon path not provided. Use --icon <FILE> or drag and drop an image on the app,alternatively,use the Send To menu."
    );
}

#[test]
fn targets_are_classified_by_extension_ignoring_ascii_case() {
    assert_eq!(classify_target(Some("lnk")), TargetKind::Shortcut);
    assert_eq!(classify_target(Some("LNK")), TargetKind::Shortcut);
    assert_eq!(classify_target(Some("Exe")), TargetKind::Executable);
    assert_eq!(classify_target(Some("url")), TargetKind::Unsupported);
    assert_eq!(classify_target(Some("lnkx")), TargetKind::Unsupported);
    assert_eq!(classify_target(Some("")), TargetKind::Unsupported);
    assert_eq!(classify_target(None), TargetKind::Unsupported);
}

#[test]
fn send_to_shortcut_names() {
    assert_eq!(SEND_TO_SHORTCUT_NAME, "ICObGONE - Use Image as Icon.lnk");
    assert_eq!(SEND_TO_SHORTCUT_DESCRIPTION, "Use an image file to change a shortcut's icon.");
}
