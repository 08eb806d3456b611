use git_repos::config::{update_flag, ScanTarget, Settings};

#[test]
fn default_settings_are_empty() {
    let settings = Settings::default();
    assert_eq!(settings.root_path, None);
    assert!(!settings.update_by_default);
}

#[test]
fn set_root_path_strips_the_windows_prefix() {
    let mut settings = Settings::default();
    settings.set_update(true);
    settings.set_root_path(r"\\?\C:\work");
    assert_eq!(settings.root_path, Some(r"C:\work".to_string()));
    assert!(settings.update_by_default);
    settings.set_root_path("/home/u/work");
    assert_eq!(settings.root_path, Some("/home/u/work".to_string()));
}

#[test]
fn set_update_keeps_the_root() {
    let mut settings = Settings { root_path: Some("/r".to_string()), update_by_default: false };
    settings.set_update(true);
    assert_eq!(settings, Settings { root_path: Some("/r".to_string()), update_by_default: true });
    settings.set_update(false);
    assert!(!settings.update_by_default);
}

#[test]
fn update_flag_is_true_or_false_in_any_case() {
    assert_eq!(Settings::parse_update("true"), Some(true));
    assert_eq!(Settings::parse_update("TRUE"), Some(true));
    assert_eq!(Settings::parse_update("False"), Some(false));
    assert_eq!(Settings::parse_update("yes"), None);
    assert_eq!(Settings::parse_update(""), None);
    assert_eq!(Settings::parse_update(" true"), None);
    assert_eq!(Settings::parse_update("1"), None);
}

#[test]
fn flag_of_a_lowercase_text() {
    assert_eq!(update_flag("true"), Some(true));
    assert_eq!(update_flag("false"), Some(false));
    assert_eq!(update_flag("True"), None);
    assert_eq!(update_flag("truee"), None);
    assert_eq!(update_flag("fals"), None);
    assert_eq!(update_flag(""), None);
}

#[test]
fn scan_starts_at_the_argument_then_the_root_then_here() {
    let with_root = Settings { root_path: Some("/r".to_string()), update_by_default: false };
    assert_eq!(
        with_root.scan_target(Some("sub".to_string())),
        ScanTarget::Canonical("sub".to_string())
    );
    assert_eq!(with_root.scan_target(None), ScanTarget::Root("/r".to_string()));
    assert_eq!(
        Settings::default().scan_target(None),
        ScanTarget::Canonical(".".to_string())
    );
}
