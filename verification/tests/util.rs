use git_repos::util::{strip_unc_pathbuf, strip_unc_prefix};

#[test]
fn strip_unc_prefix_removes_one_leading_prefix() {
    assert_eq!(strip_unc_prefix(r"\\?\C:\Users\me"), r"C:\Users\me");
    assert_eq!(strip_unc_prefix(r"\\?\\\?\x"), r"\\?\x");
    assert_eq!(strip_unc_prefix(r"\\?\"), "");
}

#[test]
fn strip_unc_prefix_leaves_other_paths_alone() {
    assert_eq!(strip_unc_prefix("/home/me"), "/home/me");
    assert_eq!(strip_unc_prefix(r"C:\\?\x"), r"C:\\?\x");
    assert_eq!(strip_unc_prefix(r"\\?"), r"\\?");
    assert_eq!(strip_unc_prefix(r"\\server\share"), r"\\server\share");
    assert_eq!(strip_unc_prefix(""), "");
    assert_eq!(strip_unc_prefix("\u{e9}\u{e8}\u{ea}\u{eb}x"), "\u{e9}\u{e8}\u{ea}\u{eb}x");
}

#[test]
fn strip_unc_pathbuf_agrees_with_strip_unc_prefix() {
    for path in [r"\\?\C:\Users\me", "/home/me", r"\\?", "", r"\\?\", r"\\?\d\u{fc}r"] {
        assert_eq!(strip_unc_pathbuf(path), strip_unc_prefix(path));
    }
}
