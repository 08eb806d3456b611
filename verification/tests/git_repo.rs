use git_repos::git_repo::{find_git_repos, scan_visits, short_name, GitRepo};

fn present(path: &str) -> GitRepo {
    GitRepo::new(path.to_string(), Some("ref: refs/heads/main\n"))
}

#[test]
fn new_record_is_present_and_unloaded() {
    let repo = present("/home/u/projects/alpha");
    assert_eq!(repo.path(), "/home/u/projects/alpha");
    assert_eq!(repo.branch(), "main");
    assert!(!repo.is_missing());
    assert!(!repo.is_loaded());
    assert_eq!(repo.remote_status(), "loading...");
    assert_eq!(repo.status(), "loading...");
    assert_eq!(repo.cached_remote_url(), None);
}

#[test]
fn new_missing_record_remembers_url() {
    let repo = GitRepo::new_missing(
        "/home/u/projects/delta".to_string(),
        Some("https://example.org/delta.git".to_string()),
    );
    assert!(repo.is_missing());
    assert_eq!(repo.branch(), "");
    assert_eq!(repo.cached_remote_url(), Some("https://example.org/delta.git"));
    assert_eq!(repo.remote_status(), "loading...");
    assert!(!repo.is_loaded());
}

#[test]
fn name_and_parent_name_come_from_the_path() {
    let repo = present("/home/u/projects/alpha");
    assert_eq!(repo.name(), Some("alpha"));
    assert_eq!(repo.parent_name(), Some("projects"));
    assert_eq!(repo.display_short(), "projects/alpha");
}

#[test]
fn display_short_without_parent_name_is_the_name() {
    let repo = present("/alpha");
    assert_eq!(repo.name(), Some("alpha"));
    assert_eq!(repo.parent_name(), None);
    assert_eq!(repo.display_short(), "alpha");
}

#[test]
fn display_short_without_name_is_the_path() {
    let repo = present("/");
    assert_eq!(repo.name(), None);
    assert_eq!(repo.display_short(), "/");
}

#[test]
fn short_name_joins_parent_and_name() {
    assert_eq!(short_name(Some("projects"), Some("alpha"), "/p/projects/alpha"), "projects/alpha");
    assert_eq!(short_name(Some(""), Some("a"), "x"), "/a");
    assert_eq!(short_name(None, Some("alpha"), "/alpha"), "alpha");
    assert_eq!(short_name(Some("projects"), None, "/p/projects/.."), "/p/projects/..");
    assert_eq!(short_name(None, None, "/"), "/");
    assert_eq!(short_name(None, None, ""), "");
}

#[test]
fn statuses_load_one_by_one() {
    let mut repo = present("/home/u/projects/alpha");
    repo.set_remote_status("up-to-date".to_string());
    assert_eq!(repo.remote_status(), "up-to-date");
    assert_eq!(repo.status(), "loading...");
    assert!(!repo.is_loaded());
    repo.set_status("clean".to_string());
    assert_eq!(repo.status(), "clean");
    assert!(repo.is_loaded());
}

#[test]
fn set_missing_stores_the_url_and_keeps_the_rest() {
    let mut repo = present("/home/u/projects/alpha");
    repo.set_status("2M".to_string());
    repo.set_missing(Some("git@example.org:alpha.git".to_string()));
    assert!(repo.is_missing());
    assert_eq!(repo.cached_remote_url(), Some("git@example.org:alpha.git"));
    assert_eq!(repo.path(), "/home/u/projects/alpha");
    assert_eq!(repo.branch(), "main");
    assert_eq!(repo.status(), "2M");
}

#[test]
fn read_branch_takes_the_branch_behind_the_ref() {
    assert_eq!(GitRepo::read_branch(Some("ref: refs/heads/main\n")), "main");
    assert_eq!(
        GitRepo::read_branch(Some("  ref: refs/heads/feature/x \r\n")),
        "feature/x"
    );
    assert_eq!(GitRepo::read_branch(Some("ref: refs/heads/")), "");
}

#[test]
fn read_branch_of_a_detached_head_shows_seven_characters() {
    assert_eq!(
        GitRepo::read_branch(Some("0123456789abcdef0123456789abcdef01234567\n")),
        "detached@0123456"
    );
    assert_eq!(GitRepo::read_branch(Some("abcdefg")), "detached@abcdefg");
}

#[test]
fn read_branch_falls_back_to_unknown() {
    assert_eq!(GitRepo::read_branch(None), "unknown");
    assert_eq!(GitRepo::read_branch(Some("")), "unknown");
    assert_eq!(GitRepo::read_branch(Some("abcdef")), "unknown");
    assert_eq!(GitRepo::read_branch(Some("   \n")), "unknown");
    assert_eq!(GitRepo::read_branch(Some("ref: refs/tags/v1")), "detached@ref: re");
}

#[test]
fn remote_url_of_a_missing_record_is_the_remembered_one() {
    let repo = GitRepo::new_missing("/r/x".to_string(), Some("url-a".to_string()));
    assert_eq!(repo.get_remote_url(Some("url-b\n")), Some("url-a".to_string()));
    let bare = GitRepo::new_missing("/r/x".to_string(), None);
    assert_eq!(bare.get_remote_url(Some("url-b\n")), None);
}

#[test]
fn remote_url_of_a_present_record_is_the_trimmed_output() {
    let repo = present("/r/x");
    assert_eq!(
        repo.get_remote_url(Some("  https://example.org/x.git\n")),
        Some("https://example.org/x.git".to_string())
    );
    assert_eq!(repo.get_remote_url(Some("")), Some(String::new()));
    assert_eq!(repo.get_remote_url(None), None);
}

#[test]
fn scan_passes_hidden_directories_by() {
    assert!(!scan_visits(Some(".git"), true, false, false));
    assert!(!scan_visits(Some(".cache"), true, true, false));
    assert!(scan_visits(Some("src"), true, false, false));
    assert!(scan_visits(Some(""), true, false, false));
    assert!(scan_visits(None, true, false, false));
}

#[test]
fn scan_does_not_descend_into_a_working_copy() {
    assert!(!scan_visits(Some("src"), true, false, true));
    assert!(scan_visits(Some("src"), true, true, true));
    assert!(scan_visits(Some("src"), false, false, true));
}

#[test]
fn find_git_repos_makes_a_record_for_each_entry() {
    let found = vec![
        ("/r/b".to_string(), Some("ref: refs/heads/dev\n".to_string())),
        ("/r/a".to_string(), None),
    ];
    let repos = find_git_repos(found);
    assert_eq!(repos.len(), 2);
    assert_eq!(repos[0].path(), "/r/b");
    assert_eq!(repos[0].branch(), "dev");
    assert_eq!(repos[1].path(), "/r/a");
    assert_eq!(repos[1].branch(), "unknown");
    assert!(!repos[1].is_missing());
}
