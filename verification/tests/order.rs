use git_repos::git_repo::GitRepo;
use git_repos::order::{comes_first, find_by_path, sort_repos};

fn present(path: &str) -> GitRepo {
    GitRepo::new(path.to_string(), None)
}

fn missing(path: &str) -> GitRepo {
    GitRepo::new_missing(path.to_string(), None)
}

fn paths(repos: &Vec<GitRepo>) -> Vec<&str> {
    repos.iter().map(|r| r.path()).collect()
}

#[test]
fn present_records_come_before_missing_ones() {
    assert!(comes_first(&present("/r/zeta"), &missing("/r/alpha")));
    assert!(!comes_first(&missing("/r/alpha"), &present("/r/zeta")));
}

#[test]
fn records_of_one_group_compare_by_lowercase_display_name() {
    assert!(comes_first(&present("/r/alpha"), &present("/r/Beta")));
    assert!(!comes_first(&present("/r/Beta"), &present("/r/alpha")));
    assert!(comes_first(&present("/r/Beta"), &present("/r/gamma")));
    assert!(!comes_first(&present("/r/alpha"), &present("/r/ALPHA")));
    assert!(!comes_first(&present("/r/ALPHA"), &present("/r/alpha")));
    assert!(comes_first(&present("/a/zeta"), &present("/b/alpha")));
}

#[test]
fn a_prefix_comes_before_the_longer_name() {
    assert!(comes_first(&present("/r/repo"), &present("/r/repo2")));
    assert!(!comes_first(&present("/r/repo2"), &present("/r/repo")));
}

#[test]
fn sort_puts_present_first_then_missing_each_by_name() {
    let mut repos = vec![
        missing("/r/delta"),
        present("/r/gamma"),
        missing("/r/Able"),
        present("/r/Beta"),
        present("/r/alpha"),
    ];
    sort_repos(&mut repos);
    assert_eq!(
        paths(&repos),
        vec!["/r/alpha", "/r/Beta", "/r/gamma", "/r/Able", "/r/delta"]
    );
}

#[test]
fn sort_keeps_the_order_of_records_with_equal_names() {
    let mut repos = vec![
        present("/two/x/repo"),
        present("/one/x/repo"),
        present("/three/X/Repo"),
        present("/zero/a/first"),
    ];
    sort_repos(&mut repos);
    assert_eq!(
        paths(&repos),
        vec!["/zero/a/first", "/two/x/repo", "/one/x/repo", "/three/X/Repo"]
    );
}

#[test]
fn sort_of_nothing_and_of_one() {
    let mut none: Vec<GitRepo> = Vec::new();
    sort_repos(&mut none);
    assert!(none.is_empty());
    let mut one = vec![missing("/r/only")];
    sort_repos(&mut one);
    assert_eq!(paths(&one), vec!["/r/only"]);
}

#[test]
fn find_by_path_gives_the_first_place() {
    let repos = vec![present("/r/a"), missing("/r/b"), present("/r/b")];
    assert_eq!(find_by_path(&repos, "/r/a"), Some(0));
    assert_eq!(find_by_path(&repos, "/r/b"), Some(1));
    assert_eq!(find_by_path(&repos, "/r/c"), None);
    assert_eq!(find_by_path(&Vec::new(), "/r/a"), None);
}
