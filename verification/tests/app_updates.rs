use git_repos::app::{Action, App};
use git_repos::cache::load_repos_with_cache;
use git_repos::config::{remove_from_cache, CachedRepo};
use git_repos::event::{GitDataUpdate, KeyCode, KeyModifiers, TerminalEvent};
use git_repos::git_repo::GitRepo;

fn present(path: &str) -> GitRepo {
    GitRepo::new(path.to_string(), Some("ref: refs/heads/main\n"))
}

fn missing(path: &str, url: Option<&str>) -> GitRepo {
    GitRepo::new_missing(path.to_string(), url.map(|u| u.to_string()))
}

fn key(c: char) -> TerminalEvent {
    TerminalEvent::Key(KeyCode::Char(c), KeyModifiers { control: false })
}

fn update(u: GitDataUpdate) -> TerminalEvent {
    TerminalEvent::GitUpdate(u)
}

fn three() -> App {
    App::new(
        vec![present("/r/gamma"), present("/r/alpha"), present("/r/Beta")],
        "/r",
        true,
        false,
    )
}

fn paths(app: &App) -> Vec<&str> {
    app.repos().iter().map(|r| r.path()).collect()
}

#[test]
fn status_reports_update_exactly_their_record() {
    let mut app = three();
    let before: Vec<GitRepo> = app.repos().clone();
    assert_eq!(
        app.handle_event(update(GitDataUpdate::RemoteStatus(1, "up-to-date".to_string()))),
        Action::Nothing
    );
    assert!(app.needs_redraw());
    assert_eq!(app.repos()[1].remote_status(), "up-to-date");
    assert_eq!(app.repos()[1].status(), "loading...");
    assert_eq!(app.repos()[0], before[0]);
    assert_eq!(app.repos()[2], before[2]);
    app.handle_event(update(GitDataUpdate::Status(1, "clean".to_string())));
    assert_eq!(app.repos()[1].remote_status(), "up-to-date");
    assert_eq!(app.repos()[1].status(), "clean");
    assert!(app.repos()[1].is_loaded());
    assert_eq!(app.repos()[1].path(), "/r/Beta");
    assert_eq!(app.repos()[1].branch(), "main");
    assert_eq!(app.repos()[0], before[0]);
    assert_eq!(app.repos()[2], before[2]);
    assert_eq!(app.selected(), Some(0));
}

#[test]
fn a_status_report_delivered_twice_is_the_same_as_once() {
    let mut once = three();
    once.handle_event(update(GitDataUpdate::Status(2, "1S 2M".to_string())));
    let mut twice = three();
    twice.handle_event(update(GitDataUpdate::Status(2, "1S 2M".to_string())));
    twice.handle_event(update(GitDataUpdate::Status(2, "1S 2M".to_string())));
    assert_eq!(once.repos(), twice.repos());
    assert_eq!(once.selected(), twice.selected());
    assert_eq!(once.needs_redraw(), twice.needs_redraw());
}

#[test]
fn the_last_status_report_wins() {
    let mut app = three();
    app.handle_event(update(GitDataUpdate::RemoteStatus(0, "no-tracking".to_string())));
    app.handle_event(update(GitDataUpdate::RemoteStatus(2, "local-only".to_string())));
    app.handle_event(update(GitDataUpdate::RemoteStatus(0, "up-to-date".to_string())));
    assert_eq!(app.repos()[0].remote_status(), "up-to-date");
    assert_eq!(app.repos()[1].remote_status(), "loading...");
    assert_eq!(app.repos()[2].remote_status(), "local-only");
}

#[test]
fn reports_for_an_index_that_is_gone_are_dropped() {
    let mut app = three();
    let before: Vec<GitRepo> = app.repos().clone();
    for report in [
        GitDataUpdate::RemoteStatus(3, "up-to-date".to_string()),
        GitDataUpdate::Status(3, "clean".to_string()),
        GitDataUpdate::Status(usize::MAX, "clean".to_string()),
        GitDataUpdate::CloneComplete(7),
        GitDataUpdate::DeleteComplete(3, Some("url".to_string())),
        GitDataUpdate::DeleteComplete(usize::MAX, None),
    ] {
        assert_eq!(app.handle_event(update(report)), Action::Nothing);
        assert_eq!(app.repos(), &before);
        assert_eq!(app.selected(), Some(0));
    }
    assert_eq!(app.clone_inspected(3, true, Some("ref: refs/heads/x")), Action::Nothing);
    app.cache_entry_removed(3, true);
    assert_eq!(app.repos(), &before);
    let mut empty = App::new(Vec::new(), "/r", false, false);
    assert_eq!(
        empty.handle_event(update(GitDataUpdate::Status(0, "clean".to_string()))),
        Action::Nothing
    );
    assert!(!empty.needs_redraw());
    assert!(empty.repos().is_empty());
}

#[test]
fn fetch_reports_add_and_remove_the_index() {
    let mut app = three();
    assert_eq!(app.handle_event(update(GitDataUpdate::FetchProgress(1))), Action::Nothing);
    assert_eq!(app.fetching_repos(), &vec![1]);
    assert!(app.needs_redraw());
    app.drawn();
    app.handle_event(update(GitDataUpdate::FetchProgress(1)));
    assert_eq!(app.fetching_repos(), &vec![1]);
    assert!(!app.needs_redraw());
    app.handle_event(update(GitDataUpdate::FetchProgress(0)));
    assert_eq!(app.fetching_repos(), &vec![1, 0]);
    assert_eq!(app.fetch_animation_frame(), 0);
    app.handle_event(update(GitDataUpdate::FetchComplete(1)));
    assert_eq!(app.fetching_repos(), &vec![0]);
    assert_eq!(app.fetch_animation_frame(), 1);
    assert!(app.needs_redraw());
    app.handle_event(update(GitDataUpdate::FetchComplete(5)));
    assert_eq!(app.fetching_repos(), &vec![0]);
    assert_eq!(app.fetch_animation_frame(), 2);
    app.handle_event(update(GitDataUpdate::FetchComplete(0)));
    assert!(app.fetching_repos().is_empty());
    assert_eq!(app.fetch_animation_frame(), 3);
}

#[test]
fn the_animation_has_ten_frames() {
    let mut app = three();
    for expected in [1, 2, 3, 4, 5, 6, 7, 8, 9, 0, 1] {
        app.handle_event(update(GitDataUpdate::FetchComplete(0)));
        assert_eq!(app.fetch_animation_frame(), expected);
    }
}

#[test]
fn tick_advances_the_frame_only_while_something_is_in_flight() {
    let mut app = three();
    app.tick();
    assert_eq!(app.fetch_animation_frame(), 0);
    assert!(!app.needs_redraw());
    app.handle_event(update(GitDataUpdate::DeleteProgress(7)));
    app.drawn();
    assert!(!app.needs_redraw());
    app.tick();
    assert_eq!(app.fetch_animation_frame(), 1);
    assert!(app.needs_redraw());
    app.handle_event(update(GitDataUpdate::DeleteComplete(7, None)));
    assert!(app.deleting_repos().is_empty());
    app.drawn();
    app.tick();
    assert_eq!(app.fetch_animation_frame(), 1);
    assert!(!app.needs_redraw());
    app.handle_event(update(GitDataUpdate::CloneProgress(0)));
    app.tick();
    assert_eq!(app.fetch_animation_frame(), 2);
    app.handle_event(update(GitDataUpdate::CloneComplete(0)));
    app.handle_event(update(GitDataUpdate::FetchProgress(0)));
    app.tick();
    assert_eq!(app.fetch_animation_frame(), 3);
}

#[test]
fn four_records_after_merge_three_present_then_delta_missing() {
    let found = vec![present("/r/gamma"), present("/r/Beta"), present("/r/alpha")];
    let cached = vec![
        CachedRepo { path: "alpha".to_string(), remote: None },
        CachedRepo {
            path: "delta".to_string(),
            remote: Some("https://example.org/delta.git".to_string()),
        },
    ];
    let (repos, is_root) = load_repos_with_cache(found, "/r", Some("/r"), Some(cached));
    assert!(is_root);
    let app = App::new_with_root(repos, "/r", true, false, Some("/r".to_string()));
    assert_eq!(paths(&app), vec!["/r/alpha", "/r/Beta", "/r/gamma", "/r/delta"]);
    let flags: Vec<bool> = app.repos().iter().map(|r| r.is_missing()).collect();
    assert_eq!(flags, vec![false, false, false, true]);
    assert_eq!(app.repos()[3].cached_remote_url(), Some("https://example.org/delta.git"));
    assert_eq!(app.selected(), Some(0));
}

#[test]
fn failed_clone_leaves_the_record_missing_and_asks_for_no_probe() {
    let mut app = App::new(
        vec![present("/r/alpha"), missing("/r/delta", Some("https://example.org/d.git"))],
        "/r",
        false,
        false,
    );
    app.handle_event(key('j'));
    app.handle_event(key('c'));
    app.handle_event(update(GitDataUpdate::CloneProgress(1)));
    assert_eq!(app.cloning_repos(), &vec![1]);
    let action = app.handle_event(update(GitDataUpdate::CloneComplete(1)));
    assert_eq!(action, Action::InspectClone { index: 1, path: "/r/delta".to_string() });
    assert!(!app.cloning_repos().contains(&1));
    assert!(app.needs_redraw());
    assert_eq!(app.clone_inspected(1, false, None), Action::Nothing);
    assert!(app.repos()[1].is_missing());
    assert_eq!(app.repos()[1].cached_remote_url(), Some("https://example.org/d.git"));
    assert_eq!(paths(&app), vec!["/r/alpha", "/r/delta"]);
    assert_eq!(app.selected(), Some(1));
    assert!(app.cloning_repos().is_empty());
}

#[test]
fn successful_clone_refreshes_sorts_selects_and_asks_for_a_probe() {
    let mut app = App::new(
        vec![
            present("/r/beta"),
            present("/r/delta"),
            missing("/r/alpha", Some("https://example.org/a.git")),
            missing("/r/zeta", None),
        ],
        "/r",
        true,
        true,
    );
    assert_eq!(paths(&app), vec!["/r/beta", "/r/delta", "/r/alpha", "/r/zeta"]);
    app.handle_event(update(GitDataUpdate::CloneProgress(2)));
    assert_eq!(
        app.handle_event(update(GitDataUpdate::CloneComplete(2))),
        Action::InspectClone { index: 2, path: "/r/alpha".to_string() }
    );
    let action = app.clone_inspected(2, true, Some("ref: refs/heads/trunk\n"));
    assert_eq!(
        action,
        Action::Probe { index: 0, path: "/r/alpha".to_string(), fetch: true, update: true }
    );
    assert_eq!(paths(&app), vec!["/r/alpha", "/r/beta", "/r/delta", "/r/zeta"]);
    assert_eq!(app.selected(), Some(0));
    let fresh = &app.repos()[0];
    assert!(!fresh.is_missing());
    assert_eq!(fresh.branch(), "trunk");
    assert_eq!(fresh.remote_status(), "loading...");
    assert_eq!(fresh.status(), "loading...");
    assert_eq!(fresh.cached_remote_url(), None);
    assert!(app.repos()[3].is_missing());
}

#[test]
fn delete_complete_marks_missing_sorts_and_follows_the_record() {
    let mut app = App::new(
        vec![present("/r/alpha"), present("/r/beta"), present("/r/gamma"), missing("/r/aaa", None)],
        "/r",
        false,
        false,
    );
    app.handle_event(key('d'));
    assert_eq!(app.deleting_repos(), &vec![0]);
    app.handle_event(update(GitDataUpdate::DeleteProgress(0)));
    assert_eq!(app.deleting_repos(), &vec![0]);
    app.handle_event(update(GitDataUpdate::RemoteStatus(0, "up-to-date".to_string())));
    let action = app.handle_event(update(GitDataUpdate::DeleteComplete(
        0,
        Some("https://example.org/alpha.git".to_string()),
    )));
    assert_eq!(action, Action::Nothing);
    assert!(app.deleting_repos().is_empty());
    assert_eq!(paths(&app), vec!["/r/beta", "/r/gamma", "/r/aaa", "/r/alpha"]);
    assert_eq!(app.selected(), Some(3));
    let gone = &app.repos()[3];
    assert!(gone.is_missing());
    assert_eq!(gone.cached_remote_url(), Some("https://example.org/alpha.git"));
    assert_eq!(gone.remote_status(), "up-to-date");
    assert_eq!(gone.branch(), "main");
    assert!(app.needs_redraw());
}

#[test]
fn delete_complete_keeps_the_selection_on_its_record() {
    let mut app = three();
    assert_eq!(app.selected(), Some(0));
    app.handle_event(update(GitDataUpdate::DeleteComplete(1, None)));
    assert_eq!(paths(&app), vec!["/r/alpha", "/r/gamma", "/r/Beta"]);
    assert_eq!(app.selected(), Some(0));
    assert_eq!(app.repos()[0].path(), "/r/alpha");
    assert!(app.repos()[2].is_missing());
    assert_eq!(app.repos()[2].cached_remote_url(), None);
}

#[test]
fn delete_complete_follows_the_selected_record_to_its_new_place() {
    let mut app = three();
    app.handle_event(key('k'));
    assert_eq!(app.selected(), Some(2));
    assert_eq!(app.repos()[2].path(), "/r/gamma");
    app.handle_event(update(GitDataUpdate::DeleteComplete(1, Some("u".to_string()))));
    assert_eq!(paths(&app), vec!["/r/alpha", "/r/gamma", "/r/Beta"]);
    assert_eq!(app.selected(), Some(1));
    assert_eq!(app.repos()[1].path(), "/r/gamma");
}

#[test]
fn delete_complete_leaves_a_selection_that_names_no_record() {
    let mut empty = App::new(Vec::new(), "/r", false, false);
    assert_eq!(empty.selected(), None);
    empty.handle_event(update(GitDataUpdate::DeleteComplete(0, None)));
    assert_eq!(empty.selected(), None);
    empty.handle_event(key('['));
    assert_eq!(empty.selected(), Some(0));
    empty.handle_event(update(GitDataUpdate::DeleteComplete(0, None)));
    assert_eq!(empty.selected(), Some(0));
    assert!(empty.repos().is_empty());
}

#[test]
fn clone_complete_report_leaves_the_selection_where_it_is() {
    let mut app = App::new(
        vec![present("/r/beta"), missing("/r/alpha", Some("u"))],
        "/r",
        false,
        false,
    );
    assert_eq!(app.selected(), Some(0));
    app.handle_event(update(GitDataUpdate::CloneComplete(1)));
    assert_eq!(app.selected(), Some(0));
    assert_eq!(app.repos()[0].path(), "/r/beta");
    assert_eq!(paths(&app), vec!["/r/beta", "/r/alpha"]);
}

#[test]
fn records_stay_in_order_after_every_completion() {
    let mut app = App::new(
        vec![
            present("/r/echo"),
            present("/r/Charlie"),
            missing("/r/bravo", Some("u")),
            present("/r/alpha"),
            missing("/r/Delta", None),
        ],
        "/r",
        false,
        false,
    );
    let in_order = |app: &App| {
        let keys: Vec<(bool, String)> = app
            .repos()
            .iter()
            .map(|r| (r.is_missing(), r.display_short().to_lowercase()))
            .collect();
        keys.windows(2).all(|w| w[0] <= w[1])
    };
    assert!(in_order(&app));
    app.handle_event(update(GitDataUpdate::DeleteComplete(1, None)));
    assert!(in_order(&app));
    assert!(app.repos()[3].is_missing());
    assert_eq!(app.repos()[3].path(), "/r/Charlie");
    assert_eq!(app.repos()[app.selected().unwrap()].path(), "/r/alpha");
    app.clone_inspected(2, true, None);
    assert!(in_order(&app));
    assert_eq!(app.repos()[app.selected().unwrap()].path(), "/r/bravo");
    app.handle_event(update(GitDataUpdate::DeleteComplete(0, Some("x".to_string()))));
    assert!(in_order(&app));
    assert_eq!(app.repos()[app.selected().unwrap()].path(), "/r/bravo");
    assert_eq!(
        paths(&app),
        vec!["/r/bravo", "/r/echo", "/r/alpha", "/r/Charlie", "/r/Delta"]
    );
}

#[test]
fn dropping_a_missing_record_that_the_cache_does_not_hold_changes_nothing() {
    let mut app = App::new_with_root(
        vec![present("/r/alpha"), missing("/r/delta", None)],
        "/r",
        false,
        false,
        Some("/r".to_string()),
    );
    app.handle_event(key('j'));
    let action = app.handle_event(key('d'));
    assert_eq!(action, Action::Uncache { index: 1, relative_path: "delta".to_string() });
    let mut cache = vec![CachedRepo { path: "alpha".to_string(), remote: None }];
    let removed = remove_from_cache(&mut cache, "delta");
    assert!(!removed);
    assert_eq!(cache, vec![CachedRepo { path: "alpha".to_string(), remote: None }]);
    app.cache_entry_removed(1, removed);
    assert_eq!(app.repos().len(), 2);
    assert_eq!(paths(&app), vec!["/r/alpha", "/r/delta"]);
    assert_eq!(app.selected(), Some(1));
    assert!(!app.needs_redraw());
}

#[test]
fn dropping_a_missing_record_removes_it_and_keeps_the_selection_in_range() {
    let mut app = App::new_with_root(
        vec![present("/r/alpha"), missing("/r/delta", None), missing("/r/echo", None)],
        "/r",
        false,
        false,
        Some("/r".to_string()),
    );
    app.handle_event(key('k'));
    assert_eq!(app.selected(), Some(2));
    assert_eq!(
        app.handle_event(key('d')),
        Action::Uncache { index: 2, relative_path: "echo".to_string() }
    );
    let mut cache = vec![
        CachedRepo { path: "delta".to_string(), remote: None },
        CachedRepo { path: "echo".to_string(), remote: Some("u".to_string()) },
    ];
    let removed = remove_from_cache(&mut cache, "echo");
    assert!(removed);
    assert_eq!(cache, vec![CachedRepo { path: "delta".to_string(), remote: None }]);
    app.cache_entry_removed(2, removed);
    assert_eq!(paths(&app), vec!["/r/alpha", "/r/delta"]);
    assert_eq!(app.selected(), Some(1));
    assert!(app.needs_redraw());
    app.cache_entry_removed(1, true);
    assert_eq!(paths(&app), vec!["/r/alpha"]);
    assert_eq!(app.selected(), Some(0));
    app.cache_entry_removed(0, true);
    assert_eq!(paths(&app), vec!["/r/alpha"]);
}

#[test]
fn dropping_the_only_record_clears_the_selection() {
    let mut app = App::new_with_root(
        vec![missing("/r/delta", None)],
        "/r",
        false,
        false,
        Some("/r".to_string()),
    );
    app.cache_entry_removed(0, true);
    assert!(app.repos().is_empty());
    assert_eq!(app.selected(), None);
}

#[test]
fn dropping_from_the_middle_keeps_the_place() {
    let mut app = App::new(
        vec![missing("/r/a", None), missing("/r/b", None), missing("/r/c", None)],
        "/r",
        false,
        false,
    );
    app.cache_entry_removed(1, true);
    assert_eq!(paths(&app), vec!["/r/a", "/r/c"]);
    assert_eq!(app.selected(), Some(1));
}
