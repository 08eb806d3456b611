use git_repos::event::GitDataUpdate;
use git_repos::unit::{label, should_fetch, Unit, UnitCommand, UnitInput};

fn text(s: &str) -> Option<String> {
    Some(s.to_string())
}

#[test]
fn probe_unit_without_fetch_reports_both_statuses_and_stops() {
    let mut unit = Unit::probe(4, false, false);
    assert_eq!(unit.index(), 4);
    assert_eq!(unit.command(), UnitCommand::ReadRemoteStatus);
    assert_eq!(
        unit.advance(UnitInput::RemoteStatus(text("up-to-date"))),
        vec![GitDataUpdate::RemoteStatus(4, "up-to-date".to_string())]
    );
    assert_eq!(unit.command(), UnitCommand::ReadStatus);
    assert_eq!(
        unit.advance(UnitInput::Status(text("clean"))),
        vec![GitDataUpdate::Status(4, "clean".to_string())]
    );
    assert_eq!(unit.command(), UnitCommand::Stop);
}

#[test]
fn probe_unit_with_fetch_fetches_and_reads_the_remote_status_again() {
    let mut unit = Unit::probe(1, true, true);
    unit.advance(UnitInput::RemoteStatus(text("\u{2191}0 \u{2193}2")));
    assert_eq!(
        unit.advance(UnitInput::Status(text("1M"))),
        vec![GitDataUpdate::Status(1, "1M".to_string()), GitDataUpdate::FetchProgress(1)]
    );
    assert_eq!(unit.command(), UnitCommand::Fetch { update: true });
    assert_eq!(unit.advance(UnitInput::Fetched(true)), Vec::new());
    assert_eq!(unit.command(), UnitCommand::ReadRemoteStatus);
    assert_eq!(
        unit.advance(UnitInput::RemoteStatus(text("up-to-date"))),
        vec![
            GitDataUpdate::RemoteStatus(1, "up-to-date".to_string()),
            GitDataUpdate::FetchComplete(1),
        ]
    );
    assert_eq!(unit.command(), UnitCommand::Stop);
}

#[test]
fn probe_unit_whose_fetch_fails_still_reports_completion() {
    let mut unit = Unit::probe(0, true, false);
    unit.advance(UnitInput::RemoteStatus(text("no-tracking")));
    unit.advance(UnitInput::Status(text("clean")));
    assert_eq!(unit.command(), UnitCommand::Fetch { update: false });
    assert_eq!(unit.advance(UnitInput::Fetched(false)), vec![GitDataUpdate::FetchComplete(0)]);
    assert_eq!(unit.command(), UnitCommand::Stop);
}

#[test]
fn probe_unit_does_not_fetch_without_a_remote() {
    let mut unit = Unit::probe(2, true, true);
    unit.advance(UnitInput::RemoteStatus(text("local-only")));
    assert_eq!(
        unit.advance(UnitInput::Status(text("2S"))),
        vec![GitDataUpdate::Status(2, "2S".to_string())]
    );
    assert_eq!(unit.command(), UnitCommand::Stop);
}

#[test]
fn probe_that_did_not_return_is_reported_as_error_and_not_fetched() {
    let mut unit = Unit::probe(2, true, true);
    assert_eq!(
        unit.advance(UnitInput::RemoteStatus(None)),
        vec![GitDataUpdate::RemoteStatus(2, "error".to_string())]
    );
    assert_eq!(
        unit.advance(UnitInput::Status(None)),
        vec![GitDataUpdate::Status(2, "error".to_string())]
    );
    assert_eq!(unit.command(), UnitCommand::Stop);
    let mut refresh = Unit::probe(3, true, false);
    refresh.advance(UnitInput::RemoteStatus(text("up-to-date")));
    refresh.advance(UnitInput::Status(None));
    refresh.advance(UnitInput::Fetched(true));
    assert_eq!(
        refresh.advance(UnitInput::RemoteStatus(None)),
        vec![
            GitDataUpdate::RemoteStatus(3, "error".to_string()),
            GitDataUpdate::FetchComplete(3),
        ]
    );
}

#[test]
fn fetch_decision_depends_on_flag_and_remote_status() {
    assert!(should_fetch(true, "up-to-date"));
    assert!(should_fetch(true, "no-tracking"));
    assert!(should_fetch(true, "\u{2191}1 \u{2193}0"));
    assert!(should_fetch(true, "loading..."));
    assert!(!should_fetch(true, "local-only"));
    assert!(!should_fetch(true, "error"));
    assert!(!should_fetch(false, "up-to-date"));
    assert!(!should_fetch(false, "local-only"));
}

#[test]
fn label_of_a_probe() {
    assert_eq!(label(text("clean")), "clean");
    assert_eq!(label(text("")), "");
    assert_eq!(label(None), "error");
}

#[test]
fn clone_unit_reports_progress_first_and_completion_whatever_happened() {
    for succeeded in [true, false] {
        let (mut unit, first) = Unit::clone_repo(5);
        assert_eq!(first, GitDataUpdate::CloneProgress(5));
        assert_eq!(unit.command(), UnitCommand::Clone);
        assert_eq!(
            unit.advance(UnitInput::Cloned(succeeded)),
            vec![GitDataUpdate::CloneComplete(5)]
        );
        assert_eq!(unit.command(), UnitCommand::Stop);
    }
}

#[test]
fn delete_unit_reads_the_url_before_it_removes() {
    let mut unit = Unit::delete(6);
    assert_eq!(unit.command(), UnitCommand::ReadOrigin);
    assert_eq!(
        unit.advance(UnitInput::Origin(text("https://example.org/x.git"))),
        vec![GitDataUpdate::DeleteProgress(6)]
    );
    assert_eq!(unit.command(), UnitCommand::RemoveDirectory);
    assert_eq!(
        unit.advance(UnitInput::Removed),
        vec![GitDataUpdate::DeleteComplete(6, text("https://example.org/x.git"))]
    );
    assert_eq!(unit.command(), UnitCommand::Stop);
    let mut bare = Unit::delete(0);
    bare.advance(UnitInput::Origin(None));
    assert_eq!(bare.advance(UnitInput::Removed), vec![GitDataUpdate::DeleteComplete(0, None)]);
}

#[test]
fn outcome_that_the_unit_does_not_wait_for_is_ignored() {
    let mut unit = Unit::probe(1, true, true);
    assert_eq!(unit.advance(UnitInput::Status(text("clean"))), Vec::new());
    assert_eq!(unit.advance(UnitInput::Fetched(true)), Vec::new());
    assert_eq!(unit.advance(UnitInput::Removed), Vec::new());
    assert_eq!(unit.command(), UnitCommand::ReadRemoteStatus);
    unit.advance(UnitInput::RemoteStatus(text("up-to-date")));
    assert_eq!(unit.advance(UnitInput::RemoteStatus(text("again"))), Vec::new());
    assert_eq!(unit.command(), UnitCommand::ReadStatus);
    unit.advance(UnitInput::Status(text("clean")));
    assert_eq!(unit.advance(UnitInput::Cloned(true)), Vec::new());
    assert_eq!(unit.command(), UnitCommand::Fetch { update: true });
    let (mut cloning, _) = Unit::clone_repo(0);
    assert_eq!(cloning.advance(UnitInput::Removed), Vec::new());
    assert_eq!(cloning.command(), UnitCommand::Clone);
    let mut deleting = Unit::delete(0);
    assert_eq!(deleting.advance(UnitInput::Removed), Vec::new());
    assert_eq!(deleting.command(), UnitCommand::ReadOrigin);
    deleting.advance(UnitInput::Origin(None));
    deleting.advance(UnitInput::Removed);
    assert_eq!(deleting.advance(UnitInput::Removed), Vec::new());
    assert_eq!(deleting.command(), UnitCommand::Stop);
}

#[test]
fn update_index_is_the_carried_index() {
    assert_eq!(GitDataUpdate::RemoteStatus(3, String::new()).index(), 3);
    assert_eq!(GitDataUpdate::Status(4, String::new()).index(), 4);
    assert_eq!(GitDataUpdate::FetchProgress(5).index(), 5);
    assert_eq!(GitDataUpdate::FetchComplete(6).index(), 6);
    assert_eq!(GitDataUpdate::CloneProgress(7).index(), 7);
    assert_eq!(GitDataUpdate::CloneComplete(8).index(), 8);
    assert_eq!(GitDataUpdate::DeleteProgress(9).index(), 9);
    assert_eq!(GitDataUpdate::DeleteComplete(10, None).index(), 10);
}
