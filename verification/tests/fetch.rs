use lazy_git_ext::fetch::{
    Fetch, FetchAction, FetchAll, FetchAllAction, FetchError, FetchEvent, FetchOutcome,
    FetchPhase, FetchStage,
};

fn failed(detail: &str) -> FetchEvent {
    FetchEvent::Failed(detail.to_string())
}

fn download() -> FetchAction {
    FetchAction::Download { refspecs: Vec::new(), all_tags: true, with_credentials: true }
}

fn update_tips() -> FetchAction {
    FetchAction::UpdateTips { forced: true, all_tags: true }
}

fn error(remote: &str, phase: FetchPhase, detail: &str) -> FetchAction {
    FetchAction::Finish(FetchOutcome::Failed(FetchError {
        remote: remote.to_string(),
        phase,
        detail: detail.to_string(),
    }))
}

#[test]
fn fetch_of_configured_remote_runs_every_step() {
    let fetch = Fetch::fetch_remote("origin");
    assert_eq!(fetch.stage, FetchStage::FindingRemote);
    assert_eq!(fetch.action(), FetchAction::FindRemote { name: "origin".to_string() });
    let fetch = fetch.advance(FetchEvent::Succeeded);
    assert_eq!(fetch.action(), download());
    let fetch = fetch.advance(FetchEvent::Succeeded);
    assert_eq!(fetch.action(), FetchAction::Disconnect);
    let fetch = fetch.advance(FetchEvent::Succeeded);
    assert_eq!(fetch.action(), update_tips());
    let fetch = fetch.advance(FetchEvent::Succeeded);
    assert_eq!(fetch.action(), FetchAction::Finish(FetchOutcome::Fetched));
    assert_eq!(fetch.name, "origin");
}

#[test]
fn unknown_name_is_taken_as_an_address() {
    let url = "https://example.org/repo.git";
    let fetch = Fetch::fetch_remote(url).advance(failed("no such remote"));
    assert_eq!(fetch.action(), FetchAction::AnonymousRemote { url: url.to_string() });
    let fetch = fetch.advance(FetchEvent::Succeeded);
    assert_eq!(fetch.action(), download());
}

#[test]
fn failed_resolution_is_fatal_and_names_the_remote() {
    let fetch = Fetch::fetch_remote("nowhere").advance(failed("not found")).advance(failed("bad url"));
    assert_eq!(fetch.action(), error("nowhere", FetchPhase::Resolution, "bad url"));
}

#[test]
fn failed_download_is_fatal() {
    let fetch = Fetch::fetch_remote("origin")
        .advance(FetchEvent::Succeeded)
        .advance(failed("no authentication available"));
    assert_eq!(
        fetch.action(),
        error("origin", FetchPhase::Download, "no authentication available")
    );
}

#[test]
fn failed_disconnect_is_not_fatal() {
    let fetch = Fetch::fetch_remote("origin")
        .advance(FetchEvent::Succeeded)
        .advance(FetchEvent::Succeeded)
        .advance(failed("already closed"));
    assert_eq!(fetch.action(), update_tips());
}

#[test]
fn failed_tip_update_is_fatal() {
    let fetch = Fetch::fetch_remote("origin")
        .advance(FetchEvent::Succeeded)
        .advance(FetchEvent::Succeeded)
        .advance(FetchEvent::Succeeded)
        .advance(failed("locked"));
    assert_eq!(fetch.action(), error("origin", FetchPhase::UpdateTips, "locked"));
}

#[test]
fn ended_fetch_stays_as_it_is() {
    let fetch = Fetch::fetch_remote("origin")
        .advance(FetchEvent::Succeeded)
        .advance(failed("down"));
    let again = fetch.clone().advance(FetchEvent::Succeeded).advance(failed("other"));
    assert_eq!(again, fetch);
    assert!(fetch.stage.ended());
    assert!(!Fetch::fetch_remote("origin").stage.ended());
}

/// Drives the fetch of all remotes; `broken` says which remotes fail to
/// download.
fn fetch_all(names: &[&str], broken: &[&str]) -> (Vec<(String, FetchOutcome)>, usize, usize) {
    let mut all = FetchAll::new(names.iter().map(|name| name.to_string()).collect());
    let mut reports = Vec::new();
    let mut current = String::new();
    let mut steps = 0;
    loop {
        steps += 1;
        assert!(steps < 1000);
        let event = match all.action() {
            FetchAllAction::Finish { fetched, failed } => return (reports, fetched, failed),
            FetchAllAction::Remote(FetchAction::FindRemote { name }) => {
                current = name;
                FetchEvent::Succeeded
            }
            FetchAllAction::Remote(FetchAction::Download { .. }) => {
                if broken.contains(&current.as_str()) {
                    failed("unreachable")
                } else {
                    FetchEvent::Succeeded
                }
            }
            FetchAllAction::Remote(FetchAction::Finish(outcome)) => {
                reports.push((current.clone(), outcome));
                FetchEvent::Succeeded
            }
            FetchAllAction::Remote(_) => FetchEvent::Succeeded,
        };
        all.advance(event);
    }
}

#[test]
fn fetch_all_takes_every_remote_in_order() {
    let (reports, fetched, failed) = fetch_all(&["origin", "upstream", "fork"], &[]);
    assert_eq!(
        reports,
        vec![
            ("origin".to_string(), FetchOutcome::Fetched),
            ("upstream".to_string(), FetchOutcome::Fetched),
            ("fork".to_string(), FetchOutcome::Fetched),
        ]
    );
    assert_eq!((fetched, failed), (3, 0));
}

#[test]
fn fetch_all_goes_on_after_a_failure() {
    let (reports, fetched, failed) = fetch_all(&["origin", "upstream", "fork"], &["origin", "fork"]);
    let broken = |remote: &str| {
        FetchOutcome::Failed(FetchError {
            remote: remote.to_string(),
            phase: FetchPhase::Download,
            detail: "unreachable".to_string(),
        })
    };
    assert_eq!(
        reports,
        vec![
            ("origin".to_string(), broken("origin")),
            ("upstream".to_string(), FetchOutcome::Fetched),
            ("fork".to_string(), broken("fork")),
        ]
    );
    assert_eq!((fetched, failed), (1, 2));
}

#[test]
fn fetch_all_of_no_remote_finishes_at_once() {
    let all = FetchAll::new(Vec::new());
    assert_eq!(all.action(), FetchAllAction::Finish { fetched: 0, failed: 0 });
}

#[test]
fn finished_fetch_all_stays_finished() {
    let mut all = FetchAll::new(Vec::new());
    all.advance(FetchEvent::Succeeded);
    all.advance(failed("late"));
    assert_eq!(all.action(), FetchAllAction::Finish { fetched: 0, failed: 0 });
}
