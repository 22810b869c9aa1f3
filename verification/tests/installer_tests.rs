use theme_installer::catalog::{ThemeCatalog, ThemeEntry};
use theme_installer::fetcher::FetchError;
use theme_installer::installer::{
    handle_command_line_action, install_begin, install_step, ActionOutcome, InstallAction,
    InstallError, InstallEvent, InstallState, ReadOutcome, ThemeActions, WriteOutcome,
};
use theme_installer::patcher::change_theme_in_config;

fn catalog() -> ThemeCatalog {
    let mut c = ThemeCatalog::new();
    c.add(ThemeEntry {
        name: "papaya".to_string(),
        repository_url: "https://example.org/papaya.git".to_string(),
    });
    c
}

#[test]
fn successful_run_walks_every_stage() {
    let c = catalog();
    let (st, act) = install_begin(&c, "PAPAYA");
    assert!(matches!(act, InstallAction::ReadConfig));
    let config = "title = \"x\"\n\n[extra]\nfoo = 1\n".to_string();
    let (st, act) = install_step(
        st,
        InstallEvent::ConfigRead { outcome: ReadOutcome::Content { text: config.clone() } },
    );
    match &act {
        InstallAction::RunClone { url, dest } => {
            assert_eq!(url, "https://example.org/papaya.git");
            assert_eq!(dest, "themes\\papaya");
        },
        other => panic!("expected a clone action, got {:?}", action_name(other)),
    }
    let (st, act) = install_step(st, InstallEvent::FetchDone { result: Ok(()) });
    match &act {
        InstallAction::WriteConfig { text } => {
            assert_eq!(*text, change_theme_in_config("papaya", config));
        },
        other => panic!("expected a write action, got {:?}", action_name(other)),
    }
    let (st, act) = install_step(
        st,
        InstallEvent::ConfigWritten { outcome: WriteOutcome::Written },
    );
    assert!(matches!(st, InstallState::Done));
    assert!(matches!(act, InstallAction::Stop));
}

fn action_name(a: &InstallAction) -> &'static str {
    match a {
        InstallAction::ReadConfig => "ReadConfig",
        InstallAction::RunClone { .. } => "RunClone",
        InstallAction::WriteConfig { .. } => "WriteConfig",
        InstallAction::Stop => "Stop",
    }
}

#[test]
fn unknown_theme_fails_at_once() {
    let c = catalog();
    let (st, act) = install_begin(&c, "nope");
    assert!(matches!(
        st,
        InstallState::Failed { error: InstallError::ThemeNotFound }
    ));
    assert!(matches!(act, InstallAction::Stop));
}

#[test]
fn missing_config_stops_before_any_fetch() {
    let c = catalog();
    let (st, _) = install_begin(&c, "papaya");
    let (st, act) = install_step(st, InstallEvent::ConfigRead { outcome: ReadOutcome::Missing });
    assert!(matches!(
        st,
        InstallState::Failed { error: InstallError::ConfigMissing }
    ));
    assert!(matches!(act, InstallAction::Stop));
}

#[test]
fn unreadable_config_stops_before_any_fetch() {
    let c = catalog();
    let (st, _) = install_begin(&c, "papaya");
    let (st, act) = install_step(
        st,
        InstallEvent::ConfigRead { outcome: ReadOutcome::Unreadable },
    );
    assert!(matches!(
        st,
        InstallState::Failed { error: InstallError::ConfigUnreadable }
    ));
    assert!(matches!(act, InstallAction::Stop));
}

#[test]
fn fetch_failures_stop_before_any_write() {
    for (reason, expect_launch) in [(FetchError::LaunchFailed, true), (FetchError::CloneRejected, false)] {
        let c = catalog();
        let (st, _) = install_begin(&c, "papaya");
        let (st, _) = install_step(
            st,
            InstallEvent::ConfigRead { outcome: ReadOutcome::Content { text: String::new() } },
        );
        let (st, act) = install_step(st, InstallEvent::FetchDone { result: Err(reason) });
        match st {
            InstallState::Failed { error: InstallError::Fetch { reason } } => {
                assert_eq!(matches!(reason, FetchError::LaunchFailed), expect_launch);
            },
            _ => panic!("expected a fetch failure"),
        }
        assert!(matches!(act, InstallAction::Stop));
    }
}

#[test]
fn write_failures_are_reported() {
    let c = catalog();
    let (st, _) = install_begin(&c, "papaya");
    let (st, _) = install_step(
        st,
        InstallEvent::ConfigRead { outcome: ReadOutcome::Content { text: String::new() } },
    );
    let (st, _) = install_step(st, InstallEvent::FetchDone { result: Ok(()) });
    let (failed, act) = install_step(
        st,
        InstallEvent::ConfigWritten { outcome: WriteOutcome::WriteFailed },
    );
    assert!(matches!(
        failed,
        InstallState::Failed { error: InstallError::ConfigWriteFailed }
    ));
    assert!(matches!(act, InstallAction::Stop));
}

#[test]
fn create_failure_is_distinct_from_write_failure() {
    let c = catalog();
    let (st, _) = install_begin(&c, "papaya");
    let (st, _) = install_step(
        st,
        InstallEvent::ConfigRead { outcome: ReadOutcome::Content { text: String::new() } },
    );
    let (st, _) = install_step(st, InstallEvent::FetchDone { result: Ok(()) });
    let (failed, _) = install_step(
        st,
        InstallEvent::ConfigWritten { outcome: WriteOutcome::CreateFailed },
    );
    assert!(matches!(
        failed,
        InstallState::Failed { error: InstallError::ConfigCreateFailed }
    ));
}

#[test]
fn list_action_yields_names_in_order() {
    let mut c = catalog();
    c.add(ThemeEntry {
        name: "anubis".to_string(),
        repository_url: "https://example.org/anubis.git".to_string(),
    });
    match handle_command_line_action(&c, ThemeActions::List) {
        ActionOutcome::Listing { names } => {
            assert_eq!(names, vec!["papaya".to_string(), "anubis".to_string()]);
        },
        _ => panic!("expected a listing"),
    }
}

#[test]
fn install_action_begins_a_run() {
    let c = catalog();
    match handle_command_line_action(&c, ThemeActions::Install { name: "Papaya".to_string() }) {
        ActionOutcome::Install { state, action } => {
            assert!(matches!(state, InstallState::AwaitingConfig { .. }));
            assert!(matches!(action, InstallAction::ReadConfig));
        },
        _ => panic!("expected an installation run"),
    }
}
