//! Where files live, what becomes of retired settings, and exit codes.

use arkyve_refresh_shop::error::Error;
use arkyve_refresh_shop::level::LogLevel;
use arkyve_refresh_shop::startup::{
    app_data_root_from, config_path_from, console_ending, exit_code, invalid_config_message,
    log_dirs_from, needs_stripping, no_log_file_line, retired_keys, seed_config_if_missing,
    strip_and_report_retired_keys, window_ending, LogSetup, Place, RetiredKeys, Seeding, Warning,
    APP_DIR, EXIT_FAILURE, EXIT_SUCCESS,
};
use std::path::{Path, PathBuf};

fn joined(place: &Place<&Path>) -> PathBuf {
    let mut path = place.base.map(Path::to_path_buf).unwrap_or_default();
    for part in &place.parts {
        path.push(part);
    }
    path
}

#[test]
fn config_path_prefers_appdata_and_falls_back_to_the_working_directory() {
    let with = joined(&config_path_from(Some(Path::new("C:/Users/x/AppData/Roaming"))));
    assert!(with.ends_with(format!("{APP_DIR}/config.toml")));
    assert_eq!(joined(&config_path_from(None)), PathBuf::from("config.toml"));
}

#[test]
fn log_dirs_try_local_appdata_then_temp() {
    let dirs: Vec<PathBuf> = log_dirs_from(
        Some(Path::new("C:/Users/x/AppData/Local")),
        Path::new("C:/Temp"),
    )
    .iter()
    .map(joined)
    .collect();
    assert_eq!(dirs.len(), 2);
    assert!(dirs[0].starts_with("C:/Users/x/AppData/Local"));
    assert!(dirs[1].starts_with("C:/Temp"));
    assert!(dirs.iter().all(|d| d.ends_with(format!("{APP_DIR}/logs"))));
}

#[test]
fn without_local_appdata_the_temp_dir_is_the_only_candidate() {
    let dirs = log_dirs_from(None, Path::new("/tmp"));
    assert_eq!(dirs.len(), 1);
    assert!(joined(&dirs[0]).starts_with("/tmp"));
}

#[test]
fn a_relative_local_appdata_is_not_a_location_this_cleanup_will_accept() {
    let root = |local: Option<&'static Path>| {
        app_data_root_from(local, local.is_some_and(Path::is_absolute))
            .map(|place| joined(&place))
    };
    assert_eq!(root(None), None);
    assert_eq!(root(Some(Path::new("AppData/Local"))), None);
    assert_eq!(root(Some(Path::new(""))), None);

    let absolute = Path::new("/Users/x/Library");
    assert_eq!(root(Some(absolute)), Some(absolute.join(APP_DIR)));
}

#[test]
fn the_retired_key_table_picks_one_arm_per_outcome() {
    let keys = vec![
        "capture.filter".to_owned(),
        "forward.server_to_client".to_owned(),
    ];
    assert_eq!(
        RetiredKeys::classify(&Vec::new(), Ok(None)),
        RetiredKeys::Absent
    );
    assert_eq!(
        RetiredKeys::classify(&keys, Ok(Some("capture.filter".to_owned()))),
        RetiredKeys::Removed("capture.filter".to_owned())
    );
    assert_eq!(
        RetiredKeys::classify(&keys, Ok(None)),
        RetiredKeys::AlreadyGone("capture.filter, forward.server_to_client".to_owned())
    );
    let err = Error::Config("nope".to_owned());
    assert_eq!(
        RetiredKeys::classify(&keys, Err(err)),
        RetiredKeys::NotRewritten {
            keys: "capture.filter, forward.server_to_client".to_owned(),
            error: "invalid configuration: nope".to_owned(),
        }
    );
}

#[test]
fn a_config_with_no_retired_key_reports_nothing_and_rewrites_nothing() {
    // No keys means the file is never even read again.
    let keys = retired_keys(Vec::new(), Vec::new());
    assert!(!needs_stripping(&keys));
    let outcome = RetiredKeys::classify(&keys, Ok(None));
    assert_eq!(outcome, RetiredKeys::Absent);
    assert!(outcome.report().is_none());
    assert_eq!(strip_and_report_retired_keys(&keys, Ok(None)), None);
}

#[test]
fn a_report_names_the_keys_and_the_error() {
    let keys = vec!["capture.filter".to_owned(), "forward.x".to_owned()];
    let removed = strip_and_report_retired_keys(&keys, Ok(Some("forward.x".to_owned())));
    assert_eq!(
        removed,
        Some(Warning {
            line: "these config keys were already being ignored and have now been removed from config.toml; no setting of yours was changed",
            keys: "forward.x".to_owned(),
            error: None,
        })
    );
    let gone = strip_and_report_retired_keys(&keys, Ok(None)).expect("a warning");
    assert_eq!(gone.keys, "capture.filter, forward.x");
    assert_eq!(gone.error, None);
    assert!(gone.line.ends_with("so nothing was written"));
    let failed = Err(Error::Config("nope".to_owned()));
    let failed = strip_and_report_retired_keys(&keys, failed).expect("a warning");
    assert_eq!(failed.keys, "capture.filter, forward.x");
    assert_eq!(failed.error, Some("invalid configuration: nope".to_owned()));
    assert!(failed.line.ends_with("could not be rewritten to drop them"));
}

#[test]
fn seeding_never_overwrites_an_existing_config() {
    assert_eq!(seed_config_if_missing(true, true), Seeding::Keep);
    assert_eq!(seed_config_if_missing(true, false), Seeding::Keep);
}

#[test]
fn seeding_creates_the_parent_and_writes_the_bundled_example() {
    assert_eq!(
        seed_config_if_missing(false, true),
        Seeding::Write { make_folder: true }
    );
    assert_eq!(
        seed_config_if_missing(false, false),
        Seeding::Write { make_folder: false }
    );
}

#[test]
fn only_a_clean_window_over_a_live_session_exits_zero() {
    assert_eq!(exit_code(true, false), EXIT_SUCCESS);
    for (window, failed) in [(true, true), (false, false), (false, true)] {
        assert_eq!(
            exit_code(window, failed),
            EXIT_FAILURE,
            "window_closed_cleanly={window} session_failed={failed}"
        );
    }
}

#[test]
fn a_console_run_ends_as_its_session_did() {
    let clean = console_ending(Some(Ok(())), false, 10);
    assert_eq!((clean.code, clean.said), (EXIT_SUCCESS, None));
    assert_eq!(console_ending(Some(Ok(())), true, 10).code, EXIT_FAILURE);
    let failed = console_ending(Some(Err(Error::Fatal("dead".to_owned()))), false, 10);
    assert_eq!(failed.code, EXIT_FAILURE);
    assert_eq!(failed.said.as_deref(), Some("Fatal error: dead"));
    let silent = console_ending(None, true, 10);
    assert_eq!(silent.code, EXIT_FAILURE);
    assert_eq!(
        silent.said.as_deref(),
        Some("The session did not finish within 10 s of being asked to stop; exiting anyway.")
    );
}

#[test]
fn a_windowed_run_ends_as_its_window_and_session_did() {
    assert_eq!(window_ending(Ok(()), false, false).code, EXIT_SUCCESS);
    assert_eq!(window_ending(Ok(()), true, false).code, EXIT_FAILURE);
    assert_eq!(window_ending(Ok(()), false, true).code, EXIT_FAILURE);
    let broken = window_ending(Err("no display".to_owned()), false, false);
    assert_eq!(broken.code, EXIT_FAILURE);
    assert_eq!(broken.said.as_deref(), Some("GUI error: no display"));
}

#[test]
fn a_log_goes_to_the_first_place_that_takes_it() {
    let mut setup = LogSetup::new();
    assert!(!setup.record("a", Err("denied".to_owned())));
    assert_eq!(setup.report().0, LogLevel::Error);
    assert!(setup.record("b", Ok(())));
    assert_eq!(setup.report().0, LogLevel::Warn);
    assert_eq!(setup.destination(), Some(&"b"));
    assert_eq!(setup.refusals(), &vec![("a", "denied".to_owned())]);
    assert_eq!(no_log_file_line(true), None);
    assert!(no_log_file_line(false).is_some_and(|line| line.contains("no log file")));
}

#[test]
fn invalid_settings_name_their_file() {
    let error = Error::Config("x".to_owned());
    assert_eq!(
        invalid_config_message(&error, "c.toml"),
        "Invalid configuration: invalid configuration: x\n\nFix c.toml and restart."
    );
}
