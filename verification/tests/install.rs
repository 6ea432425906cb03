//! Fetching, checking and launching the installer.

use arkyve_refresh_shop::install::{
    accepts_a_start, arguments, download, prepare_staging, staging_name, sweep_old_staging,
    verify_digest, verify_size, write_new, Errand, Fetched, Fetcher, Pin, Progress, Staging, Step,
    Unwritten, STAGING_DACL, STAGING_PREFIX,
};
use arkyve_refresh_shop::startup::APP_DIR;

fn pin() -> Pin {
    Pin {
        url: "https://example.com/setup.exe".to_owned(),
        bytes: 1_200_000,
        sha256: [7; 32],
        file_name: "setup.exe".to_owned(),
    }
}

#[test]
fn a_fresh_fetcher_is_idle() {
    assert_eq!(Fetcher::new().progress(), Progress::Idle);
}

#[test]
fn a_second_click_cannot_take_a_fetch_that_is_already_claimed() {
    let mut fetcher = Fetcher::new();
    assert!(fetcher.claim(), "the first click owns the fetch");
    assert_eq!(
        fetcher.progress(),
        Progress::Fetching,
        "the claim has to be visible before `start` returns, not once the worker runs"
    );
    assert!(!fetcher.claim(), "the second click must find it taken");
}

#[test]
fn a_window_side_failure_lands_in_the_same_cell() {
    let mut fetcher = Fetcher::new();
    fetcher.set(Progress::Launched);
    fetcher.restart_failed("could not restart: access denied".to_owned());
    assert!(matches!(fetcher.progress(), Progress::RestartFailed(reason)
        if reason.contains("could not restart")));
}

#[test]
fn a_failed_restart_is_not_a_failed_download() {
    let mut fetcher = Fetcher::new();
    fetcher.set(Progress::Launched);
    fetcher.restart_failed("could not restart: access denied".to_owned());
    assert!(
        !matches!(fetcher.progress(), Progress::Failed(_)),
        "a failed restart must not read as a failed download"
    );
}

#[test]
fn starting_twice_does_not_launch_two_workers() {
    let mut fetcher = Fetcher::new();
    fetcher.set(Progress::Fetching);
    assert!(fetcher.start().is_none());
    assert_eq!(fetcher.progress(), Progress::Fetching);
}

#[test]
fn nothing_starts_a_second_installer_once_one_is_running() {
    for state in [
        Progress::Launched,
        Progress::RestartFailed("could not restart: access denied".to_owned()),
    ] {
        assert!(
            !accepts_a_start(&state),
            "a start from {state:?} must be refused"
        );
    }
    // And the states that mean "nothing is running" still may.
    assert!(accepts_a_start(&Progress::Idle));
    assert!(accepts_a_start(&Progress::Failed("no network".to_owned())));
}

#[test]
fn a_short_file_is_refused_before_it_is_read() {
    let err = verify_size(Ok(16), &pin()).expect_err("a 16-byte file is not the installer");
    assert!(err.contains("not the expected"), "got: {err}");
    assert_eq!(
        err,
        "the download is 16 bytes, not the expected 1200000 — it is not the installer"
    );
}

#[test]
fn the_installer_is_never_written_over_something_already_there() {
    let err = write_new(Err(Unwritten::NotCreated {
        path: "t/setup.exe".to_owned(),
        error: "file exists".to_owned(),
    }))
    .expect_err("must refuse an occupied path");
    assert!(err.contains("could not be written"), "got: {err}");
    assert_eq!(
        err,
        "the installer could not be written to t/setup.exe: file exists"
    );
    assert_eq!(
        write_new(Err(Unwritten::NotFilled("disk full".to_owned()))),
        Err("the installer could not be written: disk full".to_owned())
    );
    assert_eq!(write_new(Ok(())), Ok(()));
}

#[test]
fn an_earlier_runs_staging_directory_is_swept_and_its_neighbours_are_not() {
    assert!(sweep_old_staging(
        &format!("{STAGING_PREFIX}older-run"),
        false
    ));
    assert!(!sweep_old_staging(
        &format!("{STAGING_PREFIX}this-run"),
        true
    ));
    assert!(!sweep_old_staging(APP_DIR, false));
    let name = staging_name(4321, 0xab_cdef);
    assert_eq!(name, format!("{STAGING_PREFIX}4321-abcdef"));
    assert!(sweep_old_staging(&name, false));
}

fn ok() -> Result<(), String> {
    Ok(())
}

fn err(reason: &str) -> Result<(), String> {
    Err(reason.to_owned())
}

#[test]
fn a_fresh_download_is_checked_before_it_is_launched() {
    let mut fetcher = Fetcher::new();
    let mut errand = fetcher.start().expect("nothing is in flight");
    let script = [
        (Step::Stage, ok()),
        (Step::OpenExisting, err("not found")),
        (Step::RemoveStale, ok()),
        (Step::Download, ok()),
        (Step::WriteNew, ok()),
        (Step::Reopen, ok()),
        (Step::CheckFresh, ok()),
        (Step::Launch, ok()),
    ];
    for (step, outcome) in script {
        assert_eq!(errand.step(), step);
        assert_eq!(
            errand.holds(),
            matches!(step, Step::CheckFresh | Step::Launch)
        );
        if let Some(shown) = errand.next(outcome) {
            fetcher.set(shown);
        }
    }
    assert_eq!(errand.step(), Step::Finished);
    assert_eq!(fetcher.progress(), Progress::Launched);
}

#[test]
fn a_checked_copy_is_launched_without_a_download() {
    let mut errand = Errand::begin();
    assert!(errand.next(ok()).is_none());
    assert!(errand.next(ok()).is_none());
    assert_eq!(errand.next(ok()), Some(Progress::Checking));
    assert_eq!(errand.step(), Step::Launch);
    assert_eq!(
        errand.next(err("denied")),
        Some(Progress::Failed(
            "the installer downloaded but would not start: denied".to_owned()
        ))
    );
}

#[test]
fn a_download_that_fails_its_check_is_discarded() {
    let mut errand = Errand::begin();
    for outcome in [ok(), ok(), err("old"), ok(), ok(), ok(), ok()] {
        let _ = errand.next(outcome);
    }
    assert_eq!(errand.step(), Step::CheckFresh);
    assert!(errand.next(err("wrong digest")).is_none());
    assert_eq!(errand.step(), Step::Discard);
    assert!(!errand.holds());
    assert_eq!(
        errand.next(ok()),
        Some(Progress::Failed("wrong digest".to_owned()))
    );
}

#[test]
fn every_failing_step_says_so() {
    let failing = |steps: usize| {
        let mut errand = Errand::begin();
        for outcome in [ok(), err("none"), ok(), ok(), ok()].into_iter().take(steps) {
            let _ = errand.next(outcome);
        }
        errand.next(err("why"))
    };
    let failed = |text: &str| Some(Progress::Failed(text.to_owned()));
    assert_eq!(failing(0), failed("why"));
    assert_eq!(failing(3), failed("why"));
    assert_eq!(failing(4), failed("why"));
    assert_eq!(
        failing(5),
        failed("the downloaded installer could not be re-opened: why")
    );
    let mut fetcher = Fetcher::new();
    fetcher.worker_refused("no threads");
    assert_eq!(
        fetcher.progress(),
        Progress::Failed("could not start the download: no threads".to_owned())
    );
}

#[test]
fn the_staging_directory_is_secured_and_found_empty() {
    let mut step = Staging::Sweep;
    for _ in 0..4 {
        let (next, refusal) = prepare_staging(step, Ok(false));
        assert_eq!(refusal, None);
        step = next;
    }
    assert_eq!(step, Staging::Ready);
    assert_eq!(
        prepare_staging(Staging::Create, Err("exists".to_owned())),
        (
            Staging::Refused,
            Some("the installer's download directory could not be created (exists); nothing was downloaded".to_owned())
        )
    );
    let (next, refusal) = prepare_staging(Staging::Secure, Err("denied".to_owned()));
    assert_eq!(next, Staging::RemoveEmpty);
    assert!(refusal.is_some_and(|said| said.contains("could not be secured (denied)")));
    let (next, refusal) = prepare_staging(Staging::ReadBack, Ok(true));
    assert_eq!(next, Staging::RemoveAll);
    assert!(refusal.is_some_and(|said| said.starts_with("something was written")));
    let (next, refusal) = prepare_staging(Staging::ReadBack, Err("gone".to_owned()));
    assert_eq!(next, Staging::RemoveAll);
    assert!(refusal.is_some_and(|said| said.contains("could not be read back (gone)")));
    assert_eq!(prepare_staging(next, Ok(false)), (Staging::Refused, None));
    assert!(STAGING_DACL.starts_with("D:P"));
}

#[test]
fn the_downloader_reads_no_settings_of_its_own() {
    let list = arguments(&pin());
    assert_eq!(list[0], "--disable");
    assert_eq!(list[5..7], ["--max-time", "120"]);
    assert_eq!(list[7..9], ["--max-filesize", "1200000"]);
    assert_eq!(list.last().map(String::as_str), Some("https://example.com/setup.exe"));
}

#[test]
fn a_download_gives_its_bytes_or_a_reason() {
    let exited = |success: bool, code: Option<i32>| Fetched::Exited {
        success,
        code,
        printed: vec![1, 2, 3],
    };
    assert_eq!(download(exited(true, Some(0))), Ok(vec![1, 2, 3]));
    assert_eq!(
        download(exited(false, Some(22))),
        Err("the download failed (curl exit 22). The address is in the log.".to_owned())
    );
    assert_eq!(
        download(exited(false, None)),
        Err("the download failed (curl exit -1). The address is in the log.".to_owned())
    );
    assert_eq!(
        download(Fetched::NoDownloader),
        Err("this Windows has no curl.exe to download with".to_owned())
    );
    assert_eq!(
        download(Fetched::NotStarted("denied".to_owned())),
        Err("the download could not be started: denied".to_owned())
    );
}

#[test]
fn only_the_pinned_digest_passes() {
    assert_eq!(verify_digest(Ok([7; 32]), &pin()), Ok(()));
    let mut other = [7; 32];
    other[31] = 8;
    assert_eq!(
        verify_digest(Ok(other), &pin()),
        Err("the download does not match the expected installer and was discarded".to_owned())
    );
    assert!(verify_digest(Err("io".to_owned()), &pin()).is_err());
    assert_eq!(verify_size(Ok(1_200_000), &pin()), Ok(()));
    assert_eq!(
        verify_size(Err("io".to_owned()), &pin()),
        Err("the downloaded file could not be read: io".to_owned())
    );
}
