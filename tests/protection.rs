use capcut_version_guard::natural::sort_versions;
use capcut_version_guard::protection::{
    is_target_running, Action, Event, Place, ProgressStep, ProtectionParams, ProtectionRun, Stage,
};
use capcut_version_guard::versions::{heuristic_deletions, paths_at, VersionInfo};

fn strings(xs: &[&str]) -> Vec<String> {
    xs.iter().map(|x| x.to_string()).collect()
}

fn params(paths: Vec<String>, cache: bool, lock: bool, blockers: bool) -> ProtectionParams {
    ProtectionParams { versions_to_delete: paths, clean_cache: cache, lock_config: lock, create_blockers: blockers }
}

/// Drives a run with a simulated machine that succeeds at every action, and
/// records the actions asked for and the stages passed through.
fn drive_ok(mut run: ProtectionRun, config: &str) -> (ProtectionRun, Vec<String>, Vec<Stage>) {
    let mut asked = Vec::new();
    let mut stages = vec![run.stage()];
    for _ in 0..100 {
        let event = match run.action() {
            Action::Stop => return (run, asked, stages),
            Action::ListProcesses => {
                asked.push("list".to_string());
                Event::Processes(strings(&["explorer.exe", "capcut", "CapCutHelper.exe"]))
            }
            Action::DeleteVersion(p) => {
                asked.push(format!("delete {}", p));
                Event::Outcome(Ok(()))
            }
            Action::CleanCache => {
                asked.push("cache".to_string());
                Event::CacheLogs(strings(&["cache a", "cache b"]))
            }
            Action::ReadConfig => {
                asked.push("read".to_string());
                Event::ConfigText(config.to_string())
            }
            Action::WriteConfig(t) => {
                asked.push(format!("write {}", t));
                Event::Outcome(Ok(()))
            }
            Action::InstallPlaceholder(p) => {
                asked.push(format!("placeholder {:?}", p));
                Event::Outcome(Ok(()))
            }
            Action::CreateDirs(p) => {
                asked.push(format!("mkdir {:?}", p));
                Event::Outcome(Ok(()))
            }
        };
        run.advance(event);
        if stages.last() != Some(&run.stage()) {
            stages.push(run.stage());
        }
    }
    panic!("run did not stop");
}

#[test]
fn end_to_end_heuristic_run() {
    let scanned = sort_versions(vec![
        VersionInfo { name: "3.2.0".to_string(), path: "/apps/3.2.0".to_string(), size_bytes: 3 },
        VersionInfo { name: "1.5.0".to_string(), path: "/apps/1.5.0".to_string(), size_bytes: 1 },
        VersionInfo { name: "2.9.0".to_string(), path: "/apps/2.9.0".to_string(), size_bytes: 2 },
    ]);
    let doomed = paths_at(&scanned, &heuristic_deletions(&scanned));
    assert_eq!(doomed, strings(&["/apps/3.2.0"]));
    let run = ProtectionRun::full(params(doomed, false, true, true), true);
    let (run, asked, stages) = drive_ok(run, "foo=1\nlast_version=3.2.0.1\n");
    assert_eq!(
        asked,
        strings(&[
            "list",
            "delete /apps/3.2.0",
            "read",
            "write foo=1\nlast_version=1.0.0.0",
            "placeholder ProductInfo",
            "mkdir DownloadDir",
            "placeholder UpdateExe",
        ])
    );
    assert_eq!(
        stages,
        vec![
            Stage::CheckingProcess,
            Stage::CleaningVersions,
            Stage::LockingConfig,
            Stage::CreatingBlockers,
            Stage::Complete
        ]
    );
    let result = run.into_result();
    assert!(result.success);
    assert_eq!(result.error, None);
    assert_eq!(
        result.logs,
        strings(&[
            "Checking system state...",
            "[OK] No running instances",
            "Deleting: 3.2.0",
            "[OK] Deleted 1 version(s)",
            "Skipping cache cleaning (disabled)",
            "Modifying config...",
            "[OK] Configuration locked",
            "Creating blockers...",
            "[OK] Update blockers created",
        ])
    );
}

#[test]
fn running_application_halts_before_any_change() {
    let mut run = ProtectionRun::full(params(strings(&["/apps/3.2.0"]), true, true, true), true);
    assert_eq!(run.stage(), Stage::CheckingProcess);
    assert!(matches!(run.action(), Action::ListProcesses));
    run.advance(Event::Processes(strings(&["svchost.exe", "CapCut.exe"])));
    assert_eq!(run.stage(), Stage::Failed);
    assert!(matches!(run.action(), Action::Stop));
    let result = run.into_result();
    assert!(!result.success);
    assert_eq!(result.error.as_deref(), Some("CapCut is still running. Please close it."));
    assert_eq!(result.logs, strings(&["Checking system state..."]));
}

#[test]
fn target_names_match_exactly() {
    assert!(is_target_running(&strings(&["a", "CapCut"])));
    assert!(is_target_running(&strings(&["CapCut.exe"])));
    assert!(!is_target_running(&strings(&["capcut.exe", "CapCut Helper", "CapCut.exe "])));
    assert!(!is_target_running(&Vec::new()));
}

#[test]
fn failed_removal_names_directory_and_cause() {
    let mut run = ProtectionRun::full(params(strings(&["/apps/2.9.0", "/apps/3.2.0"]), false, true, true), true);
    run.advance(Event::Processes(Vec::new()));
    assert!(matches!(run.action(), Action::DeleteVersion(ref p) if p == "/apps/2.9.0"));
    run.advance(Event::Outcome(Ok(())));
    assert!(matches!(run.action(), Action::DeleteVersion(ref p) if p == "/apps/3.2.0"));
    run.advance(Event::Outcome(Err("Access is denied.".to_string())));
    assert_eq!(run.stage(), Stage::Failed);
    let result = run.into_result();
    assert_eq!(result.error.as_deref(), Some("Failed to delete 3.2.0: Access is denied."));
    assert_eq!(
        result.logs,
        strings(&[
            "Checking system state...",
            "[OK] No running instances",
            "Deleting: 2.9.0",
            "Deleting: 3.2.0",
        ])
    );
}

#[test]
fn config_write_failure_ends_run() {
    let mut run = ProtectionRun::lock(true, true, true);
    assert!(matches!(run.action(), Action::ReadConfig));
    run.advance(Event::ConfigText(String::new()));
    assert!(matches!(run.action(), Action::WriteConfig(ref t) if t == "last_version=1.0.0.0"));
    run.advance(Event::Outcome(Err("disk full".to_string())));
    let result = run.into_result();
    assert!(!result.success);
    assert_eq!(result.error.as_deref(), Some("disk full"));
    assert_eq!(result.logs, strings(&["Modifying config..."]));
}

#[test]
fn blocker_failure_ends_run() {
    let mut run = ProtectionRun::lock(false, true, true);
    assert!(matches!(run.action(), Action::InstallPlaceholder(Place::ProductInfo)));
    run.advance(Event::Outcome(Ok(())));
    assert!(matches!(run.action(), Action::CreateDirs(Place::DownloadDir)));
    run.advance(Event::Outcome(Err("denied".to_string())));
    assert_eq!(run.stage(), Stage::Failed);
    let result = run.into_result();
    assert_eq!(result.error.as_deref(), Some("denied"));
    assert_eq!(result.logs, strings(&["Skipping config lock (disabled)", "Creating blockers..."]));
}

#[test]
fn missing_location_fails_after_process_check() {
    let mut run = ProtectionRun::full(params(strings(&["/apps/3.2.0"]), false, true, false), false);
    assert_eq!(run.stage(), Stage::CheckingProcess);
    assert!(matches!(run.action(), Action::ListProcesses));
    run.advance(Event::Processes(strings(&["explorer.exe"])));
    assert_eq!(run.stage(), Stage::Failed);
    assert!(matches!(run.action(), Action::Stop));
    let result = run.into_result();
    assert_eq!(result.error.as_deref(), Some("Failed to get LOCALAPPDATA"));
    assert_eq!(result.logs, strings(&["Checking system state...", "[OK] No running instances"]));
    let lock_only = ProtectionRun::lock(true, true, false).into_result();
    assert_eq!(lock_only.error.as_deref(), Some("Failed to get LOCALAPPDATA"));
    assert!(lock_only.logs.is_empty());
}

#[test]
fn running_application_reported_even_without_location() {
    let mut run = ProtectionRun::full(params(Vec::new(), false, true, true), false);
    run.advance(Event::Processes(strings(&["CapCut"])));
    let result = run.into_result();
    assert_eq!(result.error.as_deref(), Some("CapCut is still running. Please close it."));
    assert_eq!(result.logs, strings(&["Checking system state..."]));
}

#[test]
fn disabled_stages_are_logged_and_skipped() {
    let run = ProtectionRun::full(params(Vec::new(), true, false, false), false);
    let (run, asked, _) = drive_ok(run, "");
    assert_eq!(asked, strings(&["list", "cache"]));
    let result = run.into_result();
    assert!(result.success);
    assert_eq!(
        result.logs,
        strings(&[
            "Checking system state...",
            "[OK] No running instances",
            "[OK] No versions to delete",
            "Cleaning cache directories...",
            "cache a",
            "cache b",
            "Skipping protection (all options disabled)",
        ])
    );
}

#[test]
fn removal_alone_counts_deletions() {
    let paths: Vec<String> = (0..12).map(|i| format!("/apps/v{}", i)).collect();
    let (run, asked, _) = drive_ok(ProtectionRun::removal(paths), "");
    assert_eq!(asked.len(), 12);
    let result = run.into_result();
    assert!(result.success);
    assert_eq!(result.logs.len(), 13);
    assert_eq!(result.logs[12], "[OK] Deleted 12 version(s)");
    let empty = ProtectionRun::removal(Vec::new()).into_result();
    assert_eq!(empty.logs, strings(&["[OK] No versions to delete"]));
}

#[test]
fn unexpected_event_changes_nothing() {
    let mut run = ProtectionRun::full(params(Vec::new(), false, false, false), true);
    run.advance(Event::Outcome(Ok(())));
    assert_eq!(run.stage(), Stage::CheckingProcess);
    assert_eq!(run.logs(), &strings(&["Checking system state..."]));
}

#[test]
fn progress_steps_are_numbered_in_order() {
    assert_eq!(ProgressStep::Scanning.index(), 0);
    assert_eq!(ProgressStep::CleaningVersions.index(), 1);
    assert_eq!(ProgressStep::LockingConfig.index(), 2);
    assert_eq!(ProgressStep::CreatingBlockers.index(), 3);
    assert_eq!(ProgressStep::Done.index(), 4);
}

#[test]
fn places_have_their_layout() {
    assert_eq!(Place::UpdateExe.segments(), strings(&["User Data", "Download", "update.exe"]));
    assert!(!Place::UpdateExe.in_apps_dir());
    assert_eq!(Place::ProductInfo.segments(), strings(&["ProductInfo.xml"]));
    assert!(Place::ConfigFile.in_apps_dir());
}

#[test]
fn placeholder_failures_end_run() {
    let mut first = ProtectionRun::lock(false, true, true);
    first.advance(Event::Outcome(Err("cannot remove ProductInfo.xml".to_string())));
    let result = first.into_result();
    assert_eq!(result.error.as_deref(), Some("cannot remove ProductInfo.xml"));

    let mut last = ProtectionRun::lock(false, true, true);
    last.advance(Event::Outcome(Ok(())));
    last.advance(Event::Outcome(Ok(())));
    assert!(matches!(last.action(), Action::InstallPlaceholder(Place::UpdateExe)));
    last.advance(Event::Outcome(Err("read-only".to_string())));
    assert_eq!(last.stage(), Stage::Failed);
    let result = last.into_result();
    assert!(!result.success);
    assert_eq!(result.error.as_deref(), Some("read-only"));
}

#[test]
fn finished_run_ignores_further_events() {
    let mut run = ProtectionRun::lock(false, false, true);
    assert_eq!(run.stage(), Stage::Complete);
    run.advance(Event::Outcome(Err("late".to_string())));
    assert_eq!(run.stage(), Stage::Complete);
    let result = run.into_result();
    assert!(result.success);
    assert_eq!(
        result.logs,
        strings(&["Skipping config lock (disabled)", "Skipping blocker creation (disabled)"])
    );
}
