use jackdaw::editor::hot_reload::{
    is_relevant_event, path_is_relevant, EventKind, HotReloadEnabled, HotReloadState, InstallFailure, PathComponent,
    ReloadAction, DEBOUNCE_WINDOW_MS,
};

fn path(s: &str) -> Vec<PathComponent> {
    let mut v = Vec::new();
    if s.starts_with('/') {
        v.push(PathComponent::RootDir);
    }
    for part in s.split('/').filter(|p| !p.is_empty()) {
        match part {
            "." => v.push(PathComponent::CurDir),
            ".." => v.push(PathComponent::ParentDir),
            p => v.push(PathComponent::Normal(p.as_bytes().to_vec())),
        }
    }
    v
}

fn relevant(p: &str) -> bool {
    path_is_relevant(&path(p), &path("/home/me/game"))
}

#[test]
fn sources_and_cargo_toml_are_relevant() {
    assert!(relevant("/home/me/game/src/main.rs"));
    assert!(relevant("/home/me/game/src/systems/move.rs"));
    assert!(relevant("/home/me/game/Cargo.toml"));
    assert!(relevant("/home/me/game/src/..rs"));
}

#[test]
fn build_output_and_git_are_ignored() {
    assert!(!relevant("/home/me/game/target/debug/build/x.rs"));
    assert!(!relevant("/home/me/game/.git/HEAD"));
    assert!(!relevant("/home/me/game/.github/workflows/x.rs"));
    // only the project's own target directory is build output
    assert!(relevant("/home/me/game/src/target/x.rs"));
}

#[test]
fn editor_scratch_files_are_ignored() {
    assert!(!relevant("/home/me/game/src/main.rs~"));
    assert!(!relevant("/home/me/game/src/#main.rs#"));
    assert!(!relevant("/home/me/game/src/.#main.rs"));
}

#[test]
fn only_sources_under_src_count() {
    assert!(!relevant("/home/me/game/build.rs"));
    assert!(!relevant("/home/me/game/examples/demo.rs"));
    assert!(relevant("/home/me/game/crates/inner/Cargo.toml"));
    let root = path("/home/me/game");
    assert!(!is_relevant_event(EventKind::Create, &vec![path("/home/me/game/build.rs")], &root));
}

#[test]
fn other_files_are_ignored() {
    assert!(!relevant("/home/me/game/src/notes.txt"));
    assert!(!relevant("/home/me/game/src/.rs"));
    assert!(!relevant("/home/me/game/src/rs"));
    assert!(!relevant("/home/me/game/src/.."));
    assert!(!relevant("/"));
    assert!(!relevant("/home/me/game/cargo.toml"));
}

#[test]
fn a_file_name_that_is_not_utf8_is_ignored() {
    let mut p = path("/home/me/game/src");
    p.push(PathComponent::Normal(vec![0x66, 0xff, 0x2e, 0x72, 0x73]));
    assert!(!path_is_relevant(&p, &path("/home/me/game")));
    let mut q = path("/home/me/game/src");
    q.push(PathComponent::Normal(vec![0x66, 0xc3, 0xa9, 0x2e, 0x72, 0x73]));
    assert!(path_is_relevant(&q, &path("/home/me/game")));
}

#[test]
fn only_creations_and_data_changes_count() {
    let root = path("/home/me/game");
    let paths = vec![path("/home/me/game/target/x.rs"), path("/home/me/game/src/lib.rs")];
    assert!(is_relevant_event(EventKind::Create, &paths, &root));
    assert!(is_relevant_event(EventKind::ModifyData, &paths, &root));
    assert!(!is_relevant_event(EventKind::ModifyAny, &paths, &root));
    assert!(!is_relevant_event(EventKind::ModifyOther, &paths, &root));
    assert!(!is_relevant_event(EventKind::Remove, &paths, &root));
    assert!(!is_relevant_event(EventKind::Access, &paths, &root));
    assert!(!is_relevant_event(EventKind::Create, &vec![path("/home/me/game/target/x.rs")], &root));
    assert!(!is_relevant_event(EventKind::Create, &Vec::new(), &root));
}

type State = HotReloadState<String, String, String>;

fn watching() -> State {
    let mut s: State = HotReloadState::new();
    assert!(State::wants_watcher(true, true));
    s.watcher_started("/home/me/game".to_string());
    s
}

#[test]
fn hot_reload_is_on_by_default() {
    assert!(HotReloadEnabled::default().0);
    assert!(!State::wants_watcher(false, true));
    assert!(!State::wants_watcher(true, false));
}

#[test]
fn a_build_waits_for_quiet_sources() {
    let mut s = watching();
    assert!(matches!(s.drain_source_changes::<String>(true, 5_000), ReloadAction::Nothing));
    s.source_changed(1_000);
    assert!(matches!(s.drain_source_changes::<String>(true, 1_000 + DEBOUNCE_WINDOW_MS - 1), ReloadAction::Nothing));
    s.source_changed(1_500);
    assert!(matches!(s.drain_source_changes::<String>(true, 2_200), ReloadAction::Nothing));
    assert!(matches!(s.drain_source_changes::<String>(true, 2_300), ReloadAction::RebuildAfterChange));
    assert!(s.build_in_flight);
    assert_eq!(s.pending, None);
    s.source_changed(2_400);
    assert!(matches!(s.drain_source_changes::<String>(true, 9_000), ReloadAction::Nothing));
}

#[test]
fn nothing_builds_when_disabled_or_unwatched() {
    let mut s = watching();
    s.source_changed(0);
    assert!(matches!(s.drain_source_changes::<String>(false, 10_000), ReloadAction::Nothing));
    s.stop_watcher();
    assert!(!s.watching);
    assert_eq!(s.pending, None);
    s.source_changed(0);
    assert!(matches!(s.drain_source_changes::<String>(true, 10_000), ReloadAction::Nothing));
}

#[test]
fn a_built_artifact_is_installed() {
    let mut s = watching();
    s.source_changed(0);
    s.drain_source_changes::<String>(true, 800);
    assert!(matches!(s.poll_reload_build::<String>(None), ReloadAction::Nothing));
    assert!(matches!(s.poll_reload_build::<String>(Some(Ok("libgame.so".to_string()))), ReloadAction::Nothing));
    assert!(!s.build_in_flight);
    assert_eq!(s.apply_pending_install(), Some("libgame.so".to_string()));
    assert_eq!(s.apply_pending_install(), None);
    s.record_install_result(Ok(()));
    assert!(matches!(s.poll_install_outcome::<String>(), ReloadAction::Nothing));
    assert!(!s.retry_attempted);
    assert!(s.install_outcome.is_none());
}

#[test]
fn a_failed_build_is_reported() {
    let mut s = watching();
    s.source_changed(0);
    s.drain_source_changes::<String>(true, 800);
    match s.poll_reload_build::<String>(Some(Err("error[E0308]".to_string()))) {
        ReloadAction::ReportBuildFailed(e) => assert_eq!(e, "error[E0308]"),
        _ => panic!("expected a report"),
    }
    assert!(!s.build_in_flight);
}

#[test]
fn a_symbol_mismatch_cleans_and_retries_once() {
    let mut s = watching();
    s.source_changed(0);
    s.drain_source_changes::<String>(true, 800);
    s.poll_reload_build::<String>(Some(Ok("a.so".to_string())));
    s.apply_pending_install();
    s.record_install_result(Err(InstallFailure { error: "undefined symbol".to_string(), symbol_mismatch: true }));
    assert!(matches!(s.poll_install_outcome::<String>(), ReloadAction::CleanAfterSdkMismatch));
    assert!(s.retry_attempted && s.clean_in_flight);
    assert!(matches!(s.poll_clean_task::<String>(None), ReloadAction::Nothing));
    assert!(matches!(s.poll_clean_task::<String>(Some(Ok(()))), ReloadAction::RebuildAfterClean));
    assert!(s.build_in_flight);
    s.poll_reload_build::<String>(Some(Ok("b.so".to_string())));
    s.apply_pending_install();
    s.record_install_result(Err(InstallFailure { error: "undefined symbol again".to_string(), symbol_mismatch: true }));
    match s.poll_install_outcome::<String>() {
        ReloadAction::ReportInstallFailed(e) => assert_eq!(e, "undefined symbol again"),
        _ => panic!("expected a report"),
    }
    assert!(!s.retry_attempted);
    assert!(!s.clean_in_flight);
}

#[test]
fn a_failed_clean_is_reported_and_clears_the_retry() {
    let mut s = watching();
    s.install_outcome = Some(Some(Err(InstallFailure { error: "x".to_string(), symbol_mismatch: true })));
    assert!(matches!(s.poll_install_outcome::<String>(), ReloadAction::CleanAfterSdkMismatch));
    match s.poll_clean_task::<String>(Some(Err("cargo clean failed".to_string()))) {
        ReloadAction::ReportCleanFailed(e) => assert_eq!(e, "cargo clean failed"),
        _ => panic!("expected a report"),
    }
    assert!(!s.retry_attempted);
}

#[test]
fn a_mismatch_without_a_project_is_reported() {
    let mut s: State = HotReloadState::new();
    s.install_outcome = Some(Some(Err(InstallFailure { error: "x".to_string(), symbol_mismatch: true })));
    assert!(matches!(s.poll_install_outcome::<String>(), ReloadAction::ReportNoProjectDir));
    assert!(s.retry_attempted);
    assert!(!s.clean_in_flight);
}

#[test]
fn another_install_failure_is_reported() {
    let mut s = watching();
    s.install_outcome = Some(None);
    s.record_install_result(Err(InstallFailure { error: "bad file".to_string(), symbol_mismatch: false }));
    assert!(matches!(s.poll_install_outcome::<String>(), ReloadAction::ReportInstallFailed(_)));
}

#[test]
fn an_install_result_without_a_channel_is_dropped() {
    let mut s = watching();
    s.record_install_result(Ok(()));
    assert!(s.install_outcome.is_none());
    assert!(matches!(s.poll_install_outcome::<String>(), ReloadAction::Nothing));
}
