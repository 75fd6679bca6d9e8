use amautum_transcriptor::config::{
    downloads_url, os_label, support_url, urlencode, user_agent, version, Arch, Host, Os,
    UPDATE_CHECK_DELAY_SECS, UPDATE_CHECK_INTERVAL_SECS, UPLOAD_RETRY_DELAY_SECS,
    UPLOAD_RETRY_INTERVAL_SECS,
};
use amautum_transcriptor::pipeline::{Clock, JobEvent, JobRun};
use amautum_transcriptor::state::{AppState, JobChange};
use amautum_transcriptor::types::{
    AgentCallbacks, AgentTriggerPayload, JobStage, WhisperModel,
};
use amautum_transcriptor::updates::{
    asset_name, check, install_step, install_update, is_clean_semver, is_idle, is_newer,
    platform_triplet, release_notes_url, releases_page, InstallAction, InstallEvent, InstallPhase,
    BUSY_MESSAGE, INSTALLED_WHILE_BUSY, RESTARTING, UP_TO_DATE_MESSAGE,
};

const LINUX: Host = Host { os: Os::Linux, arch: Arch::X64 };
const MAC: Host = Host { os: Os::MacOs, arch: Arch::Arm64 };
const WINDOWS: Host = Host { os: Os::Windows, arch: Arch::X64 };

fn payload(id: &str) -> AgentTriggerPayload {
    AgentTriggerPayload {
        job_id: id.to_string(),
        token: "t".to_string(),
        audio_file_path: "/audios/a.mp3".to_string(),
        callbacks: AgentCallbacks {
            progress: "p".to_string(),
            transcript: "t".to_string(),
            fail: "f".to_string(),
        },
        model: WhisperModel::Base,
        language: "es".to_string(),
        file_size: None,
        diarize: false,
        num_speakers: None,
    }
}

fn last_log(state: &AppState) -> (String, String) {
    let logs = state.recent_logs();
    let last = logs.last().unwrap();
    (last.level.to_string(), last.text.clone())
}

// ── Links ───────────────────────────────────────────────────────────────────

#[test]
fn support_url_escapes_the_context() {
    let url = support_url(Some("audiencia & prueba\nlínea 2"), LINUX);
    assert!(url.contains("app=transcriptor"), "{url}");
    assert!(url.contains("%26"), "el & sin escapar corta la URL: {url}");
    assert!(!url.contains('\n'), "salto de línea crudo en la URL: {url}");
    assert!(!url.contains(" & "), "{url}");
}

#[test]
fn support_url_without_context_has_no_ctx() {
    let url = support_url(None, LINUX);
    assert!(!url.contains("ctx="), "{url}");
    assert!(url.contains("os="), "{url}");
}

#[test]
fn support_url_is_exact() {
    assert_eq!(
        support_url(Some("ñ ~"), MAC),
        "https://www.amautum.com/dashboard/support?app=transcriptor&v=0.1.13&os=macOS%20arm64&ctx=%C3%B1%20~"
    );
}

#[test]
fn support_context_is_cut_by_characters() {
    let long = "é".repeat(500);
    let url = support_url(Some(&long), LINUX);
    assert!(url.ends_with(&format!("&ctx={}", "%C3%A9".repeat(400))));
}

#[test]
fn urlencode_keeps_the_unreserved() {
    assert_eq!(urlencode("aZ09-_.~"), "aZ09-_.~");
    assert_eq!(urlencode("a b/é\u{1F600}"), "a%20b%2F%C3%A9%F0%9F%98%80");
    assert_eq!(urlencode(""), "");
}

#[test]
fn fixed_links_and_names() {
    assert_eq!(downloads_url(), "https://www.amautum.com/downloads/transcriptor");
    assert_eq!(user_agent(), "AmautumTranscriptorAgent/0.1.13");
    assert_eq!(version(), "0.1.13");
    assert_eq!(os_label(WINDOWS), "Windows x64");
    assert_eq!(os_label(MAC), "macOS arm64");
}

// ── Versions ────────────────────────────────────────────────────────────────

#[test]
fn compares_numerically_not_lexicographically() {
    assert!(is_newer("0.1.10", "0.1.9"));
    assert!(is_newer("0.2.0", "0.1.99"));
    assert!(!is_newer("0.1.9", "0.1.10"));
    assert!(!is_newer("0.1.11", "0.1.11"));
}

#[test]
fn rejects_tags_that_are_not_clean_semver() {
    assert!(is_clean_semver("0.1.11"));
    assert!(!is_clean_semver("0.1"));
    assert!(!is_clean_semver("0.1.11-rc1"));
    assert!(!is_clean_semver("latest"));
    assert!(!is_clean_semver(""));
}

#[test]
fn asset_name_follows_release_convention() {
    for host in [LINUX, MAC, WINDOWS] {
        let name = asset_name("0.1.11", host);
        assert!(name.starts_with("AmautumTranscriptor-0.1.11-"), "{name}");
        assert!(
            name.ends_with(".dmg") || name.ends_with(".msi") || name.ends_with(".AppImage"),
            "{name}"
        );
    }
}

#[test]
fn versions_with_odd_parts() {
    assert!(!is_clean_semver("1..2"));
    assert!(!is_clean_semver("1.2.3.4"));
    assert!(is_newer("1", "0.9.9"));
    assert!(is_newer("0.0.1", "0.0.x"));
    assert!(!is_newer("99999999999.0.0", "1.0.0"));
    assert!(is_newer("+1.0.0", "0.9.0"));
}

#[test]
fn newer_is_a_strict_order_on_some_versions() {
    let all = ["0.1.9", "0.1.10", "0.2.0", "1.0.0"];
    for (i, a) in all.iter().enumerate() {
        for (k, b) in all.iter().enumerate() {
            assert_eq!(is_newer(a, b), i > k, "{a} {b}");
        }
    }
}

#[test]
fn installers_of_each_machine() {
    assert_eq!(platform_triplet(MAC), ("macos", "arm64", "dmg"));
    assert_eq!(
        platform_triplet(Host { os: Os::MacOs, arch: Arch::X64 }),
        ("macos", "x64", "dmg")
    );
    assert_eq!(platform_triplet(WINDOWS), ("windows", "x64", "msi"));
    assert_eq!(
        platform_triplet(Host { os: Os::Linux, arch: Arch::Arm64 }),
        ("linux", "x64", "AppImage")
    );
    assert_eq!(asset_name("1.2.3", WINDOWS), "AmautumTranscriptor-1.2.3-windows-x64.msi");
}

#[test]
fn a_release_becomes_an_offer() {
    let info = check(Some(" vv0.2.0\n"), MAC).unwrap();
    assert_eq!(info.current, "0.1.13");
    assert_eq!(info.latest, "0.2.0");
    assert!(info.available);
    assert_eq!(
        info.download_url,
        "https://github.com/Sugestion-Studio/amautum-transcriptor/releases/download/v0.2.0/AmautumTranscriptor-0.2.0-macos-arm64.dmg"
    );
    assert_eq!(
        info.notes_url,
        "https://github.com/Sugestion-Studio/amautum-transcriptor/releases/tag/v0.2.0"
    );
    assert!(!check(Some("v0.1.13"), MAC).unwrap().available);
}

#[test]
fn an_odd_tag_gives_no_link() {
    assert!(check(None, MAC).is_none());
    assert!(check(Some("nightly"), MAC).is_none());
    assert!(check(Some("v1.2.3-beta"), MAC).is_none());
}

#[test]
fn pages_of_releases() {
    assert_eq!(
        releases_page(),
        "https://github.com/Sugestion-Studio/amautum-transcriptor/releases/latest"
    );
    assert_eq!(
        release_notes_url(),
        "https://github.com/Sugestion-Studio/amautum-transcriptor/releases/tag/v0.1.13"
    );
}

// ── Installing ──────────────────────────────────────────────────────────────

/// No transcript on disk.
fn none() -> Vec<String> {
    Vec::new()
}

#[test]
fn an_idle_agent_installs_and_restarts() {
    let mut state = AppState::new();
    assert!(is_idle(&state, &none()));
    let (phase, action) = install_update(&mut state, &none(), true, 1);
    assert!(matches!(action, InstallAction::OpenUpdater));
    let (phase, action) = install_step(phase, &mut state, &none(), InstallEvent::Opened(Ok(())), 2);
    assert!(matches!(action, InstallAction::CheckForUpdate));
    let found = InstallEvent::Checked(Ok(Some("0.2.0".to_string())));
    let (phase, action) = install_step(phase, &mut state, &none(), found, 3);
    assert!(matches!(action, InstallAction::DownloadAndInstall));
    assert_eq!(
        last_log(&state),
        ("info".to_string(), "Instalando la actualización a la v0.2.0…".to_string())
    );
    let (phase, action) = install_step(phase, &mut state, &none(), InstallEvent::Installed(Ok(())), 4);
    assert!(matches!(action, InstallAction::Restart));
    assert_eq!(last_log(&state).1, RESTARTING);
    let (_, action) = install_step(phase, &mut state, &none(), InstallEvent::Opened(Ok(())), 5);
    assert!(matches!(action, InstallAction::Nothing));
}

#[test]
fn a_busy_agent_does_not_begin_to_install() {
    let mut state = AppState::new();
    state.accept_job(&payload("j1"), None, 1);
    let before = state.recent_logs().len();
    let (phase, action) = install_update(&mut state, &none(), true, 2);
    assert_eq!(phase, InstallPhase::Ended);
    assert!(matches!(action, InstallAction::Return(Err(e)) if e == BUSY_MESSAGE));
    assert_eq!(state.recent_logs().len(), before);
    let (_, action) = install_update(&mut state, &none(), false, 3);
    assert!(matches!(action, InstallAction::Return(Err(_))));
    assert_eq!(last_log(&state).1, BUSY_MESSAGE);
}

#[test]
fn work_that_came_in_during_the_download_is_not_interrupted() {
    let mut state = AppState::new();
    let (phase, _) = install_update(&mut state, &none(), false, 1);
    let (phase, _) = install_step(phase, &mut state, &none(), InstallEvent::Opened(Ok(())), 2);
    let found = InstallEvent::Checked(Ok(Some("0.2.0".to_string())));
    let (phase, _) = install_step(phase, &mut state, &none(), found, 3);
    state.accept_job(&payload("j1"), None, 4);
    let (_, action) = install_step(phase, &mut state, &none(), InstallEvent::Installed(Ok(())), 5);
    assert!(matches!(action, InstallAction::Return(Ok(()))));
    assert_eq!(last_log(&state), ("warn".to_string(), INSTALLED_WHILE_BUSY.to_string()));
}

#[test]
fn each_failure_of_an_installation_is_told() {
    let error = |phase, event| {
        let mut state = AppState::new();
        match install_step(phase, &mut state, &none(), event, 1).1 {
            InstallAction::Return(Err(e)) => e,
            _ => "none".to_string(),
        }
    };
    let x = || "x".to_string();
    assert_eq!(
        error(InstallPhase::Opening, InstallEvent::Opened(Err(x()))),
        "El actualizador no está disponible: x"
    );
    assert_eq!(
        error(InstallPhase::Checking, InstallEvent::Checked(Err(x()))),
        "No pudimos comprobar si hay versión nueva: x"
    );
    assert_eq!(
        error(InstallPhase::Checking, InstallEvent::Checked(Ok(None))),
        UP_TO_DATE_MESSAGE
    );
    assert_eq!(
        error(InstallPhase::Installing, InstallEvent::Installed(Err(x()))),
        "No se pudo instalar la actualización: x"
    );
}

#[test]
fn what_was_not_asked_for_is_asked_again() {
    let mut state = AppState::new();
    let opened = InstallEvent::Opened(Ok(()));
    let (phase, action) =
        install_step(InstallPhase::Checking, &mut state, &none(), opened, 1);
    assert_eq!(phase, InstallPhase::Checking);
    assert!(matches!(action, InstallAction::CheckForUpdate));
}

#[test]
fn a_transcript_that_waits_keeps_the_agent_busy() {
    let mut state = AppState::new();
    state.accept_job(&payload("j1"), None, 1);
    state.update_job_at(2, "j1", JobChange::UploadPending);
    state.finish_job("j1");
    assert_eq!(state.running(), 0);
    assert!(!is_idle(&state, &none()));
    state.update_job_at(3, "j1", JobChange::Stage(JobStage::Completed));
    assert!(is_idle(&state, &none()));
}

#[test]
fn a_job_that_runs_keeps_the_agent_busy() {
    let mut state = AppState::new();
    let clock = Clock { wall_ms: 1, steady_ns: 1 };
    state.accept_job(&payload("j1"), None, 1);
    let mut run = JobRun::begin(payload("j1"), &mut state, clock);
    let failed = JobEvent::TempDirMade(Err("sin espacio".to_string()));
    run.step(&mut state, failed, clock);
    assert_eq!(state.active_jobs(), 0);
    assert!(!is_idle(&state, &none()));
    state.finish_job("j1");
    assert!(is_idle(&state, &none()));
}

#[test]
fn a_transcript_on_disk_keeps_the_agent_busy() {
    let mut state = AppState::new();
    let left = vec!["j0".to_string()];
    assert!(!is_idle(&state, &left));
    let (phase, action) = install_update(&mut state, &left, false, 1);
    assert_eq!(phase, InstallPhase::Ended);
    assert!(matches!(action, InstallAction::Return(Err(e)) if e == BUSY_MESSAGE));
    assert_eq!(last_log(&state).1, BUSY_MESSAGE);
    let installed = InstallEvent::Installed(Ok(()));
    let (_, action) =
        install_step(InstallPhase::Installing, &mut state, &left, installed, 2);
    assert!(matches!(action, InstallAction::Return(Ok(()))));
    assert_eq!(last_log(&state).1, INSTALLED_WHILE_BUSY);
}

#[test]
fn the_agent_asks_and_tries_again_in_its_own_time() {
    assert_eq!((UPDATE_CHECK_DELAY_SECS, UPDATE_CHECK_INTERVAL_SECS), (20, 21_600));
    assert_eq!((UPLOAD_RETRY_DELAY_SECS, UPLOAD_RETRY_INTERVAL_SECS), (10, 300));
}
