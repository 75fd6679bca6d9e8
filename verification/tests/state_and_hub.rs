use amautum_transcriptor::state::{AppState, JobChange, DIARIZING_NOTE, PENDING_HINT};
use amautum_transcriptor::types::{
    now_ms, now_secs, AgentCallbacks, AgentEvent, AgentTriggerPayload, Hardware, JobStage,
    JobStatus, WhisperModel,
};
use amautum_transcriptor::types::{default_language, epoch_ms, epoch_secs, FailStage};
use amautum_transcriptor::updates::check;
use amautum_transcriptor::config::{Arch, Host, Os};
use amautum_transcriptor::ws_hub::{job_id_of, WsHub};

fn job(id: &str, stage: JobStage) -> JobStatus {
    JobStatus {
        job_id: id.to_string(),
        file_name: format!("{id}.mp3"),
        model: "base".to_string(),
        hardware: None,
        stage,
        progress: 0,
        eta_seconds: None,
        audio_length: None,
        note: None,
        started_at_ms: 1,
        engine_seen_at_ms: 1,
        updated_at_ms: 1,
        error: None,
        hint: None,
    }
}

fn ids(state: &AppState) -> Vec<String> {
    state.job_snapshot().into_iter().map(|j| j.job_id).collect()
}

fn find(state: &AppState, id: &str) -> JobStatus {
    state.job_snapshot().into_iter().find(|j| j.job_id == id).unwrap()
}

fn payload(id: &str, path: &str) -> AgentTriggerPayload {
    AgentTriggerPayload {
        job_id: id.to_string(),
        token: "t".to_string(),
        audio_file_path: path.to_string(),
        callbacks: AgentCallbacks {
            progress: "p".to_string(),
            transcript: "t".to_string(),
            fail: "f".to_string(),
        },
        model: WhisperModel::LargeV3,
        language: "es".to_string(),
        file_size: None,
        diarize: false,
        num_speakers: None,
    }
}

// ── Stages, models, clocks ──────────────────────────────────────────────────

#[test]
fn only_completed_and_failed_are_terminal() {
    assert!(JobStage::Completed.is_terminal());
    assert!(JobStage::Failed.is_terminal());
    assert!(!JobStage::Transcribing.is_terminal());
    // A transcript that waits to be uploaded is not done.
    assert!(!JobStage::UploadPending.is_terminal());
}

#[test]
fn models_and_hardware() {
    assert_eq!(WhisperModel::Tiny.ggml_filename(), "ggml-tiny.bin");
    assert_eq!(WhisperModel::LargeV3.ggml_filename(), "ggml-large-v3.bin");
    assert_eq!(WhisperModel::Medium.as_str(), "medium");
    assert_eq!(default_language(), "es");
    assert_eq!(Hardware::detect(true, true), Hardware::Metal);
    assert_eq!(Hardware::detect(false, true), Hardware::Cuda);
    assert_eq!(Hardware::detect(false, false), Hardware::Cpu);
    assert_eq!(FailStage::ModelLoad.as_str(), "ModelLoad");
}

#[test]
fn the_clock_counts_from_the_epoch() {
    assert_eq!(epoch_ms(Some((3, 999_999_999))), 3999);
    assert_eq!(epoch_ms(None), 0);
    assert_eq!(epoch_secs(Some((3, 999_999_999))), 3);
    assert_eq!(epoch_secs(None), 0);
    let std_ms = std::time::SystemTime::now()
        .duration_since(std::time::UNIX_EPOCH)
        .unwrap()
        .as_millis() as u64;
    let ours = now_ms();
    assert!(ours >= std_ms && ours - std_ms < 10_000);
    assert!(now_secs() >= std_ms / 1000);
}

// ── The log ─────────────────────────────────────────────────────────────────

#[test]
fn the_log_keeps_the_last_lines() {
    let mut state = AppState::new();
    for i in 0..305u64 {
        state.log_at(i, "info", format!("línea {i}"));
    }
    let logs = state.recent_logs();
    assert_eq!(logs.len(), 300);
    assert_eq!(logs[0].text, "línea 5");
    assert_eq!(logs[299].text, "línea 304");
    assert_eq!(logs[299].at_ms, 304);
    state.log("warn", "ahora".to_string());
    let logs = state.recent_logs();
    assert_eq!(logs[299].level, "warn");
    assert!(logs[299].at_ms > 1_600_000_000_000);
}

// ── The registry ────────────────────────────────────────────────────────────

#[test]
fn live_jobs_come_first_and_the_newest_on_top() {
    let mut state = AppState::new();
    state.register_job(job("a", JobStage::Completed));
    state.register_job(job("b", JobStage::Transcribing));
    state.register_job(job("c", JobStage::Failed));
    state.register_job(job("d", JobStage::UploadPending));
    assert_eq!(ids(&state), ["d", "b", "c", "a"]);
    assert_eq!(state.active_jobs(), 2);
}

#[test]
fn only_finished_jobs_leave_the_history() {
    let mut state = AppState::new();
    state.register_job(job("vivo", JobStage::Transcribing));
    for i in 0..12 {
        state.register_job(job(&format!("f{i}"), JobStage::Completed));
    }
    let all = ids(&state);
    assert_eq!(all.len(), 9);
    assert_eq!(all[0], "vivo");
    assert_eq!(all[1], "f11");
    assert_eq!(all[8], "f4");
}

#[test]
fn registering_a_job_again_makes_it_the_newest() {
    let mut state = AppState::new();
    state.register_job(job("a", JobStage::Failed));
    state.register_job(job("b", JobStage::Failed));
    state.register_job(job("a", JobStage::Queued));
    assert_eq!(ids(&state), ["a", "b"]);
    assert_eq!(find(&state, "a").stage, JobStage::Queued);
}

#[test]
fn every_change_is_dated_and_touches_one_job() {
    let mut state = AppState::new();
    state.register_job(job("a", JobStage::Queued));
    state.register_job(job("b", JobStage::Queued));
    let prepared = JobChange::Prepared { hardware: "metal", audio_length: Some(90) };
    state.update_job_at(10, "a", prepared);
    let a = find(&state, "a");
    assert_eq!(a.hardware.as_deref(), Some("metal"));
    assert_eq!(a.audio_length, Some(90));
    assert_eq!(a.updated_at_ms, 10);
    assert_eq!(a.engine_seen_at_ms, 1);
    let progress = JobChange::Progress {
        progress: 40,
        eta_seconds: Some(60),
        note: Some("tramo".to_string()),
    };
    state.update_job_at(20, "a", progress);
    let a = find(&state, "a");
    assert_eq!((a.progress, a.eta_seconds, a.engine_seen_at_ms), (40, Some(60), 20));
    assert_eq!(a.note.as_deref(), Some("tramo"));
    state.update_job_at(30, "a", JobChange::Heartbeat { eta_seconds: None, note: None });
    let a = find(&state, "a");
    assert_eq!((a.progress, a.eta_seconds, a.engine_seen_at_ms), (40, None, 20));
    assert_eq!(a.updated_at_ms, 30);
    state.update_job_at(40, "a", JobChange::Diarizing);
    assert_eq!(find(&state, "a").note.as_deref(), Some(DIARIZING_NOTE));
    state.update_job_at(50, "a", JobChange::Uploading);
    assert_eq!(find(&state, "a").progress, 100);
    state.update_job_at(60, "a", JobChange::UploadPending);
    assert_eq!(find(&state, "a").hint.as_deref(), Some(PENDING_HINT));
    let failed = JobChange::Failed { error: "e".to_string(), hint: "h".to_string() };
    state.update_job_at(70, "a", failed);
    let a = find(&state, "a");
    assert_eq!((a.error.as_deref(), a.hint.as_deref()), (Some("e"), Some("h")));
    state.update_job_at(80, "a", JobChange::Completed);
    let a = find(&state, "a");
    assert_eq!((a.error, a.hint, a.stage), (None, None, JobStage::Completed));
    assert_eq!(find(&state, "b").updated_at_ms, 1);
    state.update_job("b", JobChange::Stage(JobStage::Preprocess));
    assert!(find(&state, "b").updated_at_ms > 1_600_000_000_000);
    state.update_job_at(90, "nadie", JobChange::Completed);
    assert_eq!(ids(&state).len(), 2);
}

#[test]
fn an_accepted_job_is_queued_and_counted() {
    let mut state = AppState::new();
    state.accept_job(&payload("j1", "/a/b/audio.mp3"), Some("audio.mp3".to_string()), 5);
    state.accept_job(&payload("j2", "/a/.."), None, 6);
    assert_eq!(state.running(), 2);
    let j1 = find(&state, "j1");
    assert_eq!((j1.file_name.as_str(), j1.model.as_str()), ("audio.mp3", "large-v3"));
    assert_eq!((j1.started_at_ms, j1.stage), (5, JobStage::Queued));
    assert_eq!(find(&state, "j2").file_name, "/a/..");
    let logs = state.recent_logs();
    assert_eq!(logs[0].text, "Trabajo recibido: audio.mp3 (modelo large-v3)");
    state.finish_job("j1");
    assert_eq!(state.running(), 1);
}

// ── Errors to tell support about ────────────────────────────────────────────

#[test]
fn the_last_error_is_that_of_the_newest_job() {
    let mut state = AppState::new();
    assert_eq!(state.last_error(), None);
    for id in ["a", "b", "c"] {
        state.register_job(job(id, JobStage::Queued));
    }
    for id in ["a", "b"] {
        let failed = JobChange::Failed { error: format!("error {id}"), hint: "h".to_string() };
        state.update_job_at(2, id, failed);
    }
    assert_eq!(state.last_error().as_deref(), Some("b.mp3 — error b"));
    state.record_probe(Ok("ffmpeg 6".to_string()), Err("falta DLL".to_string()), 3);
    assert_eq!(
        state.last_error().as_deref(),
        Some("Componentes: Motor de transcripción (whisper): falta DLL")
    );
}

#[test]
fn components_are_healthy_until_one_is_not() {
    let mut state = AppState::new();
    assert!(state.dependencies_ok());
    state.record_probe(Err("x".to_string()), Err("y".to_string()), 1);
    assert!(!state.dependencies_ok());
    let detail = "Conversor de audio (ffmpeg): x · Motor de transcripción (whisper): y";
    assert_eq!(state.dependencies_error().as_deref(), Some(detail));
    assert_eq!(
        state.recent_logs()[0].text,
        format!("Componentes con problemas: {detail}")
    );
    state.record_probe(Ok("f 1".to_string()), Ok("w 2".to_string()), 2);
    assert!(state.dependencies_ok());
    assert_eq!(state.dependencies_error(), None);
    assert_eq!(
        state.recent_logs()[1].text,
        "Componentes verificados — ffmpeg: f 1 · motor: w 2"
    );
}

#[test]
fn a_newer_version_is_noted() {
    let mut state = AppState::new();
    let host = Host { os: Os::Linux, arch: Arch::X64 };
    assert!(!state.note_update(check(Some("v0.1.13"), host).unwrap(), 1));
    assert_eq!(state.recent_logs().len(), 0);
    assert!(state.note_update(check(Some("v0.3.0"), host).unwrap(), 2));
    assert_eq!(
        state.recent_logs()[0].text,
        "Hay una versión nueva del agente: v0.3.0 (tienes la v0.1.13)."
    );
    assert_eq!(state.update().unwrap().latest, "0.3.0");
}

// ── Events ──────────────────────────────────────────────────────────────────

fn queued(id: &str) -> AgentEvent {
    AgentEvent::Queued { job_id: id.to_string() }
}

fn uploading(id: &str) -> AgentEvent {
    AgentEvent::Uploading { job_id: id.to_string() }
}

#[test]
fn a_late_page_is_told_the_last_event() {
    let mut hub = WsHub::new();
    hub.publish(queued("j1"));
    hub.publish(uploading("j1"));
    let (mut rx, last) = hub.subscribe("j1");
    assert!(matches!(last, Some(AgentEvent::Uploading { .. })));
    assert!(rx.try_recv().is_err());
    hub.publish(queued("j1"));
    assert!(matches!(rx.try_recv(), Ok(AgentEvent::Queued { .. })));
}

#[test]
fn jobs_do_not_hear_each_other() {
    let mut hub = WsHub::new();
    let (mut rx, last) = hub.subscribe("j1");
    assert!(last.is_none());
    hub.publish(queued("j2"));
    assert!(rx.try_recv().is_err());
    hub.publish(queued("j1"));
    assert!(rx.try_recv().is_ok());
    assert!(matches!(hub.subscribe("j2").1, Some(AgentEvent::Queued { .. })));
}

#[test]
fn a_listener_hears_what_follows_in_order_and_once() {
    let mut hub = WsHub::new();
    hub.publish(queued("j1"));
    let (mut rx, last) = hub.subscribe("j1");
    assert!(matches!(last, Some(AgentEvent::Queued { .. })));
    hub.publish(uploading("j1"));
    hub.publish(uploading("j2"));
    hub.close("j2");
    hub.publish(queued("j1"));
    assert!(matches!(rx.try_recv(), Ok(AgentEvent::Uploading { job_id }) if job_id == "j1"));
    assert!(matches!(rx.try_recv(), Ok(AgentEvent::Queued { job_id }) if job_id == "j1"));
    assert!(rx.try_recv().is_err());
}

#[test]
fn two_pages_hear_the_same_and_a_sender_speaks_on_the_same_channel() {
    let mut hub = WsHub::new();
    let (mut a, _) = hub.subscribe("j1");
    let tx = hub.sender("j1");
    let (mut b, _) = hub.subscribe("j1");
    tx.send(queued("j1")).unwrap();
    assert!(a.try_recv().is_ok());
    assert!(b.try_recv().is_ok());
}

#[test]
fn a_closed_job_replays_nothing_and_tells_its_listeners() {
    let mut hub = WsHub::new();
    hub.publish(queued("j1"));
    let (mut rx, _) = hub.subscribe("j1");
    hub.close("j1");
    assert!(matches!(
        rx.try_recv(),
        Err(tokio::sync::broadcast::error::TryRecvError::Closed)
    ));
    assert!(hub.subscribe("j1").1.is_none());
}

#[test]
fn every_event_knows_its_job() {
    let id = || "j".to_string();
    let events = vec![
        queued("j"),
        AgentEvent::ModelDownload {
            job_id: id(),
            model: "m".to_string(),
            downloaded_bytes: 1,
            total_bytes: None,
            percent: 0,
        },
        AgentEvent::Preprocess { job_id: id(), stage: "ffmpeg".to_string() },
        AgentEvent::Started { job_id: id(), hardware: Hardware::Cpu, model: "m".to_string() },
        AgentEvent::Progress {
            job_id: id(),
            progress: 1,
            eta_seconds: None,
            last_segment: None,
            note: None,
        },
        AgentEvent::Diarizing { job_id: id() },
        uploading("j"),
        AgentEvent::UploadPending { job_id: id() },
        AgentEvent::Completed { job_id: id(), transcript_id: "t".to_string() },
        AgentEvent::Failed { job_id: id(), stage: FailStage::Upload, error: "e".to_string() },
    ];
    let mut hub = WsHub::new();
    for event in events {
        assert_eq!(job_id_of(&event), "j");
        let copy = event.copy();
        assert_eq!(format!("{copy:?}"), format!("{event:?}"));
        hub.publish(event);
        assert_eq!(format!("{:?}", hub.subscribe("j").1.unwrap()), format!("{copy:?}"));
    }
}

#[test]
fn the_state_publishes_and_subscribes() {
    let mut state = AppState::new();
    state.publish(queued("j1"));
    let (mut rx, last) = state.subscribe("j1");
    assert!(matches!(last, Some(AgentEvent::Queued { .. })));
    state.publish(uploading("j1"));
    assert!(matches!(rx.try_recv(), Ok(AgentEvent::Uploading { .. })));
    state.finish_job("j1");
    assert!(state.subscribe("j1").1.is_none());
}
