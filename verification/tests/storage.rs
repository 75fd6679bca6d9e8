use amautum_transcriptor::amautum::{
    check_answer, is_success, AmautumError, TranscriptResponse, UNREADABLE_BODY,
};
use amautum_transcriptor::config::{DIARIZE_SIDECAR, FFMPEG_SIDECAR, WHISPER_SIDECAR};
use amautum_transcriptor::delivery::Body;
use amautum_transcriptor::models::{
    check_download, check_file, download_url, first_available_model, min_expected_size, part_name,
    version_flag, Download, FetchAction, FetchEvent, FetchRun, FetchTarget, FileCheck, ModelError,
    ProbeRun,
};
use amautum_transcriptor::pending::{
    job_file, list_details, list_job_ids, retry_one, stamped, summarize, PendingUpload,
};
use amautum_transcriptor::process::ProcessEvent;
use amautum_transcriptor::state::{AppState, JobChange};
use amautum_transcriptor::types::{
    AgentCallbacks, AgentEvent, AgentTriggerPayload, JobStage, TranscriptUpload, WhisperModel,
};

fn s(text: &str) -> String {
    text.to_string()
}

// ── Models ──────────────────────────────────────────────────────────────────

#[test]
fn ffmpeg_uses_its_own_version_flag() {
    assert_eq!(version_flag(FFMPEG_SIDECAR), "-version");
    assert_eq!(version_flag(WHISPER_SIDECAR), "--version");
    assert_eq!(version_flag(DIARIZE_SIDECAR), "--version");
}

#[test]
fn models_come_from_their_page() {
    assert_eq!(
        download_url(WhisperModel::LargeV3),
        "https://huggingface.co/ggerganov/whisper.cpp/resolve/main/ggml-large-v3.bin"
    );
    assert_eq!(part_name(WhisperModel::Tiny), "ggml-tiny.bin.part");
}

#[test]
fn complete_files_are_kept_and_cut_ones_replaced() {
    let real = [
        (WhisperModel::Tiny, 77_691_713),
        (WhisperModel::Base, 147_951_465),
        (WhisperModel::Small, 487_601_967),
        (WhisperModel::Medium, 1_533_763_059),
        (WhisperModel::LargeV3, 3_095_033_483u64),
    ];
    for (model, size) in real {
        let min = min_expected_size(model);
        assert_eq!(check_file(Some(size), min), FileCheck::Keep);
        assert_eq!(check_file(Some(min), min), FileCheck::Keep);
        assert_eq!(check_file(Some(size / 2), min), FileCheck::Replace);
    }
    assert_eq!(min_expected_size(WhisperModel::Tiny), 60 * 1024 * 1024);
    assert_eq!(check_file(None, 1), FileCheck::Fetch);
}

#[test]
fn a_refused_download_is_an_error() {
    assert!(check_download(200, "base").is_ok());
    let e = check_download(404, "diarización/segmentación").unwrap_err();
    assert_eq!(e.message(), "HuggingFace devolvió 404 al bajar diarización/segmentación");
    assert_eq!(
        ModelError::Network(s("x")).message(),
        "Error de red al descargar el modelo: x"
    );
    assert_eq!(ModelError::Io(s("x")).message(), "Error de E/S: x");
    assert_eq!(
        ModelError::Path(s("x")).message(),
        "Tauri no pudo resolver el directorio de datos: x"
    );
}

#[test]
fn the_first_model_on_disk() {
    let names = vec![s("ggml-base.bin.part"), s("x.bin"), s("ggml-.bin"), s("ggml-tiny.bin")];
    assert_eq!(first_available_model(&names).as_deref(), Some("ggml-.bin"));
    assert_eq!(first_available_model(&vec![s("ggml")]), None);
    assert_eq!(first_available_model(&Vec::new()), None);
}

fn told(event: Option<AgentEvent>) -> Option<(u64, u8)> {
    event.map(|e| match e {
        AgentEvent::ModelDownload { job_id, model, downloaded_bytes, percent, .. } => {
            assert_eq!((job_id.as_str(), model.as_str()), ("j1", "base"));
            (downloaded_bytes, percent)
        }
        _ => panic!("another event"),
    })
}

#[test]
fn downloads_are_told_every_two_points() {
    let mut d = Download::new("j1", WhisperModel::Base, Some(1000));
    assert_eq!(told(d.received(5)), Some((5, 0)));
    assert_eq!(told(d.received(5)), None);
    assert_eq!(told(d.received(15)), Some((25, 2)));
    assert_eq!(told(d.received(5)), None);
    assert_eq!(told(d.received(10)), Some((40, 4)));
    assert_eq!(told(d.received(1990)), Some((2030, 100)));
    assert_eq!(told(Some(d.complete())), Some((2030, 100)));
    let mut unknown = Download::new("j1", WhisperModel::Base, None);
    assert_eq!(told(unknown.received(7)), Some((7, 0)));
    assert_eq!(told(unknown.received(7)), None);
    assert_eq!(told(unknown.received(7_000_000)), None);
    let mut huge = Download::new("j1", WhisperModel::Base, Some(u64::MAX));
    assert_eq!(told(huge.received(u64::MAX / 2)), Some((u64::MAX / 2, 49)));
    let mut empty = Download::new("j1", WhisperModel::Base, Some(0));
    assert_eq!(told(empty.received(0)), None);
}

#[test]
fn a_fast_download_is_told_fifty_one_times_at_most() {
    let mut d = Download::new("j1", WhisperModel::Base, Some(1_000_000));
    let all: Vec<u8> =
        (0..10_000).filter_map(|_| told(d.received(100))).map(|(_, percent)| percent).collect();
    assert_eq!(all.len(), 51);
    assert!(all.windows(2).all(|w| w[0] + 2 <= w[1]));
}

fn model_run() -> FetchRun {
    FetchRun::new(FetchTarget::Model { job_id: s("j1"), model: WhisperModel::Base }, 100)
}

fn part_run() -> FetchRun {
    FetchRun::new(FetchTarget::Part { label: s("segmentación") }, 100)
}

#[test]
fn a_model_is_fetched_and_put_in_place() {
    let mut run = model_run();
    assert!(matches!(run.action(), FetchAction::Measure));
    assert!(matches!(run.step(FetchEvent::Measured(Some(99))).0, FetchAction::Remove));
    assert!(matches!(run.step(FetchEvent::Removed).0, FetchAction::Request));
    let (action, event) = run.step(FetchEvent::Answered(Ok((200, Some(200)))));
    assert!(matches!(action, FetchAction::Receive));
    assert!(event.is_none());
    let (action, event) = run.step(FetchEvent::Received(Ok(Some(50))));
    assert!(matches!(action, FetchAction::Receive));
    assert_eq!(told(event), Some((50, 25)));
    assert_eq!(told(run.step(FetchEvent::Received(Ok(Some(1)))).1), None);
    let (action, event) = run.step(FetchEvent::Received(Ok(None)));
    assert!(matches!(action, FetchAction::Place));
    assert!(event.is_none());
    let (action, event) = run.step(FetchEvent::Placed(Ok(())));
    assert!(matches!(action, FetchAction::Finish(Ok(()))));
    assert_eq!(told(event), Some((51, 100)));
    assert!(matches!(run.step(FetchEvent::Removed).0, FetchAction::Nothing));
}

#[test]
fn a_file_that_is_there_is_not_fetched() {
    let (action, event) = model_run().step(FetchEvent::Measured(Some(100)));
    assert!(matches!(action, FetchAction::Finish(Ok(()))));
    assert!(event.is_none());
    assert!(matches!(model_run().step(FetchEvent::Measured(None)).0, FetchAction::Request));
    assert!(matches!(model_run().step(FetchEvent::Removed).0, FetchAction::Measure));
}

#[test]
fn a_small_file_is_fetched_in_silence() {
    let mut run = part_run();
    run.step(FetchEvent::Measured(None));
    run.step(FetchEvent::Answered(Ok((200, Some(10)))));
    assert!(run.step(FetchEvent::Received(Ok(Some(10)))).1.is_none());
    run.step(FetchEvent::Received(Ok(None)));
    let (action, event) = run.step(FetchEvent::Placed(Ok(())));
    assert!(matches!(action, FetchAction::Finish(Ok(()))));
    assert!(event.is_none());
}

#[test]
fn each_failure_of_a_fetch_is_told() {
    let failure = |run: &mut FetchRun, event| match run.step(event).0 {
        FetchAction::Finish(Err(e)) => e.message(),
        _ => s("none"),
    };
    let mut run = part_run();
    run.step(FetchEvent::Measured(None));
    assert_eq!(
        failure(&mut run, FetchEvent::Answered(Ok((403, None)))),
        "HuggingFace devolvió 403 al bajar diarización/segmentación"
    );
    let mut run = model_run();
    run.step(FetchEvent::Measured(None));
    assert_eq!(
        failure(&mut run, FetchEvent::Answered(Ok((404, None)))),
        "HuggingFace devolvió 404 al bajar base"
    );
    let mut run = model_run();
    run.step(FetchEvent::Measured(None));
    assert_eq!(
        failure(&mut run, FetchEvent::Answered(Err(ModelError::Network(s("x"))))),
        "Error de red al descargar el modelo: x"
    );
    let mut run = model_run();
    run.step(FetchEvent::Measured(None));
    run.step(FetchEvent::Answered(Ok((200, None))));
    assert_eq!(
        failure(&mut run, FetchEvent::Received(Err(ModelError::Io(s("disco lleno"))))),
        "Error de E/S: disco lleno"
    );
    let mut run = model_run();
    run.step(FetchEvent::Measured(None));
    run.step(FetchEvent::Answered(Ok((200, None))));
    run.step(FetchEvent::Received(Ok(None)));
    assert_eq!(
        failure(&mut run, FetchEvent::Placed(Err(ModelError::Io(s("x"))))),
        "Error de E/S: x"
    );
}

// ── Probing ─────────────────────────────────────────────────────────────────

fn probe(events: Vec<ProcessEvent>) -> Result<String, String> {
    let mut run = ProbeRun::new("ffmpeg");
    for event in events {
        if let Some(result) = run.hear(event) {
            return result;
        }
    }
    panic!("it is still open")
}

#[test]
fn a_program_that_speaks_works_whatever_its_code() {
    let out = probe(vec![
        ProcessEvent::Stdout(s("")),
        ProcessEvent::Stderr(s("  ffmpeg version 6.1  ")),
        ProcessEvent::Stderr(s("more")),
        ProcessEvent::Terminated(Some(8)),
        ProcessEvent::Closed,
    ]);
    assert_eq!(out.unwrap(), "ffmpeg version 6.1");
}

#[test]
fn silence_is_what_is_broken() {
    let end = |code| probe(vec![ProcessEvent::Terminated(code), ProcessEvent::Closed]).unwrap_err();
    assert_eq!(
        end(Some(-1073741515)),
        "ffmpeg no arrancó: falta una biblioteca del sistema (DLL). Instala el «Microsoft Visual C++ Redistributable (x64)»."
    );
    assert_eq!(end(Some(0)), "ffmpeg terminó con el código 0 sin imprimir nada");
    assert_eq!(
        end(None),
        "ffmpeg se cerró sin código de salida (¿bloqueado por antivirus?)"
    );
    assert_eq!(
        probe(vec![ProcessEvent::Other, ProcessEvent::Silence]).unwrap_err(),
        "ffmpeg no respondió en 30 s (¿antivirus inspeccionando el binario?)"
    );
    assert_eq!(probe(vec![ProcessEvent::Error(s("x"))]).unwrap_err(), "x");
}

// ── Amautum ─────────────────────────────────────────────────────────────────

#[test]
fn answers_of_amautum() {
    assert!(is_success(200) && is_success(299));
    assert!(!is_success(199) && !is_success(300));
    assert!(check_answer(204, None).is_ok());
    let e = check_answer(401, Some(s("token vencido"))).unwrap_err();
    assert_eq!(e.message(), "Amautum rechazó la llamada (401): token vencido");
    assert!(!e.retriable());
    match check_answer(503, None) {
        Err(AmautumError::Rejected { status: 503, body }) => assert_eq!(body, UNREADABLE_BODY),
        _ => panic!("it was refused"),
    }
    assert!(AmautumError::Rejected { status: 500, body: s("") }.retriable());
    assert!(!AmautumError::Rejected { status: 499, body: s("") }.retriable());
    let network = AmautumError::Network(s("x"));
    assert!(network.retriable());
    assert_eq!(network.message(), "Error de red al hablar con Amautum: x");
}

// ── Transcripts that wait ───────────────────────────────────────────────────

fn pending(id: &str, saved_at: u64, text: &str) -> PendingUpload {
    PendingUpload {
        job_id: s(id),
        transcript_callback: s("https://amautum.com/t"),
        token: s("token"),
        upload: TranscriptUpload {
            language: s("es"),
            model: s("base"),
            duration: 61,
            full_text: s(text),
            segments: Vec::new(),
            speakers: None,
            summary: None,
        },
        saved_at,
    }
}

#[test]
fn files_are_named_after_their_jobs() {
    assert_eq!(job_file("3f2a-B_9"), "3f2a-B_9.json");
    assert_eq!(job_file("../../etc/passwd"), "etcpasswd.json");
    assert_eq!(job_file("ñ\\:*"), ".json");
    let names = vec![job_file("a-1"), s("notas.txt"), s("b.json.tmp"), s(".json"), job_file("b_2")];
    assert_eq!(list_job_ids(&names), ["a-1", "", "b_2"]);
}

#[test]
fn summaries_are_listed_by_age() {
    let items = vec![
        pending("c", 30, "ñandú"),
        pending("a", 10, ""),
        pending("b1", 20, "x"),
        pending("b2", 20, "y"),
        pending("z", 0, "y"),
    ];
    let all = list_details(&items);
    let ids: Vec<&str> = all.iter().map(|x| x.job_id.as_str()).collect();
    assert_eq!(ids, ["z", "a", "b1", "b2", "c"]);
    let last = summarize(&items[0]);
    assert_eq!((last.characters, last.duration, last.saved_at), (5, 61, 30));
    assert_eq!((last.language.as_str(), last.model.as_str()), ("es", "base"));
}

#[test]
fn a_transcript_is_dated_when_it_is_written() {
    let p = stamped(pending("a", 0, "texto"), 77);
    assert_eq!(p.saved_at, 77);
    assert_eq!((p.job_id.as_str(), p.upload.full_text.as_str()), ("a", "texto"));
    assert_eq!((p.transcript_callback.as_str(), p.token.as_str()), ("https://amautum.com/t", "token"));
}

#[test]
fn a_transcript_stays_until_amautum_has_it() {
    let mut state = AppState::new();
    let refused = Err(AmautumError::Rejected { status: 401, body: s("") });
    assert!(!retry_one(&mut state, "j1", refused, 5));
    assert!(state.subscribe("j1").1.is_none());
    let taken = Ok(TranscriptResponse { ok: true, transcript_id: s("tx"), already_done: false });
    assert!(retry_one(&mut state, "j1", taken, 6));
    match state.subscribe("j1").1 {
        Some(AgentEvent::Completed { job_id, transcript_id }) => {
            assert_eq!((job_id.as_str(), transcript_id.as_str()), ("j1", "tx"))
        }
        _ => panic!("the pages are told"),
    }
}

fn payload(job_id: &str) -> AgentTriggerPayload {
    AgentTriggerPayload {
        job_id: s(job_id),
        token: s("token"),
        audio_file_path: s("/a/audiencia.mp3"),
        callbacks: AgentCallbacks { progress: s("p"), transcript: s("t"), fail: s("f") },
        model: WhisperModel::Base,
        language: s("es"),
        file_size: None,
        diarize: false,
        num_speakers: None,
    }
}

#[test]
fn a_job_is_complete_once_its_transcript_is_uploaded_after_all() {
    let taken =
        || Ok(TranscriptResponse { ok: true, transcript_id: s("tx"), already_done: false });
    let mut state = AppState::new();
    state.accept_job(&payload("j1"), None, 1);
    state.update_job_at(2, "j1", JobChange::UploadPending);
    state.finish_job("j1");
    assert_eq!(state.stage_of("j1"), Some(JobStage::UploadPending));
    assert!(!retry_one(&mut state, "j1", Err(AmautumError::Network(s("sin red"))), 3));
    assert_eq!(state.active_jobs(), 1);
    assert!(retry_one(&mut state, "j1", taken(), 4));
    assert_eq!(state.stage_of("j1"), Some(JobStage::Completed));
    assert_eq!(state.active_jobs(), 0);
    let job = &state.job_snapshot()[0];
    assert_eq!((job.updated_at_ms, job.hint.as_deref()), (4, None));

    // A job that was started again goes on.
    state.accept_job(&payload("j2"), None, 5);
    assert!(retry_one(&mut state, "j2", taken(), 6));
    assert_eq!(state.stage_of("j2"), Some(JobStage::Queued));
    assert_eq!(state.stage_of("j3"), None);
}

#[test]
fn a_transcript_on_disk_goes_where_it_had_to_go() {
    let message = pending("a", 10, "texto").delivery();
    assert_eq!((message.url.as_str(), message.token.as_str()), ("https://amautum.com/t", "token"));
    match message.body {
        Body::Transcript(t) => assert_eq!(t.full_text, "texto"),
        _ => panic!("it is a transcript"),
    }
}

#[test]
fn a_program_that_spoke_may_end_with_any_code() {
    let mut run = ProbeRun::new("ffmpeg");
    assert_eq!(run.exit_code(), None);
    assert!(run.hear(ProcessEvent::Stdout(s("ffmpeg 7"))).is_none());
    assert!(run.hear(ProcessEvent::Terminated(Some(3))).is_none());
    assert_eq!(run.hear(ProcessEvent::Closed), Some(Ok(s("ffmpeg 7"))));
    assert_eq!(run.exit_code(), Some(3));
}
