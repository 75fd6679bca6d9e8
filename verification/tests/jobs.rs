use amautum_transcriptor::amautum::{AmautumError, TranscriptResponse};
use amautum_transcriptor::config::{Arch, Host, Os};
use amautum_transcriptor::delivery::Body;
use amautum_transcriptor::diarize::{DiarizeError, SpeakerSpan};
use amautum_transcriptor::ffmpeg::{FfmpegError, Preprocessed};
use amautum_transcriptor::models::ModelError;
use amautum_transcriptor::pipeline::{
    hardware_str, Clock, JobAction, JobEvent, JobOutcome, JobRun, PipelineError, HINT_AMAUTUM,
    HINT_DIARIZE, HINT_FFMPEG, HINT_IO, HINT_MODEL, HINT_STALLED, HINT_TEMP_DIR, HINT_WHISPER,
    LOG_COMPLETED, LOG_CONVERTING, LOG_DIARIZING, LOG_PENDING,
};
use amautum_transcriptor::progress::{fmt_duration, fmt_eta, ProgressState};
use amautum_transcriptor::server::{
    check_start, health, menu_action, open_target, origin_allowed, pick_title, ws_url, MenuAction,
    StartRefusal, ACCEPTED, BAD_REQUEST, CONFLICT, FORBIDDEN, NOT_FOUND, SIZE_CHANGED,
};
use amautum_transcriptor::state::{AppState, PENDING_HINT};
use amautum_transcriptor::types::{
    AgentCallbacks, AgentEvent, AgentTriggerPayload, FailStage, Hardware, JobStage, JobStatus,
    Segment, WhisperModel, SECOND,
};
use amautum_transcriptor::updates::check;
use amautum_transcriptor::whisper::{ProgressTick, WhisperError, WhisperRun};

const HOST: Host = Host { os: Os::Windows, arch: Arch::X64 };

fn s(text: &str) -> String {
    text.to_string()
}

/// A time of so many seconds.
fn secs(seconds: f64) -> i128 {
    (seconds * SECOND as f64) as i128
}

fn at(ms: u64) -> Clock {
    Clock { wall_ms: 1_000_000 + ms, steady_ns: ms * 1_000_000 }
}

fn payload(diarize: bool) -> AgentTriggerPayload {
    AgentTriggerPayload {
        job_id: s("j1"),
        token: s("token"),
        audio_file_path: s("/a/audiencia.mp3"),
        callbacks: AgentCallbacks {
            progress: s("https://amautum.com/progress"),
            transcript: s("https://amautum.com/transcript"),
            fail: s("https://amautum.com/fail"),
        },
        model: WhisperModel::Medium,
        language: s("es"),
        file_size: Some(100),
        diarize,
        num_speakers: Some(2),
    }
}

fn transcription() -> WhisperRun {
    WhisperRun {
        language: s("es"),
        model_used: s("medium"),
        segments: vec![
            Segment { start: 0, end: secs(0.9), text: s("Buenos días."), speaker: None },
            Segment { start: secs(1.0), end: secs(1.9), text: s("Señoría."), speaker: None },
        ],
        full_text: s("Buenos días. Señoría."),
    }
}

fn taken() -> JobEvent {
    JobEvent::Uploaded(Ok(TranscriptResponse {
        ok: true,
        transcript_id: s("tx-1"),
        already_done: false,
    }))
}

fn network() -> JobEvent {
    JobEvent::Uploaded(Err(AmautumError::Network(s("sin red"))))
}

fn job(state: &AppState) -> JobStatus {
    state.job_snapshot().into_iter().find(|j| j.job_id == "j1").unwrap()
}

fn last_event(state: &mut AppState) -> AgentEvent {
    state.subscribe("j1").1.unwrap()
}

fn logs(state: &AppState) -> Vec<String> {
    state.recent_logs().into_iter().map(|l| format!("{}: {}", l.level, l.text)).collect()
}

/// A job that has come as far as the engine.
fn transcribing(diarize: bool) -> (AppState, JobRun) {
    let mut state = AppState::new();
    state.accept_job(&payload(diarize), Some(s("audiencia.mp3")), 1);
    let mut run = JobRun::begin(payload(diarize), &mut state, at(0));
    assert_eq!(run.action(), JobAction::MakeTempDir);
    assert!(matches!(last_event(&mut state), AgentEvent::Queued { .. }));
    let action = run.step(&mut state, JobEvent::TempDirMade(Ok(())), at(1));
    assert_eq!(action, JobAction::Convert);
    assert_eq!(job(&state).stage, JobStage::Preprocess);
    let pre = Preprocessed { wav_path: s("/t/input.wav"), duration: secs(3_725.0) };
    let action = run.step(&mut state, JobEvent::Converted(Ok(pre), Hardware::Cuda), at(2));
    assert_eq!(action, JobAction::ReportStart);
    assert!(matches!(
        last_event(&mut state),
        AgentEvent::Started { hardware: Hardware::Cuda, .. }
    ));
    let report = run.start_upload();
    assert_eq!((report.progreso, report.hardware, report.estado), (0, Some("cuda"), Some("procesando")));
    assert_eq!(report.agente_version.as_deref(), Some("0.1.13"));
    let action = run.step(&mut state, JobEvent::StartReported, at(3));
    assert_eq!(action, JobAction::EnsureModel);
    assert_eq!(job(&state).stage, JobStage::DownloadingModel);
    let action = run.step(&mut state, JobEvent::ModelReady(Ok(())), at(4));
    assert_eq!(action, JobAction::Transcribe);
    assert_eq!(job(&state).stage, JobStage::Transcribing);
    (state, run)
}

fn uploading() -> (AppState, JobRun) {
    let (mut state, mut run) = transcribing(false);
    let action = run.step(&mut state, JobEvent::Transcribed(Ok(transcription())), at(5));
    assert_eq!(action, JobAction::Upload);
    (state, run)
}

// ── Whole jobs ──────────────────────────────────────────────────────────────

#[test]
fn a_job_goes_from_end_to_end() {
    let (mut state, mut run) = uploading();
    let waiting = job(&state);
    assert_eq!((waiting.stage, waiting.progress), (JobStage::Uploading, 100));
    assert_eq!(waiting.audio_length, Some(secs(3_725.0)));
    let transcript = run.transcript().unwrap();
    assert_eq!(transcript.full_text, "Buenos días. Señoría.");
    assert_eq!(transcript.duration, secs(3_725.0));
    assert!(transcript.speakers.is_none() && transcript.summary.is_none());
    assert_eq!(run.step(&mut state, taken(), at(6)), JobAction::Done);
    assert_eq!(run.outcome(), Some(JobOutcome::Completed));
    let done = job(&state);
    assert_eq!((done.stage, done.updated_at_ms), (JobStage::Completed, 1_000_006));
    match last_event(&mut state) {
        AgentEvent::Completed { transcript_id, .. } => assert_eq!(transcript_id, "tx-1"),
        _ => panic!("it completed"),
    }
    assert_eq!(
        logs(&state),
        [
            s("info: Trabajo recibido: audiencia.mp3 (modelo medium)"),
            format!("info: {LOG_CONVERTING}"),
            s("info: Transcribiendo con el modelo medium en cuda — 1 h 02 min de audio"),
            format!("info: {LOG_COMPLETED}"),
        ]
    );
}

#[test]
fn audio_of_unknown_length_is_as_long_as_what_was_said() {
    let ended = |said: WhisperRun| {
        let mut state = AppState::new();
        let mut run = JobRun::begin(payload(false), &mut state, at(0));
        run.step(&mut state, JobEvent::TempDirMade(Ok(())), at(1));
        let pre = Preprocessed { wav_path: s("/t/input.wav"), duration: 0 };
        run.step(&mut state, JobEvent::Converted(Ok(pre), Hardware::Cpu), at(2));
        run.step(&mut state, JobEvent::StartReported, at(3));
        run.step(&mut state, JobEvent::ModelReady(Ok(())), at(4));
        run.step(&mut state, JobEvent::Transcribed(Ok(said)), at(5));
        run.transcript().unwrap().duration
    };
    assert_eq!(ended(transcription()), secs(1.9));
    let mut nothing = transcription();
    nothing.segments = Vec::new();
    assert_eq!(ended(nothing), 0);
}

#[test]
fn messages_go_to_the_addresses_of_the_job() {
    let (mut state, mut run) = transcribing(false);
    assert!(run.delivery().is_none());
    let report = run.tick(&mut state, &tick(20, None), at(100_004)).unwrap();
    let message = run.progress_delivery(report);
    assert_eq!(message.url, "https://amautum.com/progress");
    assert_eq!(message.token, "token");
    match message.body {
        Body::Progress(p) => assert_eq!((p.progreso, p.hardware), (20, Some("cuda"))),
        _ => panic!("it is progress"),
    }

    let (mut state, mut run) = uploading();
    let message = run.delivery().unwrap();
    assert_eq!(message.url, "https://amautum.com/transcript");
    assert_eq!(message.token, "token");
    match message.body {
        Body::Transcript(t) => assert_eq!(t.full_text, "Buenos días. Señoría."),
        _ => panic!("it is a transcript"),
    }
    run.step(&mut state, network(), at(6));
    assert!(run.delivery().is_none());

    let mut state = AppState::new();
    let mut run = JobRun::begin(payload(false), &mut state, at(0));
    assert!(run.delivery().is_none());
    run.step(&mut state, JobEvent::TempDirMade(Err(s("x"))), at(1));
    let message = run.delivery().unwrap();
    assert_eq!(message.url, "https://amautum.com/fail");
    match message.body {
        Body::Failure(f) => {
            assert_eq!(f.error, "No pudimos crear la carpeta temporal de trabajo: x")
        }
        _ => panic!("it is a failure"),
    }

    let mut state = AppState::new();
    let mut run = JobRun::begin(payload(false), &mut state, at(0));
    run.step(&mut state, JobEvent::TempDirMade(Ok(())), at(1));
    let pre = Preprocessed { wav_path: s("/t/input.wav"), duration: 1 };
    run.step(&mut state, JobEvent::Converted(Ok(pre), Hardware::Metal), at(2));
    let message = run.delivery().unwrap();
    assert_eq!(message.url, "https://amautum.com/progress");
    match message.body {
        Body::Progress(p) => {
            assert_eq!((p.hardware, p.estado), (Some("metal"), Some("procesando")))
        }
        _ => panic!("it is progress"),
    }
}

#[test]
fn two_files_of_which_the_tools_say_the_same_are_told_alike() {
    let sent = |path: &str, wav: &str| {
        let mut state = AppState::new();
        let mut asked = payload(false);
        asked.audio_file_path = s(path);
        let mut run = JobRun::begin(asked, &mut state, at(0));
        let pre = Preprocessed { wav_path: s(wav), duration: secs(5.0) };
        let answers = [
            JobEvent::TempDirMade(Ok(())),
            JobEvent::Converted(Ok(pre), Hardware::Cpu),
            JobEvent::StartReported,
            JobEvent::ModelReady(Ok(())),
            JobEvent::Transcribed(Ok(transcription())),
            taken(),
        ];
        let mut all = String::new();
        for answer in answers {
            run.step(&mut state, answer, at(1));
            if let Some(message) = run.delivery() {
                all += &format!("{} {}", message.url, message.token);
                match message.body {
                    Body::Progress(p) => all += &format!("{p:?}"),
                    Body::Transcript(t) => all += &format!("{t:?}"),
                    Body::Failure(f) => all += &format!("{f:?}"),
                }
            }
        }
        all
    };
    let one = sent("/a/audiencia.mp3", "/t/1/input.wav");
    assert_eq!(one, sent("/otra/cosa.ogg", "/t/2/input.wav"));
    assert!(one.contains("Buenos días. Señoría.") && !one.contains("audiencia"));
}

#[test]
fn speakers_are_told_apart_where_that_is_asked_for() {
    let (mut state, mut run) = transcribing(true);
    let action = run.step(&mut state, JobEvent::Transcribed(Ok(transcription())), at(5));
    assert_eq!(action, JobAction::Diarize);
    assert_eq!(job(&state).stage, JobStage::Diarizing);
    assert_eq!(logs(&state).last().unwrap(), &format!("info: {LOG_DIARIZING}"));
    let spans = vec![
        SpeakerSpan { start: 0, end: secs(0.95), raw_speaker: s("speaker_01") },
        SpeakerSpan { start: secs(0.95), end: secs(2.0), raw_speaker: s("speaker_00") },
    ];
    let action = run.step(&mut state, JobEvent::Diarized(Ok(spans)), at(6));
    assert_eq!(action, JobAction::Upload);
    let t = run.transcript().unwrap();
    assert_eq!(t.speakers.as_deref(), Some(&[s("Hablante 1"), s("Hablante 2")][..]));
    assert_eq!(t.segments[0].speaker.as_deref(), Some("Hablante 1"));
    assert_eq!(t.segments[1].speaker.as_deref(), Some("Hablante 2"));
}

#[test]
fn speakers_that_cannot_be_told_apart_cost_no_transcript() {
    let failure = PipelineError::Diarize(DiarizeError::NoOutput);
    for event in [JobEvent::Diarized(Err(failure)), JobEvent::Diarized(Ok(Vec::new()))] {
        let (mut state, mut run) = transcribing(true);
        run.step(&mut state, JobEvent::Transcribed(Ok(transcription())), at(5));
        assert_eq!(run.step(&mut state, event, at(6)), JobAction::Upload);
        let t = run.transcript().unwrap();
        assert!(t.speakers.is_none());
        assert_eq!(t.full_text, "Buenos días. Señoría.");
    }
}

#[test]
fn an_upload_is_tried_again_and_then_saved() {
    let (mut state, mut run) = uploading();
    for secs in [2, 4, 8, 16] {
        assert_eq!(run.step(&mut state, network(), at(6)), JobAction::Wait(secs));
        assert!(matches!(last_event(&mut state), AgentEvent::Uploading { .. }));
        assert_eq!(run.step(&mut state, JobEvent::Waited, at(7)), JobAction::Upload);
    }
    let busy = JobEvent::Uploaded(Err(AmautumError::Rejected { status: 503, body: s("") }));
    assert_eq!(run.step(&mut state, busy, at(8)), JobAction::Save);
    let parcel = run.parcel().unwrap();
    assert_eq!(parcel.job_id, "j1");
    assert_eq!(parcel.transcript_callback, "https://amautum.com/transcript");
    assert_eq!(parcel.token, "token");
    assert_eq!(parcel.saved_at, 0);
    assert_eq!(parcel.upload.full_text, "Buenos días. Señoría.");
    assert_eq!(parcel.upload.segments.len(), 2);
    assert_eq!(run.step(&mut state, JobEvent::Saved(Ok(())), at(9)), JobAction::Done);
    assert_eq!(run.outcome(), Some(JobOutcome::UploadPending));
    let waiting = job(&state);
    assert_eq!(waiting.stage, JobStage::UploadPending);
    assert_eq!(waiting.hint.as_deref(), Some(PENDING_HINT));
    assert!(matches!(last_event(&mut state), AgentEvent::UploadPending { .. }));
    assert_eq!(logs(&state).last().unwrap(), &format!("warn: {LOG_PENDING}"));
}

#[test]
fn a_refused_transcript_is_saved_before_the_job_fails() {
    let refused = || {
        JobEvent::Uploaded(Err(AmautumError::Rejected { status: 401, body: s("token vencido") }))
    };
    let message = "Amautum rechazó la llamada (401): token vencido";
    let (mut state, mut run) = uploading();
    assert_eq!(run.step(&mut state, refused(), at(6)), JobAction::Save);
    assert!(run.parcel().is_some());
    assert_eq!(run.step(&mut state, JobEvent::Saved(Ok(())), at(7)), JobAction::ReportFailure);
    let all = logs(&state);
    assert_eq!(
        all[all.len() - 2],
        format!("error: Amautum rechazó el acta ({message}). La transcripción NO se perdió: quedó guardada en este equipo.")
    );
    assert_eq!(
        all[all.len() - 1],
        format!("error: Trabajo fallado (Upload): amautum: {message}")
    );
    let failed = job(&state);
    assert_eq!(failed.stage, JobStage::Failed);
    assert_eq!(failed.hint.as_deref(), Some(HINT_AMAUTUM));
    let report = run.failure_upload().unwrap();
    assert_eq!((report.stage, report.progreso), (FailStage::Upload, None));
    assert_eq!(report.error, format!("amautum: {message}"));
    assert_eq!(run.step(&mut state, JobEvent::FailureReported, at(8)), JobAction::Done);
    assert_eq!(run.outcome(), Some(JobOutcome::Failed));

    let (mut state, mut run) = uploading();
    run.step(&mut state, refused(), at(6));
    run.step(&mut state, JobEvent::Saved(Err(s("disco lleno"))), at(7));
    let all = logs(&state);
    assert_eq!(
        all[all.len() - 2],
        format!("error: Amautum rechazó el acta ({message}) y tampoco pudimos guardarla en disco: disco lleno")
    );
}

#[test]
fn a_transcript_that_cannot_be_saved_fails_the_job() {
    let (mut state, mut run) = uploading();
    for _ in 0..4 {
        run.step(&mut state, network(), at(6));
        run.step(&mut state, JobEvent::Waited, at(7));
    }
    run.step(&mut state, network(), at(8));
    let action = run.step(&mut state, JobEvent::Saved(Err(s("disco lleno"))), at(9));
    assert_eq!(action, JobAction::ReportFailure);
    let failed = job(&state);
    assert_eq!(failed.error.as_deref(), Some("io: disco lleno"));
    assert_eq!(failed.hint.as_deref(), Some(HINT_IO));
}

#[test]
fn each_stage_fails_with_its_own_advice() {
    let mut state = AppState::new();
    state.accept_job(&payload(false), None, 1);
    let mut run = JobRun::begin(payload(false), &mut state, at(0));
    let action = run.step(&mut state, JobEvent::TempDirMade(Err(s("x"))), at(1));
    assert_eq!(action, JobAction::ReportFailure);
    let failed = job(&state);
    assert_eq!(
        failed.error.as_deref(),
        Some("No pudimos crear la carpeta temporal de trabajo: x")
    );
    assert_eq!(failed.hint.as_deref(), Some(HINT_TEMP_DIR));
    assert_eq!(
        logs(&state).last().unwrap(),
        "error: Trabajo fallado (Unknown): No pudimos crear la carpeta temporal de trabajo: x"
    );

    let mut state = AppState::new();
    state.accept_job(&payload(false), None, 1);
    let mut run = JobRun::begin(payload(false), &mut state, at(0));
    run.step(&mut state, JobEvent::TempDirMade(Ok(())), at(1));
    let broken = JobEvent::Converted(Err(FfmpegError::Process(s("codec"))), Hardware::Cpu);
    run.step(&mut state, broken, at(2));
    assert_eq!(job(&state).error.as_deref(), Some("ffmpeg: Falló FFmpeg: codec"));
    match last_event(&mut state) {
        AgentEvent::Failed { stage, error, .. } => {
            assert_eq!((stage, error.as_str()), (FailStage::Ffmpeg, "ffmpeg: Falló FFmpeg: codec"))
        }
        _ => panic!("it failed"),
    }

    let (mut state, mut run) = transcribing(false);
    let stalled = JobEvent::Transcribed(Err(WhisperError::Stalled(s("mudo"))));
    run.step(&mut state, stalled, at(5));
    assert_eq!(job(&state).error.as_deref(), Some("whisper: mudo"));
    assert_eq!(job(&state).hint.as_deref(), Some(HINT_STALLED));
}

#[test]
fn errors_know_their_stage_and_their_advice() {
    let x = || s("x");
    let all = [
        (PipelineError::Ffmpeg(FfmpegError::Io(x())), FailStage::Ffmpeg, HINT_FFMPEG, "ffmpeg: Error de E/S: x"),
        (PipelineError::Model(ModelError::Io(x())), FailStage::ModelLoad, HINT_MODEL, "modelo: Error de E/S: x"),
        (PipelineError::Whisper(WhisperError::ModelMissing(x())), FailStage::ModelLoad, HINT_WHISPER, "whisper: Modelo GGML no encontrado en x"),
        (PipelineError::Whisper(WhisperError::Stalled(x())), FailStage::Inference, HINT_STALLED, "whisper: x"),
        (PipelineError::Whisper(WhisperError::Io(x())), FailStage::Inference, HINT_WHISPER, "whisper: Error de E/S: x"),
        (PipelineError::Diarize(DiarizeError::Process(x())), FailStage::Diarization, HINT_DIARIZE, "diarización: sherpa-diarize falló: x"),
        (PipelineError::Amautum(AmautumError::Network(x())), FailStage::Upload, HINT_AMAUTUM, "amautum: Error de red al hablar con Amautum: x"),
        (PipelineError::Io(x()), FailStage::Unknown, HINT_IO, "io: x"),
    ];
    for (error, stage, hint, text) in all {
        assert_eq!((error.stage(), error.hint()), (stage, hint));
        assert_eq!(error.message(), text);
    }
}

#[test]
fn what_a_job_did_not_ask_for_changes_nothing() {
    let (mut state, mut run) = uploading();
    let before = format!("{:?}{:?}", state.job_snapshot(), logs(&state));
    for event in [JobEvent::Waited, JobEvent::StartReported, JobEvent::TempDirMade(Ok(()))] {
        assert_eq!(run.step(&mut state, event, at(9)), JobAction::Upload);
    }
    assert_eq!(format!("{:?}{:?}", state.job_snapshot(), logs(&state)), before);
    run.step(&mut state, taken(), at(10));
    assert_eq!(run.step(&mut state, network(), at(11)), JobAction::Done);
}

#[test]
fn a_job_of_which_nothing_works_ends_soon() {
    let (mut state, mut run) = uploading();
    let mut answers = 0;
    loop {
        let event = match run.action() {
            JobAction::Upload => network(),
            JobAction::Wait(_) => JobEvent::Waited,
            JobAction::Save => JobEvent::Saved(Err(s("x"))),
            JobAction::ReportFailure => JobEvent::FailureReported,
            JobAction::Done => break,
            other => panic!("{other:?}"),
        };
        run.step(&mut state, event, at(9));
        answers += 1;
    }
    assert_eq!(answers, 11);
}

// ── Progress ────────────────────────────────────────────────────────────────

fn tick(percent: u8, note: Option<&str>) -> ProgressTick {
    ProgressTick { percent, note: note.map(s) }
}

#[test]
fn progress_is_shown_and_passed_on() {
    let (mut state, mut run) = transcribing(false);
    assert!(run.tick(&mut state, &tick(4, None), at(1_000)).is_none());
    let report = run.tick(&mut state, &tick(20, Some("tramo 1")), at(100_004)).unwrap();
    assert_eq!(report.progreso, 20);
    assert_eq!(report.tiempo_estimado.as_deref(), Some("6m"));
    assert_eq!((report.hardware, report.estado), (Some("cuda"), None));
    let j = job(&state);
    assert_eq!((j.progress, j.eta_seconds), (20, Some(400)));
    assert_eq!((j.note.as_deref(), j.engine_seen_at_ms), (Some("tramo 1"), 1_100_004));
    match last_event(&mut state) {
        AgentEvent::Progress { progress, eta_seconds, last_segment, note, .. } => {
            assert_eq!((progress, eta_seconds, last_segment), (20, Some(400), None));
            assert_eq!(note.as_deref(), Some("tramo 1"));
        }
        _ => panic!("it is progress"),
    }
    run.tick(&mut state, &tick(3, None), at(100_005));
    assert_eq!(job(&state).progress, 20);
}

#[test]
fn heartbeats_say_how_long_the_engine_is_silent() {
    let (mut state, mut run) = transcribing(false);
    run.tick(&mut state, &tick(10, Some("tramo 1")), at(50_000));
    assert!(run.heartbeat(&mut state, at(60_000)).is_none());
    assert_eq!(job(&state).note.as_deref(), Some("tramo 1"));
    let report = run.heartbeat(&mut state, at(175_500)).unwrap();
    assert_eq!(report.progreso, 10);
    assert_eq!(
        job(&state).note.as_deref(),
        Some("tramo 1 · el motor no reporta desde hace 2 min 05 s")
    );
    assert_eq!(job(&state).engine_seen_at_ms, 1_050_000);
    assert!(run.heartbeat(&mut state, at(185_500)).is_none());
    run.tick(&mut state, &tick(11, None), at(190_000));
    run.heartbeat(&mut state, at(250_000));
    assert_eq!(
        job(&state).note.as_deref(),
        Some("El motor sigue trabajando; reporta cada 5% y lleva 1 min 00 s sin reportar")
    );
}

#[test]
fn nothing_beats_once_the_engine_is_done() {
    let (mut state, mut run) = uploading();
    assert!(run.heartbeat(&mut state, at(900_000)).is_none());
    assert!(run.tick(&mut state, &tick(100, None), at(900_000)).is_none());
    assert!(matches!(last_event(&mut state), AgentEvent::Uploading { .. }));
    assert_eq!(job(&state).updated_at_ms, 1_000_005);
}

/// An instant of the steady clock.
fn ms(n: u64) -> u64 {
    n * 1_000_000
}

#[test]
fn the_time_left_is_measured() {
    let mut p = ProgressState::start(0);
    assert_eq!(p.eta_seconds(ms(60_000)), None);
    p.tick(&tick(1, None), ms(60_000));
    assert_eq!(p.eta_seconds(ms(60_000)), None);
    p.tick(&tick(2, None), ms(60_000));
    assert_eq!(p.eta_seconds(ms(4_999)), None);
    assert_eq!(p.eta_seconds(ms(5_000)), Some(245));
    p.tick(&tick(50, None), ms(60_000));
    assert_eq!(p.eta_seconds(ms(61_999)), Some(61));
    assert_eq!(p.eta_seconds(u64::MAX), Some(u64::MAX / 1_000_000_000));
    p.tick(&tick(100, None), ms(60_000));
    assert_eq!(p.eta_seconds(ms(70_000)), None);
}

#[test]
fn the_time_left_is_measured_to_the_nanosecond() {
    let mut p = ProgressState::start(0);
    p.tick(&tick(2, None), ms(100));
    assert_eq!(p.eta_seconds(4_999_999_999), None);
    assert_eq!(p.eta_seconds(5_102_000_000), Some(249));
    assert_eq!(p.eta_seconds(5_102_300_000), Some(250));
    let mut p = ProgressState::start(600_000);
    assert!(!p.heartbeat(120_000_599_999).push);
    assert!(p.heartbeat(120_000_600_000).push);
}

#[test]
fn amautum_is_told_by_points_or_by_time() {
    let mut p = ProgressState::start(0);
    assert!(!p.tick(&tick(4, None), ms(10)).push);
    assert!(p.tick(&tick(5, None), ms(20)).push);
    assert!(!p.tick(&tick(9, None), ms(30)).push);
    assert!(!p.heartbeat(ms(120_019)).push);
    assert!(p.heartbeat(ms(120_020)).push);
    assert!(!p.heartbeat(ms(120_021)).push);
    assert!(p.tick(&tick(9, None), ms(240_020)).push);
    assert!(p.tick(&tick(100, None), ms(240_030)).push);
    assert!(p.tick(&tick(100, None), ms(240_031)).push);
}

#[test]
fn times_in_words() {
    assert_eq!(fmt_duration(0), "duración desconocida");
    assert_eq!(fmt_duration(-5), "duración desconocida");
    assert_eq!(fmt_duration(secs(0.999)), "0 s");
    assert_eq!(fmt_duration(secs(59.9999)), "59 s");
    assert_eq!(fmt_duration(secs(60.0)), "1 min 00 s");
    assert_eq!(fmt_duration(secs(8_040.0)), "2 h 14 min");
    assert_eq!(fmt_eta(59), "59s");
    assert_eq!(fmt_eta(60), "1m");
    assert_eq!(fmt_eta(3_660), "1h 01m");
    assert_eq!(hardware_str(Hardware::Metal), "metal");
}

// ── The server ──────────────────────────────────────────────────────────────

#[test]
fn jobs_that_cannot_be_started_are_refused() {
    assert_eq!(check_start(&payload(false), true, Some(100)), None);
    assert_eq!(check_start(&payload(false), true, None), None);
    assert_eq!(check_start(&payload(false), false, None), Some(StartRefusal::NoFile));
    let changed = check_start(&payload(false), true, Some(99)).unwrap();
    assert_eq!(changed, StartRefusal::SizeChanged { expected: 100, actual: 99 });
    assert_eq!(changed.message(), SIZE_CHANGED);
    let mut nameless = payload(false);
    nameless.token = s("");
    assert_eq!(check_start(&nameless, false, None), Some(StartRefusal::MissingIds));
    assert_eq!(StartRefusal::MissingIds.message(), "jobId y token son requeridos");
    assert_eq!(
        StartRefusal::NoFile.message(),
        "El archivo de audio no existe en esta máquina"
    );
    let mut unsized_file = payload(false);
    unsized_file.file_size = None;
    assert_eq!(check_start(&unsized_file, true, Some(1)), None);
    assert_eq!(ws_url("j1"), "ws://localhost:17173/ws?jobId=j1");
}

#[test]
fn only_known_origins_are_heard() {
    assert!(origin_allowed(None));
    for known in ["https://www.amautum.com", "https://amautum.com", "http://localhost:3000"] {
        assert!(origin_allowed(Some(known)));
    }
    for other in ["https://evil.example", "https://amautum.com.evil.example", "", "null"] {
        assert!(!origin_allowed(Some(other)));
    }
    assert_eq!((ACCEPTED, BAD_REQUEST, FORBIDDEN), (202, 400, 403));
    assert_eq!((NOT_FOUND, CONFLICT), (404, 409));
}

#[test]
fn the_health_of_the_agent() {
    let mut state = AppState::new();
    let h = health(&state);
    assert!(h.ok && h.dependencies_ok && !h.busy);
    assert_eq!((h.version, h.jobs_running, h.dependencies_error), ("0.1.13", 0, None));
    state.accept_job(&payload(false), None, 1);
    state.record_probe(Err(s("x")), Ok(s("w")), 2);
    let h = health(&state);
    assert!(!h.ok && h.busy);
    assert_eq!(h.jobs_running, 1);
    assert_eq!(h.dependencies_error.as_deref(), Some("Conversor de audio (ffmpeg): x"));
}

#[test]
fn only_known_links_are_opened() {
    let mut state = AppState::new();
    assert_eq!(open_target(&state, "https://evil.example", HOST), None);
    assert_eq!(
        open_target(&state, "release", HOST).as_deref(),
        Some("https://github.com/Sugestion-Studio/amautum-transcriptor/releases/latest")
    );
    state.note_update(check(Some("v9.0.0"), HOST).unwrap(), 1);
    assert!(open_target(&state, "release", HOST)
        .unwrap()
        .ends_with("/download/v9.0.0/AmautumTranscriptor-9.0.0-windows-x64.msi"));
    assert_eq!(
        open_target(&state, "downloads", HOST).as_deref(),
        Some("https://www.amautum.com/downloads/transcriptor")
    );
    state.record_probe(Err(s("x")), Ok(s("w")), 2);
    assert!(open_target(&state, "support", HOST).unwrap().contains("&ctx=Componentes%3A%20"));
}

#[test]
fn menus_lead_where_the_window_does() {
    let mut state = AppState::new();
    state.record_probe(Err(s("x")), Ok(s("w")), 2);
    let url = |id: &str, error| match menu_action(id, error, HOST) {
        MenuAction::OpenUrl(url) => Some(url),
        _ => None,
    };
    assert_eq!(url("support", state.last_error()), open_target(&state, "support", HOST));
    assert_eq!(url("downloads", None), open_target(&state, "downloads", HOST));
    assert!(url("notes", None).unwrap().ends_with("/tag/v0.1.13"));
    assert_eq!(url("amautum", None).as_deref(), Some("https://www.amautum.com"));
    assert!(matches!(menu_action("open", None, HOST), MenuAction::ShowWindow));
    assert!(matches!(menu_action("quit", None, HOST), MenuAction::Quit));
    assert!(matches!(menu_action("otra", None, HOST), MenuAction::Nothing));
    assert_eq!(pick_title(None), "Elige el audio de la audiencia");
    assert_eq!(pick_title(Some(s("Otro"))), "Otro");
}
