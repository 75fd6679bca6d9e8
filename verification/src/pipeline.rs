//! A transcription from end to end: convert the audio, load the model, transcribe, tell the
//! speakers apart where that is asked for, and upload the transcript.
//!
//! Whatever goes wrong on the way, a job does not stay in limbo: it ends as completed or as
//! failed, or its transcript waits on disk to be uploaded. Every failure says what the person
//! can do about it, and a transcript that exists is never thrown away.
use crate::amautum::{AmautumError, AmautumErrorView, TranscriptResponse};
use crate::config::{version, VERSION};
use crate::diarize::{
    all_labelled, appeared, diarize_segments, labels, DiarizeError, DiarizeErrorView, SpeakerSpan,
};
use crate::ffmpeg::{FfmpegError, FfmpegErrorView, Preprocessed};
use crate::models::{ModelError, ModelErrorView};
use crate::pending::{PendingUpload, PendingView};
use crate::progress::{
    beat_report, beaten, duration_words, eta_words, fmt_duration, fmt_eta, progress_start,
    tick_report, ticked, ProgressReport, ProgressState, ProgressView, ReportView,
};
use crate::state::{logged, updated, AppState, AppView, ChangeView, JobChange};
use crate::text::{copy_opt, opt_text, prefixed, texts};
use crate::types::{
    AgentEvent, AgentTriggerPayload, EventView, FailStage, FailUpload, FailUploadView, Hardware,
    JobStage, ProgressUpload, ProgressUploadView, SegmentView, TranscriptUpload, TranscriptView,
};
use crate::whisper::{
    ProgressTick, RunView, TickView, WhisperError, WhisperErrorView, WhisperRun,
};
use crate::ws_hub::{channels_kept, published, replayed};
use vstd::prelude::*;
use vstd::string::*;

verus! {

// ── Failures ────────────────────────────────────────────────────────────────

/// What can stop a job.
#[derive(Debug)]
pub enum PipelineError {
    Ffmpeg(FfmpegError),
    Whisper(WhisperError),
    Diarize(DiarizeError),
    Model(ModelError),
    Amautum(AmautumError),
    Io(String),
}

/// What can stop a job, by its texts.
pub enum PipelineErrorView {
    Ffmpeg(FfmpegErrorView),
    Whisper(WhisperErrorView),
    Diarize(DiarizeErrorView),
    Model(ModelErrorView),
    Amautum(AmautumErrorView),
    Io(Seq<char>),
}

impl View for PipelineError {
    type V = PipelineErrorView;

    open spec fn view(&self) -> PipelineErrorView {
        match *self {
            PipelineError::Ffmpeg(e) => PipelineErrorView::Ffmpeg(e@),
            PipelineError::Whisper(e) => PipelineErrorView::Whisper(e@),
            PipelineError::Diarize(e) => PipelineErrorView::Diarize(e@),
            PipelineError::Model(e) => PipelineErrorView::Model(e@),
            PipelineError::Amautum(e) => PipelineErrorView::Amautum(e@),
            PipelineError::Io(e) => PipelineErrorView::Io(e@),
        }
    }
}

pub const HINT_FFMPEG: &'static str = "Revisa que el archivo se reproduzca en tu reproductor habitual. Si es un video, prueba exportando solo el audio a MP3 y vuelve a intentar.";

pub const HINT_MODEL: &'static str = "No pudimos preparar el motor de transcripción. Revisa tu conexión a internet y el espacio libre en disco (el modelo `medium` ocupa 1,5 GB) y reintenta.";

pub const HINT_STALLED: &'static str = "Desactiva la suspensión automática del equipo, autoriza «Amautum Transcriptor» en tu antivirus y reintenta. Con un modelo más pequeño (base o small) el trabajo termina en una fracción del tiempo.";

pub const HINT_WHISPER: &'static str = "Reintenta el trabajo. Si vuelve a fallar, prueba con un modelo más pequeño (base o small) y copia el diagnóstico desde la ventana del agente.";

pub const HINT_DIARIZE: &'static str = "Vuelve a lanzar el trabajo sin identificación de interlocutores: la transcripción sale igual, solo sin las etiquetas de orador.";

pub const HINT_AMAUTUM: &'static str = "Revisa tu conexión a internet y que tu sesión de Amautum siga activa. Si el acta quedó guardada en este equipo, la ventana del agente te deja reintentar la subida.";

pub const HINT_IO: &'static str = "Revisa el espacio libre en disco y los permisos de la carpeta temporal, y reintenta.";

pub const HINT_TEMP_DIR: &'static str = "Revisa el espacio libre en disco y los permisos de la carpeta temporal del sistema, y reintenta.";

impl PipelineErrorView {
    /// The stage at which the job failed.
    pub open spec fn fail_stage(self) -> FailStage {
        match self {
            PipelineErrorView::Ffmpeg(_) => FailStage::Ffmpeg,
            PipelineErrorView::Model(_) => FailStage::ModelLoad,
            PipelineErrorView::Whisper(e) => if e is ModelMissing {
                FailStage::ModelLoad
            } else {
                FailStage::Inference
            },
            PipelineErrorView::Diarize(_) => FailStage::Diarization,
            PipelineErrorView::Amautum(_) => FailStage::Upload,
            PipelineErrorView::Io(_) => FailStage::Unknown,
        }
    }

    /// What the person can do about it.
    pub open spec fn advice(self) -> Seq<char> {
        match self {
            PipelineErrorView::Ffmpeg(_) => HINT_FFMPEG@,
            PipelineErrorView::Model(_) => HINT_MODEL@,
            PipelineErrorView::Whisper(e) => if e is Stalled {
                HINT_STALLED@
            } else {
                HINT_WHISPER@
            },
            PipelineErrorView::Diarize(_) => HINT_DIARIZE@,
            PipelineErrorView::Amautum(_) => HINT_AMAUTUM@,
            PipelineErrorView::Io(_) => HINT_IO@,
        }
    }

    /// The message of the error.
    pub open spec fn text(self) -> Seq<char> {
        match self {
            PipelineErrorView::Ffmpeg(e) => "ffmpeg: "@ + e.text(),
            PipelineErrorView::Whisper(e) => "whisper: "@ + e.text(),
            PipelineErrorView::Diarize(e) => "diarización: "@ + e.text(),
            PipelineErrorView::Model(e) => "modelo: "@ + e.text(),
            PipelineErrorView::Amautum(e) => "amautum: "@ + e.text(),
            PipelineErrorView::Io(e) => "io: "@ + e,
        }
    }
}

impl PipelineError {
    /// The stage at which the job failed.
    pub fn stage(&self) -> (r: FailStage)
        ensures
            r == self@.fail_stage(),
    {
        match self {
            PipelineError::Ffmpeg(_) => FailStage::Ffmpeg,
            PipelineError::Model(_) => FailStage::ModelLoad,
            PipelineError::Whisper(WhisperError::ModelMissing(_)) => FailStage::ModelLoad,
            PipelineError::Whisper(_) => FailStage::Inference,
            PipelineError::Diarize(_) => FailStage::Diarization,
            PipelineError::Amautum(_) => FailStage::Upload,
            PipelineError::Io(_) => FailStage::Unknown,
        }
    }

    /// What the person can do about it.
    pub fn hint(&self) -> (r: &'static str)
        ensures
            r@ == self@.advice(),
    {
        match self {
            PipelineError::Ffmpeg(_) => HINT_FFMPEG,
            PipelineError::Model(_) => HINT_MODEL,
            PipelineError::Whisper(WhisperError::Stalled(_)) => HINT_STALLED,
            PipelineError::Whisper(_) => HINT_WHISPER,
            PipelineError::Diarize(_) => HINT_DIARIZE,
            PipelineError::Amautum(_) => HINT_AMAUTUM,
            PipelineError::Io(_) => HINT_IO,
        }
    }

    /// The message of the error.
    pub fn message(&self) -> (r: String)
        ensures
            r@ == self@.text(),
    {
        match self {
            PipelineError::Ffmpeg(e) => prefixed("ffmpeg: ", e.message().as_str()),
            PipelineError::Whisper(e) => prefixed("whisper: ", e.message().as_str()),
            PipelineError::Diarize(e) => prefixed("diarización: ", e.message().as_str()),
            PipelineError::Model(e) => prefixed("modelo: ", e.message().as_str()),
            PipelineError::Amautum(e) => prefixed("amautum: ", e.message().as_str()),
            PipelineError::Io(e) => prefixed("io: ", e.as_str()),
        }
    }
}

/// Name of the hardware, as Amautum is told.
pub open spec fn hardware_name(h: Hardware) -> Seq<char> {
    match h {
        Hardware::Cpu => "cpu"@,
        Hardware::Cuda => "cuda"@,
        Hardware::Metal => "metal"@,
    }
}

/// Name of the hardware, as Amautum is told.
pub fn hardware_str(h: Hardware) -> (r: &'static str)
    ensures
        r@ == hardware_name(h),
{
    match h {
        Hardware::Cpu => "cpu",
        Hardware::Cuda => "cuda",
        Hardware::Metal => "metal",
    }
}

// ── The steps of a job ──────────────────────────────────────────────────────

/// The two clocks of a step: the time of day, for what is shown, in milliseconds, and one that
/// never goes back, for what is measured, in nanoseconds.
#[derive(Debug, Clone, Copy, PartialEq, Eq, Structural)]
pub struct Clock {
    pub wall_ms: u64,
    pub steady_ns: u64,
}

/// How a job ended.
#[derive(Debug, Clone, Copy, PartialEq, Eq, Structural)]
pub enum JobOutcome {
    /// Amautum has the transcript.
    Completed,
    /// The transcript is on disk and waits for a connection.
    UploadPending,
    /// It came to nothing.
    Failed,
}

/// What a job waits for.
#[derive(Debug, Clone, Copy, PartialEq, Eq, Structural)]
pub enum JobPhase {
    TempDir,
    Converting,
    Reporting,
    LoadingModel,
    Transcribing,
    Diarizing,
    Uploading,
    Waiting,
    Saving,
    ReportingFailure,
    Ended(JobOutcome),
}

/// What a job asks for.
#[derive(Debug, Clone, Copy, PartialEq, Eq, Structural)]
pub enum JobAction {
    /// Make a folder that goes when the job does.
    MakeTempDir,
    /// Convert the audio.
    Convert,
    /// Tell Amautum that the job began. Whether it hears it does not matter.
    ReportStart,
    /// Have the model on disk.
    EnsureModel,
    /// Transcribe the audio.
    Transcribe,
    /// Hear who speaks when.
    Diarize,
    /// Upload the transcript.
    Upload,
    /// Let some seconds pass.
    Wait(u64),
    /// Write the transcript to disk.
    Save,
    /// Tell Amautum that the job failed. Whether it hears it does not matter.
    ReportFailure,
    /// Nothing: the job is over.
    Done,
}

/// What came of what a job asked for. Errors of the system are given by their messages.
pub enum JobEvent {
    TempDirMade(Result<(), String>),
    /// The audio was converted; `Hardware` is what the engine will run on.
    Converted(Result<Preprocessed, FfmpegError>, Hardware),
    StartReported,
    ModelReady(Result<(), ModelError>),
    Transcribed(Result<WhisperRun, WhisperError>),
    Diarized(Result<Vec<SpeakerSpan>, PipelineError>),
    Uploaded(Result<TranscriptResponse, AmautumError>),
    Waited,
    Saved(Result<(), String>),
    FailureReported,
}

/// How many times an upload that failed is tried again at once.
pub const UPLOAD_RETRIES: u32 = 4;

/// A job that is under way.
pub struct JobRun {
    payload: AgentTriggerPayload,
    phase: JobPhase,
    hardware: Hardware,
    duration: i128,
    progress: ProgressState,
    upload: Option<TranscriptUpload>,
    attempt: u32,
    refusal: Option<AmautumError>,
    failure: Option<FailUpload>,
}

/// A job that is under way, by its texts.
#[verifier::ext_equal]
pub struct JobRunView {
    /// What the browser asked for.
    pub payload: AgentTriggerPayload,
    pub phase: JobPhase,
    pub hardware: Hardware,
    pub duration: i128,
    pub progress: ProgressView,
    /// The transcript, once there is one.
    pub upload: Option<TranscriptView>,
    /// How many times the upload was tried again.
    pub attempt: u32,
    /// Why Amautum will not take the transcript, where it will not.
    pub refusal: Option<AmautumErrorView>,
    /// What Amautum is told of the failure, where there is one.
    pub failure: Option<FailUploadView>,
}

impl View for JobRun {
    type V = JobRunView;

    closed spec fn view(&self) -> JobRunView {
        JobRunView {
            payload: self.payload,
            phase: self.phase,
            hardware: self.hardware,
            duration: self.duration,
            progress: self.progress@,
            upload: match self.upload {
                Some(u) => Some(u@),
                None => None,
            },
            attempt: self.attempt,
            refusal: match self.refusal {
                Some(e) => Some(e@),
                None => None,
            },
            failure: match self.failure {
                Some(f) => Some(f@),
                None => None,
            },
        }
    }
}

/// Once there is a transcript it is kept until the job is over, a failure that is to be reported
/// is known, and an upload is tried again no more often than it may.
pub open spec fn job_ok(r: JobRunView) -> bool {
    &&& r.phase matches JobPhase::Diarizing ==> r.upload is Some
    &&& r.phase matches JobPhase::Uploading ==> r.upload is Some
    &&& r.phase matches JobPhase::Waiting ==> r.upload is Some && r.attempt >= 1
    &&& r.phase matches JobPhase::Saving ==> r.upload is Some
    &&& r.phase matches JobPhase::ReportingFailure ==> r.failure is Some
    &&& r.attempt <= UPLOAD_RETRIES
}

/// Two to the power of `n`.
pub open spec fn doubled(n: nat) -> nat
    decreases n,
{
    if n == 0 {
        1
    } else {
        2 * doubled((n - 1) as nat)
    }
}

/// What a job asks for while it waits. An upload that failed waits twice as long each time.
pub open spec fn awaits(r: JobRunView) -> JobAction {
    match r.phase {
        JobPhase::TempDir => JobAction::MakeTempDir,
        JobPhase::Converting => JobAction::Convert,
        JobPhase::Reporting => JobAction::ReportStart,
        JobPhase::LoadingModel => JobAction::EnsureModel,
        JobPhase::Transcribing => JobAction::Transcribe,
        JobPhase::Diarizing => JobAction::Diarize,
        JobPhase::Uploading => JobAction::Upload,
        JobPhase::Waiting => JobAction::Wait(doubled(r.attempt as nat) as u64),
        JobPhase::Saving => JobAction::Save,
        JobPhase::ReportingFailure => JobAction::ReportFailure,
        JobPhase::Ended(_) => JobAction::Done,
    }
}

/// A job and what the agent knows.
#[verifier::ext_equal]
pub struct JobStep {
    pub run: JobRunView,
    pub state: AppView,
}

/// The state once the pages that listen have been told `event`.
pub open spec fn told(v: AppView, event: EventView) -> AppView {
    AppView { hub: published(v.hub, event), ..v }
}

pub const LOG_CONVERTING: &'static str = "Convirtiendo el audio a WAV 16 kHz mono.";

pub const LOG_DIARIZING: &'static str = "Transcripción lista — identificando interlocutores.";

pub const LOG_COMPLETED: &'static str = "Trabajo terminado y entregado a Amautum.";

pub const LOG_PENDING: &'static str = "El acta terminó pero no se pudo subir. Guardada en este equipo para reintentar.";

pub const LOG_SAVED: &'static str = "). La transcripción NO se perdió: quedó guardada en este equipo.";

pub const LOG_NOT_SAVED: &'static str = ") y tampoco pudimos guardarla en disco: ";

/// How a job begins.
pub open spec fn job_begun(payload: AgentTriggerPayload, v: AppView, clock: Clock) -> JobStep {
    JobStep {
        run: JobRunView {
            payload,
            phase: JobPhase::TempDir,
            hardware: Hardware::Cpu,
            duration: 0,
            progress: progress_start(clock.steady_ns),
            upload: None,
            attempt: 0,
            refusal: None,
            failure: None,
        },
        state: told(v, EventView::Queued { job_id: payload.job_id@ }),
    }
}

/// A job that fails: the log, the window, the pages that listen and Amautum are told.
pub open spec fn failing(
    r: JobRunView,
    v: AppView,
    stage: FailStage,
    error: Seq<char>,
    hint: Seq<char>,
    clock: Clock,
) -> JobStep {
    let id = r.payload.job_id@;
    let v1 = logged(
        v,
        clock.wall_ms,
        "error"@,
        "Trabajo fallado ("@ + stage.label() + "): "@ + error,
    );
    let v2 = updated(v1, id, ChangeView::Failed { error, hint }, clock.wall_ms);
    JobStep {
        run: JobRunView {
            phase: JobPhase::ReportingFailure,
            failure: Some(FailUploadView { error, stage, progreso: None }),
            ..r
        },
        state: told(v2, EventView::Failed { job_id: id, stage, error }),
    }
}

/// A job that fails with `e`.
pub open spec fn failing_with(
    r: JobRunView,
    v: AppView,
    e: PipelineErrorView,
    clock: Clock,
) -> JobStep {
    failing(r, v, e.fail_stage(), e.text(), e.advice(), clock)
}

/// A job that goes on to convert the audio.
pub open spec fn to_converting(r: JobRunView, v: AppView, clock: Clock) -> JobStep {
    let id = r.payload.job_id@;
    let v1 = updated(v, id, ChangeView::Stage(JobStage::Preprocess), clock.wall_ms);
    let v2 = logged(v1, clock.wall_ms, "info"@, LOG_CONVERTING@);
    JobStep {
        run: JobRunView { phase: JobPhase::Converting, ..r },
        state: told(v2, EventView::Preprocess { job_id: id, stage: "ffmpeg"@ }),
    }
}

/// A job whose audio is converted.
pub open spec fn to_reporting(
    r: JobRunView,
    v: AppView,
    duration: i128,
    hardware: Hardware,
    clock: Clock,
) -> JobStep {
    let id = r.payload.job_id@;
    let v1 = updated(
        v,
        id,
        ChangeView::Prepared {
            hardware: hardware_name(hardware),
            audio_length: if duration > 0 {
                Some(duration)
            } else {
                None
            },
        },
        clock.wall_ms,
    );
    JobStep {
        run: JobRunView { phase: JobPhase::Reporting, hardware, duration, ..r },
        state: told(
            v1,
            EventView::Started { job_id: id, hardware, model: r.payload.model.name() },
        ),
    }
}

/// What the log says when the engine begins.
pub open spec fn transcribing_text(r: JobRunView) -> Seq<char> {
    "Transcribiendo con el modelo "@ + r.payload.model.name() + " en "@ + hardware_name(r.hardware)
        + " — "@ + duration_words(r.duration as int) + " de audio"@
}

/// A job whose model is there.
pub open spec fn to_transcribing(r: JobRunView, v: AppView, clock: Clock) -> JobStep {
    let v1 = updated(
        v,
        r.payload.job_id@,
        ChangeView::Stage(JobStage::Transcribing),
        clock.wall_ms,
    );
    JobStep {
        run: JobRunView {
            phase: JobPhase::Transcribing,
            progress: progress_start(clock.steady_ns),
            ..r
        },
        state: logged(v1, clock.wall_ms, "info"@, transcribing_text(r)),
    }
}

/// The transcript of a job, before anybody is told apart. Where the audio does not say how long
/// it is, it is as long as what was said in it.
pub open spec fn transcript_of(run: RunView, duration: i128) -> TranscriptView {
    TranscriptView {
        language: run.language,
        model: run.model_used,
        duration: if duration > 0 {
            duration as int
        } else if run.segments.len() > 0 {
            run.segments.last().end
        } else {
            0
        },
        full_text: run.full_text,
        segments: run.segments,
        speakers: None,
        summary: None,
    }
}

/// A transcript with the names of those who speak, where there is anything to go by.
pub open spec fn with_speakers(t: TranscriptView, spans: Seq<SpeakerSpan>) -> TranscriptView {
    if spans.len() == 0 {
        t
    } else {
        TranscriptView {
            segments: all_labelled(t.segments, spans),
            speakers: if appeared(t.segments, spans).len() == 0 {
                t.speakers
            } else {
                Some(labels(appeared(t.segments, spans).len()))
            },
            ..t
        }
    }
}

/// A job that goes on to upload its transcript.
pub open spec fn to_uploading(r: JobRunView, v: AppView, clock: Clock) -> JobStep {
    let id = r.payload.job_id@;
    let v1 = updated(v, id, ChangeView::Uploading, clock.wall_ms);
    JobStep {
        run: JobRunView { phase: JobPhase::Uploading, attempt: 0, ..r },
        state: told(v1, EventView::Uploading { job_id: id }),
    }
}

/// A job whose audio is transcribed: the speakers are told apart where that was asked for.
pub open spec fn after_transcription(r: JobRunView, v: AppView, clock: Clock) -> JobStep {
    let id = r.payload.job_id@;
    if r.payload.diarize {
        let v1 = updated(v, id, ChangeView::Diarizing, clock.wall_ms);
        let v2 = logged(v1, clock.wall_ms, "info"@, LOG_DIARIZING@);
        JobStep {
            run: JobRunView { phase: JobPhase::Diarizing, ..r },
            state: told(v2, EventView::Diarizing { job_id: id }),
        }
    } else {
        to_uploading(r, v, clock)
    }
}

/// A job whose transcript Amautum has.
pub open spec fn to_completed(
    r: JobRunView,
    v: AppView,
    transcript_id: Seq<char>,
    clock: Clock,
) -> JobStep {
    let id = r.payload.job_id@;
    let v1 = updated(v, id, ChangeView::Completed, clock.wall_ms);
    let v2 = logged(v1, clock.wall_ms, "info"@, LOG_COMPLETED@);
    JobStep {
        run: JobRunView { phase: JobPhase::Ended(JobOutcome::Completed), ..r },
        state: told(v2, EventView::Completed { job_id: id, transcript_id }),
    }
}

/// A job whose upload failed. What may succeed later is tried again, a few times; what will not,
/// and what did not, is written to disk.
pub open spec fn after_failed_upload(r: JobRunView, v: AppView, e: AmautumErrorView) -> JobStep {
    if !e.passing() {
        JobStep {
            run: JobRunView { phase: JobPhase::Saving, refusal: Some(e), ..r },
            state: v,
        }
    } else if r.attempt < UPLOAD_RETRIES {
        JobStep {
            run: JobRunView { phase: JobPhase::Waiting, attempt: (r.attempt + 1) as u32, ..r },
            state: told(v, EventView::Uploading { job_id: r.payload.job_id@ }),
        }
    } else {
        JobStep { run: JobRunView { phase: JobPhase::Saving, refusal: None, ..r }, state: v }
    }
}

/// A job whose transcript was to be written to disk.
pub open spec fn after_saving(
    r: JobRunView,
    v: AppView,
    saved: Result<(), Seq<char>>,
    clock: Clock,
) -> JobStep {
    let id = r.payload.job_id@;
    match r.refusal {
        Some(e) => {
            let text = match saved {
                Ok(_) => "Amautum rechazó el acta ("@ + e.text() + LOG_SAVED@,
                Err(err) => "Amautum rechazó el acta ("@ + e.text() + LOG_NOT_SAVED@ + err,
            };
            failing_with(
                r,
                logged(v, clock.wall_ms, "error"@, text),
                PipelineErrorView::Amautum(e),
                clock,
            )
        },
        None => match saved {
            Ok(_) => {
                let v1 = updated(v, id, ChangeView::UploadPending, clock.wall_ms);
                let v2 = logged(v1, clock.wall_ms, "warn"@, LOG_PENDING@);
                JobStep {
                    run: JobRunView { phase: JobPhase::Ended(JobOutcome::UploadPending), ..r },
                    state: told(v2, EventView::UploadPending { job_id: id }),
                }
            },
            Err(err) => failing_with(r, v, PipelineErrorView::Io(err), clock),
        },
    }
}

/// A result by the text of its error.
pub open spec fn outcome_text(r: Result<(), String>) -> Result<(), Seq<char>> {
    match r {
        Ok(_) => Ok(()),
        Err(e) => Err(e@),
    }
}

/// How a job goes on. What it did not ask for changes nothing.
pub open spec fn job_stepped(r: JobRunView, v: AppView, event: JobEvent, clock: Clock) -> JobStep {
    match (r.phase, event) {
        (JobPhase::TempDir, JobEvent::TempDirMade(made)) => match made {
            Ok(_) => to_converting(r, v, clock),
            Err(e) => failing(
                r,
                v,
                FailStage::Unknown,
                "No pudimos crear la carpeta temporal de trabajo: "@ + e@,
                HINT_TEMP_DIR@,
                clock,
            ),
        },
        (JobPhase::Converting, JobEvent::Converted(converted, hardware)) => match converted {
            Ok(pre) => to_reporting(r, v, pre.duration, hardware, clock),
            Err(e) => failing_with(r, v, PipelineErrorView::Ffmpeg(e@), clock),
        },
        (JobPhase::Reporting, JobEvent::StartReported) => JobStep {
            run: JobRunView { phase: JobPhase::LoadingModel, ..r },
            state: updated(
                v,
                r.payload.job_id@,
                ChangeView::Stage(JobStage::DownloadingModel),
                clock.wall_ms,
            ),
        },
        (JobPhase::LoadingModel, JobEvent::ModelReady(ready)) => match ready {
            Ok(_) => to_transcribing(r, v, clock),
            Err(e) => failing_with(r, v, PipelineErrorView::Model(e@), clock),
        },
        (JobPhase::Transcribing, JobEvent::Transcribed(run)) => match run {
            Ok(run) => after_transcription(
                JobRunView { upload: Some(transcript_of(run@, r.duration)), ..r },
                v,
                clock,
            ),
            Err(e) => failing_with(r, v, PipelineErrorView::Whisper(e@), clock),
        },
        (JobPhase::Diarizing, JobEvent::Diarized(spans)) => match spans {
            Ok(spans) => to_uploading(
                JobRunView { upload: Some(with_speakers(r.upload->0, spans@)), ..r },
                v,
                clock,
            ),
            Err(_) => to_uploading(r, v, clock),
        },
        (JobPhase::Uploading, JobEvent::Uploaded(uploaded)) => match uploaded {
            Ok(response) => to_completed(r, v, response.transcript_id@, clock),
            Err(e) => after_failed_upload(r, v, e@),
        },
        (JobPhase::Waiting, JobEvent::Waited) => JobStep {
            run: JobRunView { phase: JobPhase::Uploading, ..r },
            state: v,
        },
        (JobPhase::Saving, JobEvent::Saved(saved)) => after_saving(
            r,
            v,
            outcome_text(saved),
            clock,
        ),
        (JobPhase::ReportingFailure, JobEvent::FailureReported) => JobStep {
            run: JobRunView { phase: JobPhase::Ended(JobOutcome::Failed), ..r },
            state: v,
        },
        _ => JobStep { run: r, state: v },
    }
}

/// What Amautum is told when a job begins.
pub open spec fn start_report(r: JobRunView) -> ProgressUploadView {
    ProgressUploadView {
        progreso: 0,
        tiempo_estimado: None,
        hardware: Some(hardware_name(r.hardware)),
        agente_version: Some(VERSION@),
        estado: Some("procesando"@),
    }
}

/// What Amautum is told of the progress of a job.
pub open spec fn progress_report(r: JobRunView, report: ReportView) -> ProgressUploadView {
    ProgressUploadView {
        progreso: report.percent,
        tiempo_estimado: match report.eta_seconds {
            Some(secs) => Some(eta_words(secs as nat)),
            None => None,
        },
        hardware: Some(hardware_name(r.hardware)),
        agente_version: Some(VERSION@),
        estado: None,
    }
}

/// What the pages that listen are told of the progress of a job.
pub open spec fn progress_event(job_id: Seq<char>, report: ReportView) -> EventView {
    EventView::Progress {
        job_id,
        progress: report.percent,
        eta_seconds: report.eta_seconds,
        last_segment: None,
        note: report.note,
    }
}

/// A job once the engine has spoken. It is listened to only while it transcribes.
pub open spec fn job_ticked(r: JobRunView, v: AppView, tick: TickView, clock: Clock) -> JobStep {
    if r.phase != JobPhase::Transcribing {
        JobStep { run: r, state: v }
    } else {
        let id = r.payload.job_id@;
        let report = tick_report(r.progress, tick, clock.steady_ns);
        let v1 = updated(
            v,
            id,
            ChangeView::Progress {
                progress: report.percent,
                eta_seconds: report.eta_seconds,
                note: report.note,
            },
            clock.wall_ms,
        );
        JobStep {
            run: JobRunView { progress: ticked(r.progress, tick, clock.steady_ns), ..r },
            state: told(v1, progress_event(id, report)),
        }
    }
}

/// A job once the agent has said again what it knows. It has nothing to say but while the engine
/// works: to say that it still does would be a lie.
pub open spec fn job_beaten(r: JobRunView, v: AppView, clock: Clock) -> JobStep {
    if r.phase != JobPhase::Transcribing {
        JobStep { run: r, state: v }
    } else {
        let id = r.payload.job_id@;
        let report = beat_report(r.progress, clock.steady_ns);
        let v1 = updated(
            v,
            id,
            ChangeView::Heartbeat { eta_seconds: report.eta_seconds, note: report.note },
            clock.wall_ms,
        );
        JobStep {
            run: JobRunView { progress: beaten(r.progress, clock.steady_ns), ..r },
            state: told(v1, progress_event(id, report)),
        }
    }
}

/// What Amautum is told where it has to be.
pub open spec fn pushed(r: JobRunView, report: ReportView) -> Option<ProgressUploadView> {
    if r.phase == JobPhase::Transcribing && report.push {
        Some(progress_report(r, report))
    } else {
        None
    }
}

/// An optional progress report by its texts.
pub open spec fn opt_upload(o: Option<ProgressUpload>) -> Option<ProgressUploadView> {
    match o {
        Some(p) => Some(p@),
        None => None,
    }
}

/// What is written to disk of a job whose transcript could not be uploaded. It is dated when it
/// is written.
pub open spec fn parcel_of(r: JobRunView) -> Option<PendingView> {
    match r.upload {
        Some(upload) => Some(
            PendingView {
                job_id: r.payload.job_id@,
                transcript_callback: r.payload.callbacks.transcript@,
                token: r.payload.token@,
                upload,
                saved_at: 0,
            },
        ),
        None => None,
    }
}

impl JobRun {
    /// Begins a job: the pages that listen are told that it is queued.
    pub fn begin(payload: AgentTriggerPayload, state: &mut AppState, clock: Clock) -> (r: JobRun)
        requires
            old(state).wf(),
        ensures
            job_ok(r@),
            final(state).wf(),
            (JobStep { run: r@, state: final(state)@ }) == job_begun(payload, old(state)@, clock),
            channels_kept(
                old(state)@.hub,
                old(state).keys(),
                final(state).keys(),
                payload.job_id@,
            ),
    {
        state.publish(AgentEvent::Queued { job_id: payload.job_id.clone() });
        JobRun {
            payload,
            phase: JobPhase::TempDir,
            hardware: Hardware::Cpu,
            duration: 0,
            progress: ProgressState::start(clock.steady_ns),
            upload: None,
            attempt: 0,
            refusal: None,
            failure: None,
        }
    }

    /// What the job asks for.
    pub fn action(&self) -> (r: JobAction)
        requires
            job_ok(self@),
        ensures
            r == awaits(self@),
    {
        match self.phase {
            JobPhase::TempDir => JobAction::MakeTempDir,
            JobPhase::Converting => JobAction::Convert,
            JobPhase::Reporting => JobAction::ReportStart,
            JobPhase::LoadingModel => JobAction::EnsureModel,
            JobPhase::Transcribing => JobAction::Transcribe,
            JobPhase::Diarizing => JobAction::Diarize,
            JobPhase::Uploading => JobAction::Upload,
            JobPhase::Waiting => {
                proof {
                    reveal_with_fuel(doubled, 5);
                }
                let secs: u64 = if self.attempt == 1 {
                    2
                } else if self.attempt == 2 {
                    4
                } else if self.attempt == 3 {
                    8
                } else {
                    16
                };
                JobAction::Wait(secs)
            },
            JobPhase::Saving => JobAction::Save,
            JobPhase::ReportingFailure => JobAction::ReportFailure,
            JobPhase::Ended(_) => JobAction::Done,
        }
    }

    /// How the job ended; nothing while it has not.
    pub fn outcome(&self) -> (r: Option<JobOutcome>)
        ensures
            r == (match self@.phase {
                JobPhase::Ended(o) => Some(o),
                _ => None,
            }),
    {
        match self.phase {
            JobPhase::Ended(o) => Some(o),
            _ => None,
        }
    }

    /// What the browser asked for.
    pub fn payload(&self) -> (r: &AgentTriggerPayload)
        ensures
            *r == self@.payload,
    {
        &self.payload
    }

    /// How long the audio is; zero where that is not known.
    pub fn duration(&self) -> (r: i128)
        ensures
            r == self@.duration,
    {
        self.duration
    }

    /// Closes the job as failed. Every error that reaches a person says what they can do.
    fn fail(
        &mut self,
        state: &mut AppState,
        stage: FailStage,
        error: String,
        hint: &str,
        clock: Clock,
    )
        requires
            job_ok(old(self)@),
            old(state).wf(),
        ensures
            job_ok(final(self)@),
            final(state).wf(),
            (JobStep { run: final(self)@, state: final(state)@ }) == failing(
                old(self)@,
                old(state)@,
                stage,
                error@,
                hint@,
                clock,
            ),
            channels_kept(
                old(state)@.hub,
                old(state).keys(),
                final(state).keys(),
                old(self)@.payload.job_id@,
            ),
    {
        let mut text = "Trabajo fallado (".to_string();
        text.append(stage.as_str());
        text.append("): ");
        text.append(error.as_str());
        state.log_at(clock.wall_ms, "error", text);
        state.update_job_at(
            clock.wall_ms,
            self.payload.job_id.as_str(),
            JobChange::Failed { error: error.clone(), hint: hint.to_string() },
        );
        state.publish(
            AgentEvent::Failed {
                job_id: self.payload.job_id.clone(),
                stage,
                error: error.clone(),
            },
        );
        self.failure = Some(FailUpload { error, stage, progreso: None });
        self.phase = JobPhase::ReportingFailure;
    }

    fn fail_with(&mut self, state: &mut AppState, e: PipelineError, clock: Clock)
        requires
            job_ok(old(self)@),
            old(state).wf(),
        ensures
            job_ok(final(self)@),
            final(state).wf(),
            (JobStep { run: final(self)@, state: final(state)@ }) == failing_with(
                old(self)@,
                old(state)@,
                e@,
                clock,
            ),
            channels_kept(
                old(state)@.hub,
                old(state).keys(),
                final(state).keys(),
                old(self)@.payload.job_id@,
            ),
    {
        self.fail(state, e.stage(), e.message(), e.hint(), clock);
    }

    fn go_upload(&mut self, state: &mut AppState, clock: Clock)
        requires
            job_ok(old(self)@),
            old(self)@.upload is Some,
            old(state).wf(),
        ensures
            job_ok(final(self)@),
            final(state).wf(),
            (JobStep { run: final(self)@, state: final(state)@ }) == to_uploading(
                old(self)@,
                old(state)@,
                clock,
            ),
            channels_kept(
                old(state)@.hub,
                old(state).keys(),
                final(state).keys(),
                old(self)@.payload.job_id@,
            ),
    {
        state.update_job_at(
            clock.wall_ms,
            self.payload.job_id.as_str(),
            JobChange::Uploading,
        );
        state.publish(AgentEvent::Uploading { job_id: self.payload.job_id.clone() });
        self.attempt = 0;
        self.phase = JobPhase::Uploading;
    }

    /// Goes on with the job, given what came of what it asked for, and says what it asks for
    /// next. What it did not ask for changes nothing: it asks again.
    pub fn step(&mut self, state: &mut AppState, event: JobEvent, clock: Clock) -> (r: JobAction)
        requires
            job_ok(old(self)@),
            old(state).wf(),
        ensures
            job_ok(final(self)@),
            final(state).wf(),
            (JobStep { run: final(self)@, state: final(state)@ }) == job_stepped(
                old(self)@,
                old(state)@,
                event,
                clock,
            ),
            r == awaits(final(self)@),
            channels_kept(
                old(state)@.hub,
                old(state).keys(),
                final(state).keys(),
                old(self)@.payload.job_id@,
            ),
    {
        match (self.phase, event) {
            (JobPhase::TempDir, JobEvent::TempDirMade(made)) => {
                self.temp_dir_made(state, made, clock);
            },
            (JobPhase::Converting, JobEvent::Converted(converted, hardware)) => {
                self.converted(state, converted, hardware, clock);
            },
            (JobPhase::Reporting, JobEvent::StartReported) => {
                state.update_job_at(
                    clock.wall_ms,
                    self.payload.job_id.as_str(),
                    JobChange::Stage(JobStage::DownloadingModel),
                );
                self.phase = JobPhase::LoadingModel;
            },
            (JobPhase::LoadingModel, JobEvent::ModelReady(ready)) => {
                self.model_ready(state, ready, clock);
            },
            (JobPhase::Transcribing, JobEvent::Transcribed(run)) => {
                self.transcribed(state, run, clock);
            },
            (JobPhase::Diarizing, JobEvent::Diarized(spans)) => {
                self.diarized(state, spans, clock);
            },
            (JobPhase::Uploading, JobEvent::Uploaded(uploaded)) => {
                self.uploaded(state, uploaded, clock);
            },
            (JobPhase::Waiting, JobEvent::Waited) => {
                self.phase = JobPhase::Uploading;
            },
            (JobPhase::Saving, JobEvent::Saved(saved)) => {
                self.saved(state, saved, clock);
            },
            (JobPhase::ReportingFailure, JobEvent::FailureReported) => {
                self.phase = JobPhase::Ended(JobOutcome::Failed);
            },
            _ => {},
        }
        self.action()
    }

    fn temp_dir_made(&mut self, state: &mut AppState, made: Result<(), String>, clock: Clock)
        requires
            job_ok(old(self)@),
            old(state).wf(),
            old(self)@.phase == JobPhase::TempDir,
        ensures
            job_ok(final(self)@),
            final(state).wf(),
            (JobStep { run: final(self)@, state: final(state)@ }) == job_stepped(
                old(self)@,
                old(state)@,
                JobEvent::TempDirMade(made),
                clock,
            ),
            channels_kept(
                old(state)@.hub,
                old(state).keys(),
                final(state).keys(),
                old(self)@.payload.job_id@,
            ),
    {
        match made {
            Ok(_) => {
                state.update_job_at(
                    clock.wall_ms,
                    self.payload.job_id.as_str(),
                    JobChange::Stage(JobStage::Preprocess),
                );
                state.log_at(clock.wall_ms, "info", LOG_CONVERTING.to_string());
                state.publish(
                    AgentEvent::Preprocess {
                        job_id: self.payload.job_id.clone(),
                        stage: "ffmpeg".to_string(),
                    },
                );
                self.phase = JobPhase::Converting;
            },
            Err(e) => {
                let error = prefixed(
                    "No pudimos crear la carpeta temporal de trabajo: ",
                    e.as_str(),
                );
                self.fail(state, FailStage::Unknown, error, HINT_TEMP_DIR, clock);
            },
        }
    }

    fn converted(
        &mut self,
        state: &mut AppState,
        converted: Result<Preprocessed, FfmpegError>,
        hardware: Hardware,
        clock: Clock,
    )
        requires
            job_ok(old(self)@),
            old(state).wf(),
            old(self)@.phase == JobPhase::Converting,
        ensures
            job_ok(final(self)@),
            final(state).wf(),
            (JobStep { run: final(self)@, state: final(state)@ }) == job_stepped(
                old(self)@,
                old(state)@,
                JobEvent::Converted(converted, hardware),
                clock,
            ),
            channels_kept(
                old(state)@.hub,
                old(state).keys(),
                final(state).keys(),
                old(self)@.payload.job_id@,
            ),
    {
        match converted {
            Ok(pre) => {
                let audio_length = if pre.duration > 0 {
                    Some(pre.duration)
                } else {
                    None
                };
                state.update_job_at(
                    clock.wall_ms,
                    self.payload.job_id.as_str(),
                    JobChange::Prepared { hardware: hardware_str(hardware), audio_length },
                );
                state.publish(
                    AgentEvent::Started {
                        job_id: self.payload.job_id.clone(),
                        hardware,
                        model: self.payload.model.as_str().to_string(),
                    },
                );
                self.hardware = hardware;
                self.duration = pre.duration;
                self.phase = JobPhase::Reporting;
            },
            Err(e) => {
                self.fail_with(state, PipelineError::Ffmpeg(e), clock);
            },
        }
    }

    fn model_ready(&mut self, state: &mut AppState, ready: Result<(), ModelError>, clock: Clock)
        requires
            job_ok(old(self)@),
            old(state).wf(),
            old(self)@.phase == JobPhase::LoadingModel,
        ensures
            job_ok(final(self)@),
            final(state).wf(),
            (JobStep { run: final(self)@, state: final(state)@ }) == job_stepped(
                old(self)@,
                old(state)@,
                JobEvent::ModelReady(ready),
                clock,
            ),
            channels_kept(
                old(state)@.hub,
                old(state).keys(),
                final(state).keys(),
                old(self)@.payload.job_id@,
            ),
    {
        match ready {
            Ok(_) => {
                state.update_job_at(
                    clock.wall_ms,
                    self.payload.job_id.as_str(),
                    JobChange::Stage(JobStage::Transcribing),
                );
                let mut text = "Transcribiendo con el modelo ".to_string();
                text.append(self.payload.model.as_str());
                text.append(" en ");
                text.append(hardware_str(self.hardware));
                text.append(" — ");
                text.append(fmt_duration(self.duration).as_str());
                text.append(" de audio");
                state.log_at(clock.wall_ms, "info", text);
                self.progress = ProgressState::start(clock.steady_ns);
                self.phase = JobPhase::Transcribing;
            },
            Err(e) => {
                self.fail_with(state, PipelineError::Model(e), clock);
            },
        }
    }

    fn transcribed(
        &mut self,
        state: &mut AppState,
        run: Result<WhisperRun, WhisperError>,
        clock: Clock,
    )
        requires
            job_ok(old(self)@),
            old(state).wf(),
            old(self)@.phase == JobPhase::Transcribing,
        ensures
            job_ok(final(self)@),
            final(state).wf(),
            (JobStep { run: final(self)@, state: final(state)@ }) == job_stepped(
                old(self)@,
                old(state)@,
                JobEvent::Transcribed(run),
                clock,
            ),
            channels_kept(
                old(state)@.hub,
                old(state).keys(),
                final(state).keys(),
                old(self)@.payload.job_id@,
            ),
    {
        match run {
            Ok(run) => {
                let duration: i128 = if self.duration > 0 {
                    self.duration
                } else if run.segments.len() > 0 {
                    run.segments[run.segments.len() - 1].end
                } else {
                    0
                };
                self.upload = Some(
                    TranscriptUpload {
                        language: run.language,
                        model: run.model_used,
                        duration,
                        full_text: run.full_text,
                        segments: run.segments,
                        speakers: None,
                        summary: None,
                    },
                );
                if self.payload.diarize {
                    state.update_job_at(
                        clock.wall_ms,
                        self.payload.job_id.as_str(),
                        JobChange::Diarizing,
                    );
                    state.log_at(clock.wall_ms, "info", LOG_DIARIZING.to_string());
                    state.publish(AgentEvent::Diarizing { job_id: self.payload.job_id.clone() });
                    self.phase = JobPhase::Diarizing;
                } else {
                    self.go_upload(state, clock);
                }
            },
            Err(e) => {
                self.fail_with(state, PipelineError::Whisper(e), clock);
            },
        }
    }

    fn diarized(
        &mut self,
        state: &mut AppState,
        spans: Result<Vec<SpeakerSpan>, PipelineError>,
        clock: Clock,
    )
        requires
            job_ok(old(self)@),
            old(state).wf(),
            old(self)@.phase == JobPhase::Diarizing,
        ensures
            job_ok(final(self)@),
            final(state).wf(),
            (JobStep { run: final(self)@, state: final(state)@ }) == job_stepped(
                old(self)@,
                old(state)@,
                JobEvent::Diarized(spans),
                clock,
            ),
            channels_kept(
                old(state)@.hub,
                old(state).keys(),
                final(state).keys(),
                old(self)@.payload.job_id@,
            ),
    {
        if let Ok(spans) = spans {
            if let Some(upload) = self.upload.take() {
                self.upload = Some(label_speakers(upload, &spans));
            }
        }
        self.go_upload(state, clock);
    }

    fn uploaded(
        &mut self,
        state: &mut AppState,
        uploaded: Result<TranscriptResponse, AmautumError>,
        clock: Clock,
    )
        requires
            job_ok(old(self)@),
            old(state).wf(),
            old(self)@.phase == JobPhase::Uploading,
        ensures
            job_ok(final(self)@),
            final(state).wf(),
            (JobStep { run: final(self)@, state: final(state)@ }) == job_stepped(
                old(self)@,
                old(state)@,
                JobEvent::Uploaded(uploaded),
                clock,
            ),
            channels_kept(
                old(state)@.hub,
                old(state).keys(),
                final(state).keys(),
                old(self)@.payload.job_id@,
            ),
    {
        match uploaded {
            Ok(response) => {
                state.update_job_at(
                    clock.wall_ms,
                    self.payload.job_id.as_str(),
                    JobChange::Completed,
                );
                state.log_at(clock.wall_ms, "info", LOG_COMPLETED.to_string());
                state.publish(
                    AgentEvent::Completed {
                        job_id: self.payload.job_id.clone(),
                        transcript_id: response.transcript_id,
                    },
                );
                self.phase = JobPhase::Ended(JobOutcome::Completed);
            },
            Err(e) => {
                if !e.retriable() {
                    self.refusal = Some(e);
                    self.phase = JobPhase::Saving;
                } else if self.attempt < UPLOAD_RETRIES {
                    self.attempt = self.attempt + 1;
                    state.publish(AgentEvent::Uploading { job_id: self.payload.job_id.clone() });
                    self.phase = JobPhase::Waiting;
                } else {
                    self.refusal = None;
                    self.phase = JobPhase::Saving;
                }
            },
        }
    }

    fn saved(&mut self, state: &mut AppState, saved: Result<(), String>, clock: Clock)
        requires
            job_ok(old(self)@),
            old(state).wf(),
            old(self)@.phase == JobPhase::Saving,
        ensures
            job_ok(final(self)@),
            final(state).wf(),
            (JobStep { run: final(self)@, state: final(state)@ }) == job_stepped(
                old(self)@,
                old(state)@,
                JobEvent::Saved(saved),
                clock,
            ),
            channels_kept(
                old(state)@.hub,
                old(state).keys(),
                final(state).keys(),
                old(self)@.payload.job_id@,
            ),
    {
        match &self.refusal {
            Some(e) => {
                let error = match e {
                    AmautumError::Network(text) => AmautumError::Network(text.clone()),
                    AmautumError::Rejected { status, body } => AmautumError::Rejected {
                        status: *status,
                        body: body.clone(),
                    },
                };
                let mut text = "Amautum rechazó el acta (".to_string();
                text.append(error.message().as_str());
                match saved {
                    Ok(_) => {
                        text.append(LOG_SAVED);
                    },
                    Err(err) => {
                        text.append(LOG_NOT_SAVED);
                        text.append(err.as_str());
                    },
                }
                state.log_at(clock.wall_ms, "error", text);
                self.fail_with(state, PipelineError::Amautum(error), clock);
            },
            None => match saved {
                Ok(_) => {
                    state.update_job_at(
                        clock.wall_ms,
                        self.payload.job_id.as_str(),
                        JobChange::UploadPending,
                    );
                    state.log_at(clock.wall_ms, "warn", LOG_PENDING.to_string());
                    state.publish(
                        AgentEvent::UploadPending { job_id: self.payload.job_id.clone() },
                    );
                    self.phase = JobPhase::Ended(JobOutcome::UploadPending);
                },
                Err(err) => {
                    self.fail_with(state, PipelineError::Io(err), clock);
                },
            },
        }
    }

    /// Takes what the engine said: the window and the pages that listen are told, and Amautum
    /// too where it has to be, with what is returned.
    pub fn tick(&mut self, state: &mut AppState, tick: &ProgressTick, clock: Clock) -> (r: Option<
        ProgressUpload,
    >)
        requires
            job_ok(old(self)@),
            old(state).wf(),
        ensures
            job_ok(final(self)@),
            final(state).wf(),
            (JobStep { run: final(self)@, state: final(state)@ }) == job_ticked(
                old(self)@,
                old(state)@,
                tick@,
                clock,
            ),
            opt_upload(r) == pushed(
                old(self)@,
                tick_report(old(self)@.progress, tick@, clock.steady_ns),
            ),
            channels_kept(
                old(state)@.hub,
                old(state).keys(),
                final(state).keys(),
                old(self)@.payload.job_id@,
            ),
    {
        if !matches!(self.phase, JobPhase::Transcribing) {
            return None;
        }
        let report = self.progress.tick(tick, clock.steady_ns);
        state.update_job_at(
            clock.wall_ms,
            self.payload.job_id.as_str(),
            JobChange::Progress {
                progress: report.percent,
                eta_seconds: report.eta_seconds,
                note: copy_opt(&report.note),
            },
        );
        self.announce(state, report)
    }

    /// Says again what is known, while the engine works: the window and the pages that listen
    /// are told, and Amautum too where it has to be, with what is returned.
    pub fn heartbeat(&mut self, state: &mut AppState, clock: Clock) -> (r: Option<ProgressUpload>)
        requires
            job_ok(old(self)@),
            old(state).wf(),
        ensures
            job_ok(final(self)@),
            final(state).wf(),
            (JobStep { run: final(self)@, state: final(state)@ }) == job_beaten(
                old(self)@,
                old(state)@,
                clock,
            ),
            opt_upload(r) == pushed(
                old(self)@,
                beat_report(old(self)@.progress, clock.steady_ns),
            ),
            channels_kept(
                old(state)@.hub,
                old(state).keys(),
                final(state).keys(),
                old(self)@.payload.job_id@,
            ),
    {
        if !matches!(self.phase, JobPhase::Transcribing) {
            return None;
        }
        let report = self.progress.heartbeat(clock.steady_ns);
        state.update_job_at(
            clock.wall_ms,
            self.payload.job_id.as_str(),
            JobChange::Heartbeat {
                eta_seconds: report.eta_seconds,
                note: copy_opt(&report.note),
            },
        );
        self.announce(state, report)
    }

    fn announce(&self, state: &mut AppState, report: ProgressReport) -> (r: Option<ProgressUpload>)
        requires
            old(state).wf(),
            self@.phase == JobPhase::Transcribing,
        ensures
            final(state).wf(),
            final(state)@ == told(
                old(state)@,
                progress_event(self@.payload.job_id@, report@),
            ),
            opt_upload(r) == pushed(self@, report@),
            channels_kept(
                old(state)@.hub,
                old(state).keys(),
                final(state).keys(),
                self@.payload.job_id@,
            ),
    {
        state.publish(
            AgentEvent::Progress {
                job_id: self.payload.job_id.clone(),
                progress: report.percent,
                eta_seconds: report.eta_seconds,
                last_segment: None,
                note: report.note,
            },
        );
        if !report.push {
            return None;
        }
        let tiempo_estimado = match report.eta_seconds {
            Some(secs) => Some(fmt_eta(secs)),
            None => None,
        };
        Some(
            ProgressUpload {
                progreso: report.percent,
                tiempo_estimado,
                hardware: Some(hardware_str(self.hardware)),
                agente_version: Some(version().to_string()),
                estado: None,
            },
        )
    }

    /// What Amautum is told when the job begins.
    pub fn start_upload(&self) -> (r: ProgressUpload)
        ensures
            r@ == start_report(self@),
    {
        ProgressUpload {
            progreso: 0,
            tiempo_estimado: None,
            hardware: Some(hardware_str(self.hardware)),
            agente_version: Some(version().to_string()),
            estado: Some("procesando"),
        }
    }

    /// What Amautum is told of the failure, where there is one.
    pub fn failure_upload(&self) -> (r: Option<FailUpload>)
        ensures
            (match r {
                Some(f) => Some(f@),
                None => None,
            }) == self@.failure,
    {
        match &self.failure {
            Some(f) => Some(
                FailUpload { error: f.error.clone(), stage: f.stage, progreso: f.progreso },
            ),
            None => None,
        }
    }

    /// The transcript, once there is one.
    pub fn transcript(&self) -> (r: Option<&TranscriptUpload>)
        ensures
            (match r {
                Some(u) => Some(u@),
                None => None,
            }) == self@.upload,
    {
        match &self.upload {
            Some(u) => Some(u),
            None => None,
        }
    }

    /// What is written to disk where the transcript could not be uploaded.
    pub fn parcel(&self) -> (r: Option<PendingUpload>)
        ensures
            (match r {
                Some(p) => Some(p@),
                None => None,
            }) == parcel_of(self@),
    {
        match &self.upload {
            Some(u) => Some(
                PendingUpload {
                    job_id: self.payload.job_id.clone(),
                    transcript_callback: self.payload.callbacks.transcript.clone(),
                    token: self.payload.token.clone(),
                    upload: u.copy(),
                    saved_at: 0,
                },
            ),
            None => None,
        }
    }
}

/// Gives the segments of a transcript the names of those who speak.
fn label_speakers(upload: TranscriptUpload, spans: &Vec<SpeakerSpan>) -> (r: TranscriptUpload)
    ensures
        r@ == with_speakers(upload@, spans@),
{
    let mut u = upload;
    if let Ok(result) = diarize_segments(spans, &mut u.segments) {
        if result.speakers.len() != 0 {
            u.speakers = Some(result.speakers);
        }
        assert(texts(result.speakers@).len() == result.speakers@.len());
    }
    u
}

// ── Laws ────────────────────────────────────────────────────────────────────

/// Whether an event answers what the job asks for.
pub open spec fn answers(phase: JobPhase, event: JobEvent) -> bool {
    match phase {
        JobPhase::TempDir => event is TempDirMade,
        JobPhase::Converting => event is Converted,
        JobPhase::Reporting => event is StartReported,
        JobPhase::LoadingModel => event is ModelReady,
        JobPhase::Transcribing => event is Transcribed,
        JobPhase::Diarizing => event is Diarized,
        JobPhase::Uploading => event is Uploaded,
        JobPhase::Waiting => event is Waited,
        JobPhase::Saving => event is Saved,
        JobPhase::ReportingFailure => event is FailureReported,
        JobPhase::Ended(_) => false,
    }
}

/// How many answers a job needs at most before it is over.
pub open spec fn answers_left(r: JobRunView) -> int {
    let left = 2 * (UPLOAD_RETRIES - r.attempt);
    match r.phase {
        JobPhase::TempDir => 17,
        JobPhase::Converting => 16,
        JobPhase::Reporting => 15,
        JobPhase::LoadingModel => 14,
        JobPhase::Transcribing => 13,
        JobPhase::Diarizing => 12,
        JobPhase::Uploading => 3 + left,
        JobPhase::Waiting => 4 + left,
        JobPhase::Saving => 2,
        JobPhase::ReportingFailure => 1,
        JobPhase::Ended(_) => 0,
    }
}

/// A job never stays in limbo. As long as it asks for something, every answer, whatever it is,
/// brings its end nearer, so that it ends after seventeen answers at the latest; and what is no
/// answer changes nothing.
pub proof fn a_job_always_ends(r: JobRunView, v: AppView, event: JobEvent, clock: Clock)
    requires
        job_ok(r),
    ensures
        job_ok(job_stepped(r, v, event, clock).run),
        0 <= answers_left(r) <= 17,
        answers_left(r) == 0 <==> r.phase is Ended,
        answers(r.phase, event) ==> answers_left(job_stepped(r, v, event, clock).run)
            < answers_left(r),
        !answers(r.phase, event) ==> job_stepped(r, v, event, clock) == (JobStep {
            run: r,
            state: v,
        }),
{
}

/// Where a job ends, the window and the pages that listen say how: a job that completed, whose
/// transcript waits, or that failed is never left looking as if it still ran.
pub proof fn the_end_is_announced(r: JobRunView, v: AppView, event: JobEvent, clock: Clock)
    requires
        answers(r.phase, event),
        v.jobs.contains_key(r.payload.job_id@),
    ensures
        ({
            let id = r.payload.job_id@;
            let step = job_stepped(r, v, event, clock);
            let job = step.state.jobs[id];
            let last = replayed(step.state.hub, id);
            match step.run.phase {
                JobPhase::Ended(JobOutcome::Completed) => job.stage == JobStage::Completed
                    && job.progress == 100 && job.error is None && (last matches Some(
                    EventView::Completed { job_id, .. },
                ) && job_id == id),
                JobPhase::Ended(JobOutcome::UploadPending) => job.stage == JobStage::UploadPending
                    && job.hint is Some && last == Some(EventView::UploadPending { job_id: id }),
                JobPhase::ReportingFailure => job.stage == JobStage::Failed && (
                step.run.failure matches Some(f) && job.error == Some(f.error) && last == Some(
                    EventView::Failed { job_id: id, stage: f.stage, error: f.error },
                )),
                JobPhase::Ended(JobOutcome::Failed) => r.phase == JobPhase::ReportingFailure
                    && step.state == v,
                _ => true,
            }
        }),
{
}

/// A job that fails always tells the person what they can do.
pub proof fn every_failure_has_a_hint(r: JobRunView, v: AppView, event: JobEvent, clock: Clock)
    requires
        answers(r.phase, event),
        job_stepped(r, v, event, clock).run.phase == JobPhase::ReportingFailure,
        v.jobs.contains_key(r.payload.job_id@),
    ensures
        job_stepped(r, v, event, clock).state.jobs[r.payload.job_id@].hint matches Some(hint)
            && hint.len() > 0,
{
    reveal_strlit("Revisa que el archivo se reproduzca en tu reproductor habitual. Si es un video, prueba exportando solo el audio a MP3 y vuelve a intentar.");
    reveal_strlit("No pudimos preparar el motor de transcripción. Revisa tu conexión a internet y el espacio libre en disco (el modelo `medium` ocupa 1,5 GB) y reintenta.");
    reveal_strlit("Desactiva la suspensión automática del equipo, autoriza «Amautum Transcriptor» en tu antivirus y reintenta. Con un modelo más pequeño (base o small) el trabajo termina en una fracción del tiempo.");
    reveal_strlit("Reintenta el trabajo. Si vuelve a fallar, prueba con un modelo más pequeño (base o small) y copia el diagnóstico desde la ventana del agente.");
    reveal_strlit("Vuelve a lanzar el trabajo sin identificación de interlocutores: la transcripción sale igual, solo sin las etiquetas de orador.");
    reveal_strlit("Revisa tu conexión a internet y que tu sesión de Amautum siga activa. Si el acta quedó guardada en este equipo, la ventana del agente te deja reintentar la subida.");
    reveal_strlit("Revisa el espacio libre en disco y los permisos de la carpeta temporal, y reintenta.");
    reveal_strlit("Revisa el espacio libre en disco y los permisos de la carpeta temporal del sistema, y reintenta.");
}

/// Whether a job has a transcript that is on its way.
pub open spec fn holds_transcript(r: JobRunView) -> bool {
    r.phase == JobPhase::Diarizing || r.phase == JobPhase::Uploading || r.phase
        == JobPhase::Waiting || r.phase == JobPhase::Saving
}

/// A transcript is never discarded. Once there is one, the job keeps its text whatever happens,
/// until Amautum has it or it was to be written to disk; and what is to be written to disk is
/// all of it.
pub proof fn a_transcript_is_never_discarded(
    r: JobRunView,
    v: AppView,
    event: JobEvent,
    clock: Clock,
)
    requires
        job_ok(r),
        holds_transcript(r),
    ensures
        ({
            let after = job_stepped(r, v, event, clock).run;
            &&& after.upload is Some
            &&& after.upload->0.full_text == r.upload->0.full_text
            &&& after.upload->0.segments.len() == r.upload->0.segments.len()
            &&& forall|i: int|
                0 <= i < r.upload->0.segments.len() ==> (#[trigger] after.upload->0.segments[i]).text
                    == r.upload->0.segments[i].text
            &&& !holds_transcript(after) ==> event is Saved || (event matches JobEvent::Uploaded(
                u,
            ) && u is Ok)
            &&& parcel_of(after) matches Some(p) && p.upload == after.upload->0
        }),
{
}

/// A refusal never loses the transcript either: whatever Amautum answers but yes, the transcript
/// is either sent again or written to disk, and only what may succeed later is sent again.
pub proof fn a_refused_transcript_is_saved(
    r: JobRunView,
    v: AppView,
    e: AmautumError,
    clock: Clock,
)
    requires
        job_ok(r),
        r.phase == JobPhase::Uploading,
    ensures
        ({
            let after = job_stepped(r, v, JobEvent::Uploaded(Err(e)), clock).run;
            &&& awaits(after) == JobAction::Save || awaits(after) is Wait
            &&& awaits(after) is Wait <==> e@.passing() && r.attempt < UPLOAD_RETRIES
            &&& after.upload == r.upload
        }),
{
}

/// Speakers that cannot be told apart cost no transcript: it is uploaded without their names.
pub proof fn failed_diarization_is_harmless(
    r: JobRunView,
    v: AppView,
    e: PipelineError,
    clock: Clock,
)
    requires
        r.phase == JobPhase::Diarizing,
    ensures
        job_stepped(r, v, JobEvent::Diarized(Err(e)), clock).run == (JobRunView {
            phase: JobPhase::Uploading,
            attempt: 0,
            ..r
        }),
{
}

/// A step of one job leaves the others as they were, in the window and for whoever listens.
pub proof fn other_jobs_are_left_alone(
    r: JobRunView,
    v: AppView,
    event: JobEvent,
    clock: Clock,
    other: Seq<char>,
)
    requires
        other != r.payload.job_id@,
    ensures
        job_stepped(r, v, event, clock).state.jobs.contains_key(other) == v.jobs.contains_key(
            other,
        ),
        v.jobs.contains_key(other) ==> job_stepped(r, v, event, clock).state.jobs[other]
            == v.jobs[other],
        replayed(job_stepped(r, v, event, clock).state.hub, other) == replayed(v.hub, other),
        job_stepped(r, v, event, clock).state.order == v.order,
{
}

/// What the engine heard is the transcript: its language, its model, its full text, and its
/// segments one by one and in order. Nobody is named in it but whom the engine names, and what
/// would be written to disk carries the same.
pub proof fn what_the_engine_heard_is_the_transcript(
    r: JobRunView,
    v: AppView,
    run: WhisperRun,
    clock: Clock,
    i: int,
)
    requires
        r.phase == JobPhase::Transcribing,
    ensures
        ({
            let after = job_stepped(r, v, JobEvent::Transcribed(Ok(run)), clock).run;
            let t = after.upload->0;
            &&& after.upload is Some
            &&& t.language == run.language@
            &&& t.model == run.model_used@
            &&& t.full_text == run.full_text@
            &&& t.segments.len() == run.segments@.len()
            &&& 0 <= i < run.segments@.len() ==> {
                &&& t.segments[i].start == run.segments@[i].start
                &&& t.segments[i].end == run.segments@[i].end
                &&& t.segments[i].text == run.segments@[i].text@
                &&& t.segments[i].speaker == opt_text(run.segments@[i].speaker)
            }
            &&& t.speakers is None
            &&& t.summary is None
            &&& r.duration > 0 ==> t.duration == r.duration
            &&& r.duration <= 0 && run.segments@.len() > 0 ==> t.duration
                == run.segments@[run.segments@.len() - 1].end
            &&& r.duration <= 0 && run.segments@.len() == 0 ==> t.duration == 0
            &&& parcel_of(after) matches Some(p) && p.upload == t
            &&& after.phase == (if r.payload.diarize {
                JobPhase::Diarizing
            } else {
                JobPhase::Uploading
            })
        }),
{
}

/// Once the speakers are told apart the transcript says who speaks in each segment, and lists the
/// speakers where there are any. All else of it stays as it was.
pub proof fn telling_speakers_apart_adds_their_names_alone(
    r: JobRunView,
    v: AppView,
    spans: Vec<SpeakerSpan>,
    clock: Clock,
)
    requires
        r.phase == JobPhase::Diarizing,
        r.upload is Some,
    ensures
        ({
            let after = job_stepped(r, v, JobEvent::Diarized(Ok(spans)), clock).run;
            let old = r.upload->0;
            let new = after.upload->0;
            let n = appeared(old.segments, spans@).len();
            &&& after.phase == JobPhase::Uploading
            &&& after.attempt == 0
            &&& after.upload is Some
            &&& new.language == old.language
            &&& new.model == old.model
            &&& new.duration == old.duration
            &&& new.full_text == old.full_text
            &&& new.summary == old.summary
            &&& spans@.len() == 0 ==> new == old
            &&& spans@.len() > 0 ==> new.segments == all_labelled(old.segments, spans@)
            &&& spans@.len() > 0 && n > 0 ==> new.speakers == Some(labels(n))
            &&& n == 0 ==> new.speakers == old.speakers
        }),
{
    if spans@.len() == 0 {
        lemma_nobody_without_spans(r.upload->0.segments, spans@);
    }
}

proof fn lemma_nobody_without_spans(segments: Seq<SegmentView>, spans: Seq<SpeakerSpan>)
    requires
        spans.len() == 0,
    ensures
        appeared(segments, spans).len() == 0,
    decreases segments.len(),
{
    if segments.len() > 0 {
        lemma_nobody_without_spans(segments.drop_last(), spans);
    }
}

/// Each phase of a job asks for one thing, and the waits between two uploads double from two
/// seconds to sixteen.
pub proof fn each_phase_asks_for_one_thing(r: JobRunView)
    requires
        job_ok(r),
    ensures
        match r.phase {
            JobPhase::TempDir => awaits(r) == JobAction::MakeTempDir,
            JobPhase::Converting => awaits(r) == JobAction::Convert,
            JobPhase::Reporting => awaits(r) == JobAction::ReportStart,
            JobPhase::LoadingModel => awaits(r) == JobAction::EnsureModel,
            JobPhase::Transcribing => awaits(r) == JobAction::Transcribe,
            JobPhase::Diarizing => awaits(r) == JobAction::Diarize,
            JobPhase::Uploading => awaits(r) == JobAction::Upload,
            JobPhase::Waiting => {
                &&& r.attempt == 1 ==> awaits(r) == JobAction::Wait(2)
                &&& r.attempt == 2 ==> awaits(r) == JobAction::Wait(4)
                &&& r.attempt == 3 ==> awaits(r) == JobAction::Wait(8)
                &&& r.attempt == 4 ==> awaits(r) == JobAction::Wait(16)
                &&& 1 <= r.attempt <= 4
            },
            JobPhase::Saving => awaits(r) == JobAction::Save,
            JobPhase::ReportingFailure => awaits(r) == JobAction::ReportFailure,
            JobPhase::Ended(_) => awaits(r) == JobAction::Done,
        },
{
    reveal_with_fuel(doubled, 5);
}

/// The way of a job: which phase follows which, given what came of what it asked for.
pub proof fn a_job_takes_its_steps_in_order(r: JobRunView, v: AppView, event: JobEvent, clock: Clock)
    requires
        job_ok(r),
    ensures
        ({
            let next = job_stepped(r, v, event, clock).run;
            &&& next.payload == r.payload
            &&& match (r.phase, event) {
                (JobPhase::TempDir, JobEvent::TempDirMade(made)) => next.phase == (if made is Ok {
                    JobPhase::Converting
                } else {
                    JobPhase::ReportingFailure
                }),
                (JobPhase::Converting, JobEvent::Converted(Ok(pre), hardware)) => next.phase
                    == JobPhase::Reporting && next.duration == pre.duration && next.hardware
                    == hardware,
                (JobPhase::Converting, JobEvent::Converted(Err(_), _)) => next.phase
                    == JobPhase::ReportingFailure,
                (JobPhase::Reporting, JobEvent::StartReported) => next.phase
                    == JobPhase::LoadingModel,
                (JobPhase::LoadingModel, JobEvent::ModelReady(ready)) => next.phase == (
                if ready is Ok {
                    JobPhase::Transcribing
                } else {
                    JobPhase::ReportingFailure
                }),
                (JobPhase::Transcribing, JobEvent::Transcribed(Err(_))) => next.phase
                    == JobPhase::ReportingFailure,
                (JobPhase::Diarizing, JobEvent::Diarized(_)) => next.phase == JobPhase::Uploading,
                (JobPhase::Uploading, JobEvent::Uploaded(Ok(_))) => next.phase == JobPhase::Ended(
                    JobOutcome::Completed,
                ),
                (JobPhase::Uploading, JobEvent::Uploaded(Err(e))) => {
                    let again = match e@ {
                        AmautumErrorView::Network(_) => r.attempt < 4,
                        AmautumErrorView::Rejected { status, .. } => status >= 500 && r.attempt < 4,
                    };
                    let refused = match e@ {
                        AmautumErrorView::Network(_) => false,
                        AmautumErrorView::Rejected { status, .. } => status < 500,
                    };
                    &&& again ==> next.phase == JobPhase::Waiting && next.attempt == r.attempt + 1
                    &&& !again ==> next.phase == JobPhase::Saving
                    &&& refused ==> next.refusal == Some(e@)
                    &&& !again && !refused ==> next.refusal is None
                },
                (JobPhase::Waiting, JobEvent::Waited) => next.phase == JobPhase::Uploading
                    && next.attempt == r.attempt,
                (JobPhase::Saving, JobEvent::Saved(saved)) => next.phase == (
                if r.refusal is None && saved is Ok {
                    JobPhase::Ended(JobOutcome::UploadPending)
                } else {
                    JobPhase::ReportingFailure
                }),
                (JobPhase::ReportingFailure, JobEvent::FailureReported) => next.phase
                    == JobPhase::Ended(JobOutcome::Failed),
                (JobPhase::Transcribing, JobEvent::Transcribed(Ok(_))) => true,
                _ => next == r && job_stepped(r, v, event, clock).state == v,
            }
        }),
{
}

/// A step changes nothing of a job that it has no business with: the audio is measured and the
/// hardware known by the conversion alone, and only the engine and the program that tells speakers
/// apart touch the transcript.
pub proof fn steps_mind_their_own_business(r: JobRunView, v: AppView, event: JobEvent, clock: Clock)
    ensures
        ({
            let next = job_stepped(r, v, event, clock).run;
            &&& !(event is Converted) ==> next.duration == r.duration && next.hardware
                == r.hardware
            &&& !(event is Transcribed) && !(event is Diarized) ==> next.upload == r.upload
            &&& !(event is ModelReady) ==> next.progress == r.progress
            &&& !(event is Uploaded) ==> next.refusal == r.refusal
            &&& next.phase != JobPhase::ReportingFailure ==> next.failure == r.failure
        }),
{
}

/// What Amautum and the person are told of a failure is what went wrong, where it did, and what
/// can be done about it.
pub proof fn failures_tell_their_cause(r: JobRunView, v: AppView, event: JobEvent, clock: Clock)
    requires
        answers(r.phase, event),
        v.jobs.contains_key(r.payload.job_id@),
    ensures
        ({
            let step = job_stepped(r, v, event, clock);
            let f = step.run.failure->0;
            let hint = step.state.jobs[r.payload.job_id@].hint;
            match event {
                JobEvent::TempDirMade(Err(e)) => f.error
                    == "No pudimos crear la carpeta temporal de trabajo: "@ + e@ && f.stage
                    == FailStage::Unknown && hint == Some(HINT_TEMP_DIR@),
                JobEvent::Converted(Err(e), _) => f.error == "ffmpeg: "@ + e@.text() && f.stage
                    == FailStage::Ffmpeg && hint == Some(HINT_FFMPEG@),
                JobEvent::ModelReady(Err(e)) => f.error == "modelo: "@ + e@.text() && f.stage
                    == FailStage::ModelLoad && hint == Some(HINT_MODEL@),
                JobEvent::Transcribed(Err(e)) => {
                    &&& f.error == "whisper: "@ + e@.text()
                    &&& f.stage == (if e is ModelMissing {
                        FailStage::ModelLoad
                    } else {
                        FailStage::Inference
                    })
                    &&& hint == Some(
                        if e is Stalled {
                            HINT_STALLED@
                        } else {
                            HINT_WHISPER@
                        },
                    )
                },
                JobEvent::Saved(saved) => match r.refusal {
                    Some(e) => f.error == "amautum: "@ + e.text() && f.stage == FailStage::Upload
                        && hint == Some(HINT_AMAUTUM@),
                    None => saved matches Err(e) ==> f.error == "io: "@ + e@ && f.stage
                        == FailStage::Unknown && hint == Some(HINT_IO@),
                },
                _ => true,
            }
        }),
        job_stepped(r, v, event, clock).run.phase == JobPhase::ReportingFailure ==> job_stepped(
            r,
            v,
            event,
            clock,
        ).run.failure->0.progreso is None,
{
}

/// The log ends with the failure, named by its stage.
pub proof fn failures_are_logged(r: JobRunView, v: AppView, event: JobEvent, clock: Clock)
    requires
        answers(r.phase, event),
        job_stepped(r, v, event, clock).run.phase == JobPhase::ReportingFailure,
    ensures
        ({
            let step = job_stepped(r, v, event, clock);
            let f = step.run.failure->0;
            let last = step.state.logs.last();
            &&& step.state.logs.len() > 0
            &&& last.at_ms == clock.wall_ms
            &&& last.level == "error"@
            &&& last.text == "Trabajo fallado ("@ + f.stage.label() + "): "@ + f.error
        }),
{
}

/// The window shows the stage that a job comes to, dated, and what is known of the job by then;
/// all else of it stays as it was.
pub proof fn the_window_follows_the_job(r: JobRunView, v: AppView, event: JobEvent, clock: Clock)
    requires
        answers(r.phase, event),
        v.jobs.contains_key(r.payload.job_id@),
    ensures
        ({
            let id = r.payload.job_id@;
            let old = v.jobs[id];
            let step = job_stepped(r, v, event, clock);
            let new = step.state.jobs[id];
            &&& new.job_id == old.job_id
            &&& new.file_name == old.file_name
            &&& new.model == old.model
            &&& new.started_at_ms == old.started_at_ms
            &&& new.engine_seen_at_ms == old.engine_seen_at_ms
            &&& new != old ==> new.updated_at_ms == clock.wall_ms
            &&& match step.run.phase {
                JobPhase::Converting => new.stage == JobStage::Preprocess && new.progress
                    == old.progress,
                JobPhase::Reporting => {
                    &&& new.stage == old.stage
                    &&& new.hardware == Some(hardware_name(step.run.hardware))
                    &&& new.audio_length == (if step.run.duration > 0 {
                        Some(step.run.duration)
                    } else {
                        None
                    })
                },
                JobPhase::LoadingModel => new.stage == JobStage::DownloadingModel,
                JobPhase::Transcribing => new.stage == JobStage::Transcribing,
                JobPhase::Diarizing => new.stage == JobStage::Diarizing && new.note == Some(
                    "Identificando quién habla en cada tramo"@,
                ),
                JobPhase::Uploading => event is Waited || (new.stage == JobStage::Uploading
                    && new.progress == 100 && new.eta_seconds is None && new.note is None),
                JobPhase::Waiting => new == old,
                JobPhase::Saving => new == old,
                _ => true,
            }
        }),
{
}

/// The pages that listen are told each stage as a job comes to it, and nothing where it comes to
/// none that concerns them.
pub proof fn the_pages_follow_the_job(r: JobRunView, v: AppView, event: JobEvent, clock: Clock)
    requires
        answers(r.phase, event),
    ensures
        ({
            let id = r.payload.job_id@;
            let step = job_stepped(r, v, event, clock);
            let told_now = |e: EventView| step.state.hub == published(v.hub, e);
            match step.run.phase {
                JobPhase::Converting => told_now(
                    EventView::Preprocess { job_id: id, stage: "ffmpeg"@ },
                ),
                JobPhase::Reporting => told_now(
                    EventView::Started {
                        job_id: id,
                        hardware: step.run.hardware,
                        model: r.payload.model.name(),
                    },
                ),
                JobPhase::LoadingModel => step.state.hub == v.hub,
                JobPhase::Transcribing => step.state.hub == v.hub,
                JobPhase::Diarizing => told_now(EventView::Diarizing { job_id: id }),
                JobPhase::Uploading => if event is Waited {
                    step.state.hub == v.hub
                } else {
                    told_now(EventView::Uploading { job_id: id })
                },
                JobPhase::Waiting => told_now(EventView::Uploading { job_id: id }),
                JobPhase::Saving => step.state.hub == v.hub,
                JobPhase::Ended(JobOutcome::Completed) => event matches JobEvent::Uploaded(Ok(a))
                    && told_now(
                    EventView::Completed { job_id: id, transcript_id: a.transcript_id@ },
                ),
                JobPhase::Ended(JobOutcome::UploadPending) => told_now(
                    EventView::UploadPending { job_id: id },
                ),
                JobPhase::ReportingFailure => told_now(
                    EventView::Failed {
                        job_id: id,
                        stage: step.run.failure->0.stage,
                        error: step.run.failure->0.error,
                    },
                ),
                _ => true,
            }
        }),
{
}

/// The log says what a job begins to do and how it ended well, dated, and nothing where there is
/// nothing to say.
pub proof fn the_log_follows_the_job(r: JobRunView, v: AppView, event: JobEvent, clock: Clock)
    requires
        answers(r.phase, event),
    ensures
        ({
            let step = job_stepped(r, v, event, clock);
            let last = step.state.logs.last();
            let wrote = |level: Seq<char>, text: Seq<char>|
                step.state.logs.len() > 0 && last.at_ms == clock.wall_ms && last.level == level
                    && last.text == text;
            match step.run.phase {
                JobPhase::Converting => wrote(
                    "info"@,
                    "Convirtiendo el audio a WAV 16 kHz mono."@,
                ),
                JobPhase::Transcribing => wrote(
                    "info"@,
                    "Transcribiendo con el modelo "@ + r.payload.model.name() + " en "@
                        + hardware_name(r.hardware) + " — "@ + duration_words(r.duration as int)
                        + " de audio"@,
                ),
                JobPhase::Diarizing => wrote(
                    "info"@,
                    "Transcripción lista — identificando interlocutores."@,
                ),
                JobPhase::Ended(JobOutcome::Completed) => wrote(
                    "info"@,
                    "Trabajo terminado y entregado a Amautum."@,
                ),
                JobPhase::Ended(JobOutcome::UploadPending) => wrote(
                    "warn"@,
                    "El acta terminó pero no se pudo subir. Guardada en este equipo para reintentar."@,
                ),
                JobPhase::Reporting => step.state.logs == v.logs,
                JobPhase::LoadingModel => step.state.logs == v.logs,
                JobPhase::Uploading => step.state.logs == v.logs,
                JobPhase::Waiting => step.state.logs == v.logs,
                JobPhase::Saving => step.state.logs == v.logs,
                _ => true,
            }
        }),
{
}

/// Of a job that begins, the pages that listen are told that it is queued, and nothing else
/// happens: nothing is measured, transcribed, tried or failed yet.
pub proof fn a_job_begins_with_nothing(payload: AgentTriggerPayload, v: AppView, clock: Clock)
    ensures
        ({
            let step = job_begun(payload, v, clock);
            &&& step.run.payload == payload
            &&& step.run.phase == JobPhase::TempDir
            &&& step.run.duration == 0
            &&& step.run.upload is None
            &&& step.run.attempt == 0
            &&& step.run.refusal is None
            &&& step.run.failure is None
            &&& step.run.progress.percent == 0
            &&& step.state.hub == published(v.hub, EventView::Queued { job_id: payload.job_id@ })
            &&& step.state.jobs == v.jobs
            &&& step.state.logs == v.logs
            &&& step.state.running == v.running
        }),
{
}

/// A step, a tick and a heartbeat leave the rest of what the agent knows as it was: how many
/// pipelines run, the health of the components, and what is known of newer versions.
pub proof fn jobs_touch_nothing_else(
    r: JobRunView,
    v: AppView,
    event: JobEvent,
    tick: TickView,
    clock: Clock,
)
    ensures
        ({
            let same = |w: AppView|
                w.running == v.running && w.dependencies_ok == v.dependencies_ok
                    && w.dependencies_error == v.dependencies_error && w.update == v.update
                    && w.order == v.order && w.jobs.dom() == v.jobs.dom();
            &&& same(job_stepped(r, v, event, clock).state)
            &&& same(job_ticked(r, v, tick, clock).state)
            &&& same(job_beaten(r, v, clock).state)
        }),
{
    let id = r.payload.job_id@;
    assert(v.jobs.contains_key(id) ==> v.jobs.dom().insert(id) =~= v.jobs.dom());
}

/// While the engine works, the window and the pages that listen are told what it says: how far it
/// is, how long it will take, and what is going on. The window notes when the engine spoke.
pub proof fn progress_is_told_as_it_is(r: JobRunView, v: AppView, tick: TickView, clock: Clock)
    requires
        r.phase == JobPhase::Transcribing,
        v.jobs.contains_key(r.payload.job_id@),
    ensures
        ({
            let id = r.payload.job_id@;
            let report = tick_report(r.progress, tick, clock.steady_ns);
            let step = job_ticked(r, v, tick, clock);
            let old = v.jobs[id];
            let new = step.state.jobs[id];
            &&& step.run.phase == r.phase
            &&& step.run.upload == r.upload
            &&& step.run.progress == ticked(r.progress, tick, clock.steady_ns)
            &&& new.progress == report.percent
            &&& new.eta_seconds == report.eta_seconds
            &&& new.note == report.note
            &&& new.engine_seen_at_ms == clock.wall_ms
            &&& new.updated_at_ms == clock.wall_ms
            &&& new.stage == old.stage
            &&& new.error == old.error
            &&& step.state.logs == v.logs
            &&& step.state.hub == published(
                v.hub,
                EventView::Progress {
                    job_id: id,
                    progress: report.percent,
                    eta_seconds: report.eta_seconds,
                    last_segment: None,
                    note: report.note,
                },
            )
        }),
{
}

/// A heartbeat says again how far the job is, and does not pass for a sign of the engine.
pub proof fn a_heartbeat_is_no_sign_of_the_engine(r: JobRunView, v: AppView, clock: Clock)
    requires
        r.phase == JobPhase::Transcribing,
        v.jobs.contains_key(r.payload.job_id@),
    ensures
        ({
            let id = r.payload.job_id@;
            let report = beat_report(r.progress, clock.steady_ns);
            let step = job_beaten(r, v, clock);
            let old = v.jobs[id];
            let new = step.state.jobs[id];
            &&& step.run.phase == r.phase
            &&& step.run.upload == r.upload
            &&& step.run.progress == beaten(r.progress, clock.steady_ns)
            &&& new.progress == old.progress
            &&& new.engine_seen_at_ms == old.engine_seen_at_ms
            &&& new.eta_seconds == report.eta_seconds
            &&& new.note == report.note
            &&& new.updated_at_ms == clock.wall_ms
            &&& new.stage == old.stage
            &&& step.state.logs == v.logs
            &&& step.state.hub == published(
                v.hub,
                EventView::Progress {
                    job_id: id,
                    progress: report.percent,
                    eta_seconds: report.eta_seconds,
                    last_segment: None,
                    note: report.note,
                },
            )
        }),
{
}

/// Nothing is said of the progress of a job but while the engine works.
pub proof fn only_the_engine_makes_progress(
    r: JobRunView,
    v: AppView,
    tick: TickView,
    report: ReportView,
    clock: Clock,
)
    requires
        r.phase != JobPhase::Transcribing,
    ensures
        job_ticked(r, v, tick, clock) == (JobStep { run: r, state: v }),
        job_beaten(r, v, clock) == (JobStep { run: r, state: v }),
        pushed(r, report) is None,
{
}

/// What Amautum is told of a job: how far it is, how long it will take in words, what it runs on,
/// and by which version of the agent; and when it begins, that it is being worked on.
pub proof fn amautum_is_told_what_is_known(r: JobRunView, report: ReportView)
    ensures
        ({
            let start = start_report(r);
            &&& start.progreso == 0
            &&& start.tiempo_estimado is None
            &&& start.hardware == Some(hardware_name(r.hardware))
            &&& start.agente_version == Some(VERSION@)
            &&& start.estado == Some("procesando"@)
        }),
        pushed(r, report) is Some <==> r.phase == JobPhase::Transcribing && report.push,
        pushed(r, report) matches Some(p) ==> {
            &&& p.progreso == report.percent
            &&& report.eta_seconds matches Some(secs) ==> p.tiempo_estimado == Some(
                eta_words(secs as nat),
            )
            &&& report.eta_seconds is None ==> p.tiempo_estimado is None
            &&& p.hardware == Some(hardware_name(r.hardware))
            &&& p.agente_version == Some(VERSION@)
            &&& p.estado is None
        },
        hardware_name(Hardware::Cpu) == "cpu"@,
        hardware_name(Hardware::Cuda) == "cuda"@,
        hardware_name(Hardware::Metal) == "metal"@,
{
}

/// A report that is to be sent is seen as it is.
pub proof fn reports_to_send_are_seen_as_they_are(
    p: ProgressUpload,
    r: Result<(), String>,
)
    ensures
        opt_upload(Some(p)) == Some(p@),
        opt_upload(None) is None,
        r is Ok ==> outcome_text(r) is Ok,
        r matches Err(e) ==> outcome_text(r) == Err::<(), Seq<char>>(e@),
{
}

/// What is written to disk is the whole transcript with all that it takes to upload it later.
pub proof fn a_parcel_holds_all_it_takes(r: JobRunView)
    ensures
        parcel_of(r) is Some <==> r.upload is Some,
        parcel_of(r) matches Some(p) ==> {
            &&& p.job_id == r.payload.job_id@
            &&& p.transcript_callback == r.payload.callbacks.transcript@
            &&& p.token == r.payload.token@
            &&& p.upload == r.upload->0
        },
{
}

/// Every error names its stage, says what can be done about it, and carries its cause.
pub proof fn errors_of_a_job_carry_their_causes(e: PipelineError)
    ensures
        match e {
            PipelineError::Ffmpeg(x) => e@.fail_stage() == FailStage::Ffmpeg && e@.advice()
                == HINT_FFMPEG@ && e@.text() == "ffmpeg: "@ + x@.text(),
            PipelineError::Model(x) => e@.fail_stage() == FailStage::ModelLoad && e@.advice()
                == HINT_MODEL@ && e@.text() == "modelo: "@ + x@.text(),
            PipelineError::Diarize(x) => e@.fail_stage() == FailStage::Diarization && e@.advice()
                == HINT_DIARIZE@ && e@.text() == "diarización: "@ + x@.text(),
            PipelineError::Amautum(x) => e@.fail_stage() == FailStage::Upload && e@.advice()
                == HINT_AMAUTUM@ && e@.text() == "amautum: "@ + x@.text(),
            PipelineError::Io(x) => e@.fail_stage() == FailStage::Unknown && e@.advice() == HINT_IO@
                && e@.text() == "io: "@ + x@,
            PipelineError::Whisper(x) => {
                &&& e@.text() == "whisper: "@ + x@.text()
                &&& x is ModelMissing ==> e@.fail_stage() == FailStage::ModelLoad
                &&& !(x is ModelMissing) ==> e@.fail_stage() == FailStage::Inference
                &&& x is Stalled ==> e@.advice() == HINT_STALLED@
                &&& !(x is Stalled) ==> e@.advice() == HINT_WHISPER@
            },
        },
{
}

} // verus!
