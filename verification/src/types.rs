//! The types that the local server, the pipeline and the Amautum client share.
//!
//! Instants and durations of the audio are counted in units of which a second has two to the
//! power of sixty-four. That holds a number of seconds as the tools write it, read as a double,
//! without any rounding, from a quarter of a millisecond up; and it adds, subtracts and compares
//! exactly.
use crate::text::{copy_opt, copy_texts, opt_text, texts};
use vstd::prelude::*;

verus! {

/// One second, in the unit that instants and durations of the audio are counted in.
pub const SECOND: i128 = 18_446_744_073_709_551_616;

// ── What the browser asks for ───────────────────────────────────────────────

/// What the web page sends to start a job. `audio_file_path` is the absolute path of the audio
/// on this machine.
#[derive(Debug)]
pub struct AgentTriggerPayload {
    pub job_id: String,
    pub token: String,
    pub audio_file_path: String,
    pub callbacks: AgentCallbacks,
    pub model: WhisperModel,
    pub language: String,
    /// Size of the file as the browser saw it, where it did.
    pub file_size: Option<u64>,
    /// Whether the speakers have to be told apart once the audio is transcribed.
    pub diarize: bool,
    /// How many speakers there are, where the operator knows.
    pub num_speakers: Option<u8>,
}

/// The addresses that Amautum expects to be called at while the job goes on.
#[derive(Debug, Clone)]
pub struct AgentCallbacks {
    pub progress: String,
    pub transcript: String,
    pub fail: String,
}

/// The language of a job whose payload names none.
pub fn default_language() -> (r: String)
    ensures
        r@ == "es"@,
{
    "es".to_string()
}

/// The transcription models that the agent can run.
#[derive(Debug, Clone, Copy, PartialEq, Eq, Structural)]
pub enum WhisperModel {
    Tiny,
    Base,
    Small,
    Medium,
    LargeV3,
}

impl WhisperModel {
    /// The file that holds the model.
    pub open spec fn file(self) -> Seq<char> {
        match self {
            WhisperModel::Tiny => "ggml-tiny.bin"@,
            WhisperModel::Base => "ggml-base.bin"@,
            WhisperModel::Small => "ggml-small.bin"@,
            WhisperModel::Medium => "ggml-medium.bin"@,
            WhisperModel::LargeV3 => "ggml-large-v3.bin"@,
        }
    }

    /// The name of the model.
    pub open spec fn name(self) -> Seq<char> {
        match self {
            WhisperModel::Tiny => "tiny"@,
            WhisperModel::Base => "base"@,
            WhisperModel::Small => "small"@,
            WhisperModel::Medium => "medium"@,
            WhisperModel::LargeV3 => "large-v3"@,
        }
    }

    /// Name of the GGML file that holds the model.
    pub fn ggml_filename(self) -> (r: &'static str)
        ensures
            r@ == self.file(),
    {
        match self {
            WhisperModel::Tiny => "ggml-tiny.bin",
            WhisperModel::Base => "ggml-base.bin",
            WhisperModel::Small => "ggml-small.bin",
            WhisperModel::Medium => "ggml-medium.bin",
            WhisperModel::LargeV3 => "ggml-large-v3.bin",
        }
    }

    /// Name of the model, as the web page and Amautum write it.
    pub fn as_str(self) -> (r: &'static str)
        ensures
            r@ == self.name(),
    {
        match self {
            WhisperModel::Tiny => "tiny",
            WhisperModel::Base => "base",
            WhisperModel::Small => "small",
            WhisperModel::Medium => "medium",
            WhisperModel::LargeV3 => "large-v3",
        }
    }
}

/// The hardware that the engine runs on.
#[derive(Debug, Clone, Copy, PartialEq, Eq, Structural)]
pub enum Hardware {
    Cpu,
    Cuda,
    Metal,
}

impl Hardware {
    /// The hardware to tell the person about: Metal on macOS; elsewhere CUDA where its
    /// variables are visible, and the processor where they are not.
    pub fn detect(macos: bool, cuda_visible: bool) -> (r: Hardware)
        ensures
            r == (if macos {
                Hardware::Metal
            } else if cuda_visible {
                Hardware::Cuda
            } else {
                Hardware::Cpu
            }),
    {
        if macos {
            Hardware::Metal
        } else if cuda_visible {
            Hardware::Cuda
        } else {
            Hardware::Cpu
        }
    }
}

// ── Events towards the browser ──────────────────────────────────────────────

/// What the pipeline tells the web page about a job.
#[derive(Debug, Clone)]
pub enum AgentEvent {
    Queued { job_id: String },
    /// The model is not on disk yet and is being downloaded.
    ModelDownload {
        job_id: String,
        model: String,
        downloaded_bytes: u64,
        total_bytes: Option<u64>,
        percent: u8,
    },
    Preprocess { job_id: String, stage: String },
    Started { job_id: String, hardware: Hardware, model: String },
    Progress {
        job_id: String,
        progress: u8,
        eta_seconds: Option<u64>,
        last_segment: Option<String>,
        /// What is going on right now. A percentage alone does not tell slow from stuck.
        note: Option<String>,
    },
    /// The text is ready and the speakers are being told apart.
    Diarizing { job_id: String },
    Uploading { job_id: String },
    /// The transcript is safe on disk and will be uploaded once there is a connection.
    UploadPending { job_id: String },
    Completed { job_id: String, transcript_id: String },
    Failed { job_id: String, stage: FailStage, error: String },
}

/// An event by its texts.
pub enum EventView {
    Queued { job_id: Seq<char> },
    ModelDownload {
        job_id: Seq<char>,
        model: Seq<char>,
        downloaded_bytes: u64,
        total_bytes: Option<u64>,
        percent: u8,
    },
    Preprocess { job_id: Seq<char>, stage: Seq<char> },
    Started { job_id: Seq<char>, hardware: Hardware, model: Seq<char> },
    Progress {
        job_id: Seq<char>,
        progress: u8,
        eta_seconds: Option<u64>,
        last_segment: Option<Seq<char>>,
        note: Option<Seq<char>>,
    },
    Diarizing { job_id: Seq<char> },
    Uploading { job_id: Seq<char> },
    UploadPending { job_id: Seq<char> },
    Completed { job_id: Seq<char>, transcript_id: Seq<char> },
    Failed { job_id: Seq<char>, stage: FailStage, error: Seq<char> },
}

impl View for AgentEvent {
    type V = EventView;

    open spec fn view(&self) -> EventView {
        match *self {
            AgentEvent::Queued { job_id } => EventView::Queued { job_id: job_id@ },
            AgentEvent::ModelDownload {
                job_id,
                model,
                downloaded_bytes,
                total_bytes,
                percent,
            } => EventView::ModelDownload {
                job_id: job_id@,
                model: model@,
                downloaded_bytes,
                total_bytes,
                percent,
            },
            AgentEvent::Preprocess { job_id, stage } => EventView::Preprocess {
                job_id: job_id@,
                stage: stage@,
            },
            AgentEvent::Started { job_id, hardware, model } => EventView::Started {
                job_id: job_id@,
                hardware,
                model: model@,
            },
            AgentEvent::Progress { job_id, progress, eta_seconds, last_segment, note } =>
                EventView::Progress {
                job_id: job_id@,
                progress,
                eta_seconds,
                last_segment: opt_text(last_segment),
                note: opt_text(note),
            },
            AgentEvent::Diarizing { job_id } => EventView::Diarizing { job_id: job_id@ },
            AgentEvent::Uploading { job_id } => EventView::Uploading { job_id: job_id@ },
            AgentEvent::UploadPending { job_id } => EventView::UploadPending { job_id: job_id@ },
            AgentEvent::Completed { job_id, transcript_id } => EventView::Completed {
                job_id: job_id@,
                transcript_id: transcript_id@,
            },
            AgentEvent::Failed { job_id, stage, error } => EventView::Failed {
                job_id: job_id@,
                stage,
                error: error@,
            },
        }
    }
}

impl AgentEvent {
    /// A copy of the event.
    pub fn copy(&self) -> (r: AgentEvent)
        ensures
            r@ == self@,
    {
        match self {
            AgentEvent::Queued { job_id } => AgentEvent::Queued { job_id: job_id.clone() },
            AgentEvent::ModelDownload {
                job_id,
                model,
                downloaded_bytes,
                total_bytes,
                percent,
            } => AgentEvent::ModelDownload {
                job_id: job_id.clone(),
                model: model.clone(),
                downloaded_bytes: *downloaded_bytes,
                total_bytes: *total_bytes,
                percent: *percent,
            },
            AgentEvent::Preprocess { job_id, stage } => AgentEvent::Preprocess {
                job_id: job_id.clone(),
                stage: stage.clone(),
            },
            AgentEvent::Started { job_id, hardware, model } => AgentEvent::Started {
                job_id: job_id.clone(),
                hardware: *hardware,
                model: model.clone(),
            },
            AgentEvent::Progress { job_id, progress, eta_seconds, last_segment, note } =>
                AgentEvent::Progress {
                job_id: job_id.clone(),
                progress: *progress,
                eta_seconds: *eta_seconds,
                last_segment: copy_opt(last_segment),
                note: copy_opt(note),
            },
            AgentEvent::Diarizing { job_id } => AgentEvent::Diarizing { job_id: job_id.clone() },
            AgentEvent::Uploading { job_id } => AgentEvent::Uploading { job_id: job_id.clone() },
            AgentEvent::UploadPending { job_id } => AgentEvent::UploadPending {
                job_id: job_id.clone(),
            },
            AgentEvent::Completed { job_id, transcript_id } => AgentEvent::Completed {
                job_id: job_id.clone(),
                transcript_id: transcript_id.clone(),
            },
            AgentEvent::Failed { job_id, stage, error } => AgentEvent::Failed {
                job_id: job_id.clone(),
                stage: *stage,
                error: error.clone(),
            },
        }
    }
}

/// The stage at which a job failed, as Amautum is told.
#[derive(Debug, Clone, Copy, PartialEq, Eq, Structural)]
pub enum FailStage {
    Ffmpeg,
    ModelLoad,
    Inference,
    Diarization,
    Upload,
    Unknown,
}

impl FailStage {
    /// The name of the stage in the log.
    pub open spec fn label(self) -> Seq<char> {
        match self {
            FailStage::Ffmpeg => "Ffmpeg"@,
            FailStage::ModelLoad => "ModelLoad"@,
            FailStage::Inference => "Inference"@,
            FailStage::Diarization => "Diarization"@,
            FailStage::Upload => "Upload"@,
            FailStage::Unknown => "Unknown"@,
        }
    }

    /// Name of the stage in the log.
    pub fn as_str(self) -> (r: &'static str)
        ensures
            r@ == self.label(),
    {
        match self {
            FailStage::Ffmpeg => "Ffmpeg",
            FailStage::ModelLoad => "ModelLoad",
            FailStage::Inference => "Inference",
            FailStage::Diarization => "Diarization",
            FailStage::Upload => "Upload",
            FailStage::Unknown => "Unknown",
        }
    }
}

// ── The transcript ──────────────────────────────────────────────────────────

/// A stretch of the transcript, with its place in the audio.
#[derive(Debug)]
pub struct Segment {
    pub start: i128,
    pub end: i128,
    pub text: String,
    pub speaker: Option<String>,
}

/// A segment by its texts.
#[verifier::ext_equal]
pub struct SegmentView {
    pub start: int,
    pub end: int,
    pub text: Seq<char>,
    pub speaker: Option<Seq<char>>,
}

impl View for Segment {
    type V = SegmentView;

    open spec fn view(&self) -> SegmentView {
        SegmentView {
            start: self.start as int,
            end: self.end as int,
            text: self.text@,
            speaker: opt_text(self.speaker),
        }
    }
}

impl Segment {
    /// A copy of the segment.
    pub fn copy(&self) -> (r: Segment)
        ensures
            r@ == self@,
    {
        Segment {
            start: self.start,
            end: self.end,
            text: self.text.clone(),
            speaker: copy_opt(&self.speaker),
        }
    }
}

/// The segments of a transcript by their texts.
pub open spec fn segment_views(s: Seq<Segment>) -> Seq<SegmentView> {
    Seq::new(s.len(), |i: int| s[i]@)
}

/// The transcript that is uploaded to Amautum. It holds text and times; no audio.
#[derive(Debug)]
pub struct TranscriptUpload {
    pub language: String,
    pub model: String,
    pub duration: i128,
    pub full_text: String,
    pub segments: Vec<Segment>,
    pub speakers: Option<Vec<String>>,
    pub summary: Option<String>,
}

/// A transcript by its texts.
#[verifier::ext_equal]
pub struct TranscriptView {
    pub language: Seq<char>,
    pub model: Seq<char>,
    pub duration: int,
    pub full_text: Seq<char>,
    pub segments: Seq<SegmentView>,
    pub speakers: Option<Seq<Seq<char>>>,
    pub summary: Option<Seq<char>>,
}

impl View for TranscriptUpload {
    type V = TranscriptView;

    open spec fn view(&self) -> TranscriptView {
        TranscriptView {
            language: self.language@,
            model: self.model@,
            duration: self.duration as int,
            full_text: self.full_text@,
            segments: segment_views(self.segments@),
            speakers: match self.speakers {
                Some(v) => Some(texts(v@)),
                None => None,
            },
            summary: opt_text(self.summary),
        }
    }
}

impl TranscriptUpload {
    /// A copy of the transcript.
    pub fn copy(&self) -> (r: TranscriptUpload)
        ensures
            r@ == self@,
    {
        let mut segments: Vec<Segment> = Vec::new();
        let mut i: usize = 0;
        while i < self.segments.len()
            invariant
                i <= self.segments@.len(),
                segment_views(segments@) == segment_views(self.segments@).take(i as int),
            decreases self.segments@.len() - i,
        {
            let ghost before = segments@;
            segments.push(self.segments[i].copy());
            assert(segment_views(segments@) =~= segment_views(before).push(
                self.segments@[i as int]@,
            ));
            i += 1;
        }
        assert(segment_views(self.segments@).take(i as int) =~= segment_views(self.segments@));
        let speakers = match &self.speakers {
            Some(v) => Some(copy_texts(v)),
            None => None,
        };
        TranscriptUpload {
            language: self.language.clone(),
            model: self.model.clone(),
            duration: self.duration,
            full_text: self.full_text.clone(),
            segments,
            speakers,
            summary: copy_opt(&self.summary),
        }
    }
}

/// The body of a progress report to Amautum.
#[derive(Debug)]
pub struct ProgressUpload {
    pub progreso: u8,
    pub tiempo_estimado: Option<String>,
    pub hardware: Option<&'static str>,
    pub agente_version: Option<String>,
    pub estado: Option<&'static str>,
}

/// A progress report by its texts.
#[verifier::ext_equal]
pub struct ProgressUploadView {
    pub progreso: u8,
    pub tiempo_estimado: Option<Seq<char>>,
    pub hardware: Option<Seq<char>>,
    pub agente_version: Option<Seq<char>>,
    pub estado: Option<Seq<char>>,
}

impl View for ProgressUpload {
    type V = ProgressUploadView;

    open spec fn view(&self) -> ProgressUploadView {
        ProgressUploadView {
            progreso: self.progreso,
            tiempo_estimado: opt_text(self.tiempo_estimado),
            hardware: match self.hardware {
                Some(s) => Some(s@),
                None => None,
            },
            agente_version: opt_text(self.agente_version),
            estado: match self.estado {
                Some(s) => Some(s@),
                None => None,
            },
        }
    }
}

/// The body of a failure report to Amautum.
#[derive(Debug)]
pub struct FailUpload {
    pub error: String,
    pub stage: FailStage,
    pub progreso: Option<u8>,
}

/// A failure report by its texts.
#[verifier::ext_equal]
pub struct FailUploadView {
    pub error: Seq<char>,
    pub stage: FailStage,
    pub progreso: Option<u8>,
}

impl View for FailUpload {
    type V = FailUploadView;

    open spec fn view(&self) -> FailUploadView {
        FailUploadView { error: self.error@, stage: self.stage, progreso: self.progreso }
    }
}

// ── What the window shows ───────────────────────────────────────────────────

/// The stage that a job is at.
#[derive(Debug, Clone, Copy, PartialEq, Eq, Structural)]
pub enum JobStage {
    Queued,
    DownloadingModel,
    Preprocess,
    Transcribing,
    Diarizing,
    Uploading,
    UploadPending,
    Completed,
    Failed,
}

impl JobStage {
    /// Nothing is left to do for a job that completed or failed, and for no other.
    pub open spec fn terminal(self) -> bool {
        self == JobStage::Completed || self == JobStage::Failed
    }

    /// Whether nothing is left to do for a job at this stage. A transcript that waits to be
    /// uploaded is not done: the window has to offer the retry.
    pub fn is_terminal(self) -> (r: bool)
        ensures
            r == self.terminal(),
    {
        matches!(self, JobStage::Completed | JobStage::Failed)
    }
}

/// The state of a job, as the window shows it.
#[derive(Debug)]
pub struct JobStatus {
    pub job_id: String,
    pub file_name: String,
    pub model: String,
    pub hardware: Option<String>,
    pub stage: JobStage,
    pub progress: u8,
    pub eta_seconds: Option<u64>,
    /// Length of the audio, where it is known.
    pub audio_length: Option<i128>,
    pub note: Option<String>,
    pub started_at_ms: u64,
    /// Last time the engine gave a sign of life. The agent's own heartbeat does not count.
    pub engine_seen_at_ms: u64,
    pub updated_at_ms: u64,
    pub error: Option<String>,
    /// What the person can do about the error.
    pub hint: Option<String>,
}

/// The state of a job by its texts.
#[verifier::ext_equal]
pub struct JobView {
    pub job_id: Seq<char>,
    pub file_name: Seq<char>,
    pub model: Seq<char>,
    pub hardware: Option<Seq<char>>,
    pub stage: JobStage,
    pub progress: u8,
    pub eta_seconds: Option<u64>,
    pub audio_length: Option<i128>,
    pub note: Option<Seq<char>>,
    pub started_at_ms: u64,
    pub engine_seen_at_ms: u64,
    pub updated_at_ms: u64,
    pub error: Option<Seq<char>>,
    pub hint: Option<Seq<char>>,
}

impl View for JobStatus {
    type V = JobView;

    open spec fn view(&self) -> JobView {
        JobView {
            job_id: self.job_id@,
            file_name: self.file_name@,
            model: self.model@,
            hardware: opt_text(self.hardware),
            stage: self.stage,
            progress: self.progress,
            eta_seconds: self.eta_seconds,
            audio_length: self.audio_length,
            note: opt_text(self.note),
            started_at_ms: self.started_at_ms,
            engine_seen_at_ms: self.engine_seen_at_ms,
            updated_at_ms: self.updated_at_ms,
            error: opt_text(self.error),
            hint: opt_text(self.hint),
        }
    }
}

impl JobStatus {
    /// A copy of the state of the job.
    pub fn copy(&self) -> (r: JobStatus)
        ensures
            r@ == self@,
    {
        JobStatus {
            job_id: self.job_id.clone(),
            file_name: self.file_name.clone(),
            model: self.model.clone(),
            hardware: copy_opt(&self.hardware),
            stage: self.stage,
            progress: self.progress,
            eta_seconds: self.eta_seconds,
            audio_length: self.audio_length,
            note: copy_opt(&self.note),
            started_at_ms: self.started_at_ms,
            engine_seen_at_ms: self.engine_seen_at_ms,
            updated_at_ms: self.updated_at_ms,
            error: copy_opt(&self.error),
            hint: copy_opt(&self.hint),
        }
    }
}

/// One line of the log.
#[derive(Debug)]
pub struct LogEntry {
    pub at_ms: u64,
    pub level: &'static str,
    pub text: String,
}

/// A line of the log by its texts.
#[verifier::ext_equal]
pub struct LogView {
    pub at_ms: u64,
    pub level: Seq<char>,
    pub text: Seq<char>,
}

impl View for LogEntry {
    type V = LogView;

    open spec fn view(&self) -> LogView {
        LogView { at_ms: self.at_ms, level: self.level@, text: self.text@ }
    }
}

impl LogEntry {
    /// A copy of the line.
    pub fn copy(&self) -> (r: LogEntry)
        ensures
            r@ == self@,
    {
        LogEntry { at_ms: self.at_ms, level: self.level, text: self.text.clone() }
    }
}

/// The lines of a log by their texts.
pub open spec fn log_views(s: Seq<LogEntry>) -> Seq<LogView> {
    Seq::new(s.len(), |i: int| s[i]@)
}

// ── The clock ───────────────────────────────────────────────────────────────

/// `SystemTime::elapsed` on the Unix epoch: the time since the epoch as whole seconds and the
/// nanoseconds left over, which are fewer than a second. `None` where the clock stands before
/// the epoch. How much time it is depends on the moment of the call, so nothing more is said.
#[verifier::external_body]
fn since_epoch() -> (r: Option<(u64, u32)>)
    ensures
        r matches Some(t) ==> t.1 < 1_000_000_000,
{
    std::time::SystemTime::UNIX_EPOCH.elapsed().ok().map(|d| (d.as_secs(), d.subsec_nanos()))
}

/// The milliseconds of a span of seconds and nanoseconds; none of it is as good as zero. What
/// does not fit 64 bits is cut off, as a cast does.
pub fn epoch_ms(elapsed: Option<(u64, u32)>) -> (r: u64)
    ensures
        r == (match elapsed {
            Some(t) => (t.0 * 1000 + t.1 as int / 1_000_000) % 0x1_0000_0000_0000_0000,
            None => 0,
        }),
{
    match elapsed {
        Some((secs, nanos)) => {
            let ms: u128 = (secs as u128) * 1000 + (nanos as u128) / 1_000_000;
            (ms % 0x1_0000_0000_0000_0000) as u64
        },
        None => 0,
    }
}

/// The seconds of such a span.
pub fn epoch_secs(elapsed: Option<(u64, u32)>) -> (r: u64)
    ensures
        r == (match elapsed {
            Some(t) => t.0,
            None => 0,
        }),
{
    match elapsed {
        Some((secs, _)) => secs,
        None => 0,
    }
}

/// Milliseconds since the Unix epoch; zero where the clock stands before it.
pub fn now_ms() -> u64 {
    epoch_ms(since_epoch())
}

/// Seconds since the Unix epoch; zero where the clock stands before it.
pub fn now_secs() -> u64 {
    epoch_secs(since_epoch())
}

// ── Laws ────────────────────────────────────────────────────────────────────

/// A model lies in a file that bears its name, and no two models have one name.
pub proof fn models_are_known_by_their_names(a: WhisperModel, b: WhisperModel)
    ensures
        a.file() == "ggml-"@ + a.name() + ".bin"@,
        a.name() == b.name() ==> a == b,
        WhisperModel::LargeV3.name() == "large-v3"@,
{
    reveal_strlit("ggml-");
    reveal_strlit(".bin");
    reveal_strlit("tiny");
    reveal_strlit("base");
    reveal_strlit("small");
    reveal_strlit("medium");
    reveal_strlit("large-v3");
    reveal_strlit("ggml-tiny.bin");
    reveal_strlit("ggml-base.bin");
    reveal_strlit("ggml-small.bin");
    reveal_strlit("ggml-medium.bin");
    reveal_strlit("ggml-large-v3.bin");
    assert(a.file() =~= "ggml-"@ + a.name() + ".bin"@);
    if a.name() == b.name() {
        assert(a.name().len() == b.name().len());
        assert(a.name()[0] == b.name()[0]);
    }
}

/// A segment is seen with its own times, text and speaker, and a list of segments in its order.
pub proof fn segments_are_seen_as_they_are(s: Segment, list: Seq<Segment>, i: int)
    ensures
        s@.start == s.start,
        s@.end == s.end,
        s@.text == s.text@,
        s.speaker matches Some(x) ==> s@.speaker == Some(x@),
        s.speaker is None ==> s@.speaker is None,
        segment_views(list).len() == list.len(),
        0 <= i < list.len() ==> segment_views(list)[i] == list[i]@,
{
}

/// A transcript is seen with all that it holds, each thing in its place.
pub proof fn transcripts_are_seen_as_they_are(t: TranscriptUpload, i: int)
    ensures
        t@.language == t.language@,
        t@.model == t.model@,
        t@.duration == t.duration,
        t@.full_text == t.full_text@,
        t@.segments.len() == t.segments@.len(),
        0 <= i < t.segments@.len() ==> t@.segments[i] == t.segments@[i]@,
        t@.speakers is Some <==> t.speakers is Some,
        t.speakers matches Some(v) ==> t@.speakers->0.len() == v@.len() && (0 <= i < v@.len()
            ==> t@.speakers->0[i] == v@[i]@),
        t.summary matches Some(x) ==> t@.summary == Some(x@),
        t.summary is None ==> t@.summary is None,
{
}

/// The reports to Amautum are seen with all that they hold, each thing in its place.
pub proof fn reports_are_seen_as_they_are(p: ProgressUpload, f: FailUpload)
    ensures
        p@.progreso == p.progreso,
        p.tiempo_estimado matches Some(x) ==> p@.tiempo_estimado == Some(x@),
        p.tiempo_estimado is None ==> p@.tiempo_estimado is None,
        p.hardware matches Some(x) ==> p@.hardware == Some(x@),
        p.hardware is None ==> p@.hardware is None,
        p.agente_version matches Some(x) ==> p@.agente_version == Some(x@),
        p.agente_version is None ==> p@.agente_version is None,
        p.estado matches Some(x) ==> p@.estado == Some(x@),
        p.estado is None ==> p@.estado is None,
        f@.error == f.error@,
        f@.stage == f.stage,
        f@.progreso == f.progreso,
{
}

/// The state of a job and the lines of the log are seen with all that they hold, each thing in
/// its place.
pub proof fn the_window_is_seen_as_it_is(j: JobStatus, l: LogEntry, list: Seq<LogEntry>, i: int)
    ensures
        j@.job_id == j.job_id@,
        j@.file_name == j.file_name@,
        j@.model == j.model@,
        j.hardware matches Some(x) ==> j@.hardware == Some(x@),
        j.hardware is None ==> j@.hardware is None,
        j@.stage == j.stage,
        j@.progress == j.progress,
        j@.eta_seconds == j.eta_seconds,
        j@.audio_length == j.audio_length,
        j.note matches Some(x) ==> j@.note == Some(x@),
        j.note is None ==> j@.note is None,
        j@.started_at_ms == j.started_at_ms,
        j@.engine_seen_at_ms == j.engine_seen_at_ms,
        j@.updated_at_ms == j.updated_at_ms,
        j.error matches Some(x) ==> j@.error == Some(x@),
        j.error is None ==> j@.error is None,
        j.hint matches Some(x) ==> j@.hint == Some(x@),
        j.hint is None ==> j@.hint is None,
        l@.at_ms == l.at_ms,
        l@.level == l.level@,
        l@.text == l.text@,
        log_views(list).len() == list.len(),
        0 <= i < list.len() ==> log_views(list)[i] == list[i]@,
{
}

/// An event is seen as what it is, with all that it holds.
pub proof fn events_are_seen_as_they_are(e: AgentEvent)
    ensures
        match e {
            AgentEvent::Queued { job_id } => e@ == (EventView::Queued { job_id: job_id@ }),
            AgentEvent::ModelDownload {
                job_id,
                model,
                downloaded_bytes,
                total_bytes,
                percent,
            } => e@ is ModelDownload && e@->ModelDownload_job_id == job_id@ && e@->ModelDownload_model
                == model@ && e@->downloaded_bytes == downloaded_bytes && e@->total_bytes
                == total_bytes && e@->percent == percent,
            AgentEvent::Preprocess { job_id, stage } => e@ is Preprocess && e@->Preprocess_job_id
                == job_id@ && e@->Preprocess_stage == stage@,
            AgentEvent::Started { job_id, hardware, model } => e@ is Started && e@->Started_job_id
                == job_id@ && e@->hardware == hardware && e@->Started_model == model@,
            AgentEvent::Progress { job_id, progress, eta_seconds, last_segment, note } => {
                &&& e@ is Progress
                &&& e@->Progress_job_id == job_id@
                &&& e@->progress == progress
                &&& e@->eta_seconds == eta_seconds
                &&& e@->last_segment == opt_text(last_segment)
                &&& e@->note == opt_text(note)
            },
            AgentEvent::Diarizing { job_id } => e@ == (EventView::Diarizing { job_id: job_id@ }),
            AgentEvent::Uploading { job_id } => e@ == (EventView::Uploading { job_id: job_id@ }),
            AgentEvent::UploadPending { job_id } => e@ == (EventView::UploadPending {
                job_id: job_id@,
            }),
            AgentEvent::Completed { job_id, transcript_id } => e@ is Completed
                && e@->Completed_job_id == job_id@ && e@->transcript_id == transcript_id@,
            AgentEvent::Failed { job_id, stage, error } => e@ is Failed && e@->Failed_job_id
                == job_id@ && e@->Failed_stage == stage && e@->error == error@,
        },
{
}

/// Two stages end a job, and seven do not.
pub proof fn two_stages_end_a_job(s: JobStage)
    ensures
        match s {
            JobStage::Completed | JobStage::Failed => s.terminal(),
            JobStage::Queued
            | JobStage::DownloadingModel
            | JobStage::Preprocess
            | JobStage::Transcribing
            | JobStage::Diarizing
            | JobStage::Uploading
            | JobStage::UploadPending => !s.terminal(),
        },
{
}

} // verus!
