//! The models that the agent downloads, and whether the programs that it runs can run at all.
use crate::amautum::{is_success, success};
use crate::config::FFMPEG_SIDECAR;
use crate::process::{push_line, with_line, ProcessEvent};
use crate::text::{
    blank, chars_of, decimal, ends_with, lines, lines_of, opt_text, prefixed, push_decimal,
    push_signed, same_text, signed_decimal, starts_with, starts_with_at, strip_suffix, texts, trim,
    trimmed, trimming_empties_blank_text,
};
use crate::types::{AgentEvent, EventView, WhisperModel};
use vstd::prelude::*;
use vstd::string::*;

verus! {

/// What can go wrong with a model. Errors of the network and of the system are given by their
/// messages.
#[derive(Debug)]
pub enum ModelError {
    Network(String),
    Io(String),
    Rejected { status: u16, model: String },
    Path(String),
}

/// An error by its texts.
pub enum ModelErrorView {
    Network(Seq<char>),
    Io(Seq<char>),
    Rejected { status: u16, model: Seq<char> },
    Path(Seq<char>),
}

impl View for ModelError {
    type V = ModelErrorView;

    open spec fn view(&self) -> ModelErrorView {
        match *self {
            ModelError::Network(e) => ModelErrorView::Network(e@),
            ModelError::Io(e) => ModelErrorView::Io(e@),
            ModelError::Rejected { status, model } => ModelErrorView::Rejected {
                status,
                model: model@,
            },
            ModelError::Path(e) => ModelErrorView::Path(e@),
        }
    }
}

impl ModelErrorView {
    /// The message of the error.
    pub open spec fn text(self) -> Seq<char> {
        match self {
            ModelErrorView::Network(e) => "Error de red al descargar el modelo: "@ + e,
            ModelErrorView::Io(e) => "Error de E/S: "@ + e,
            ModelErrorView::Rejected { status, model } => "HuggingFace devolvió "@ + decimal(
                status as nat,
            ) + " al bajar "@ + model,
            ModelErrorView::Path(e) => "Tauri no pudo resolver el directorio de datos: "@ + e,
        }
    }
}

impl ModelError {
    /// The message of the error.
    pub fn message(&self) -> (r: String)
        ensures
            r@ == self@.text(),
    {
        match self {
            ModelError::Network(e) => prefixed(
                "Error de red al descargar el modelo: ",
                e.as_str(),
            ),
            ModelError::Io(e) => prefixed("Error de E/S: ", e.as_str()),
            ModelError::Rejected { status, model } => {
                let mut out = "HuggingFace devolvió ".to_string();
                push_decimal(&mut out, *status as u64);
                out.append(" al bajar ");
                out.append(model.as_str());
                out
            },
            ModelError::Path(e) => prefixed(
                "Tauri no pudo resolver el directorio de datos: ",
                e.as_str(),
            ),
        }
    }
}

// ── Files ───────────────────────────────────────────────────────────────────

/// Where the models are published.
pub const MODELS_BASE: &'static str = "https://huggingface.co/ggerganov/whisper.cpp/resolve/main/";

/// Where a model is downloaded from.
pub fn download_url(model: WhisperModel) -> (r: String)
    ensures
        r@ == MODELS_BASE@ + model.file(),
{
    prefixed(MODELS_BASE, model.ggml_filename())
}

/// The file that a model is downloaded to, until it is complete.
pub fn part_name(model: WhisperModel) -> (r: String)
    ensures
        r@ == model.file() + ".part"@,
{
    prefixed(model.ggml_filename(), ".part")
}

/// The size of the file of a model, in bytes.
pub open spec fn real_size(model: WhisperModel) -> nat {
    match model {
        WhisperModel::Tiny => 77_691_713,
        WhisperModel::Base => 147_951_465,
        WhisperModel::Small => 487_601_967,
        WhisperModel::Medium => 1_533_763_059,
        WhisperModel::LargeV3 => 3_095_033_483,
    }
}

/// The size below which the file of a model was cut short, in mebibytes.
pub open spec fn least_mebibytes(model: WhisperModel) -> nat {
    match model {
        WhisperModel::Tiny => 60,
        WhisperModel::Base => 120,
        WhisperModel::Small => 420,
        WhisperModel::Medium => 1_300,
        WhisperModel::LargeV3 => 2_700,
    }
}

/// The size below which the file of a model was cut short.
pub fn min_expected_size(model: WhisperModel) -> (r: u64)
    ensures
        r == least_mebibytes(model) * 1024 * 1024,
{
    match model {
        WhisperModel::Tiny => 60 * 1024 * 1024,
        WhisperModel::Base => 120 * 1024 * 1024,
        WhisperModel::Small => 420 * 1024 * 1024,
        WhisperModel::Medium => 1_300 * 1024 * 1024,
        WhisperModel::LargeV3 => 2_700 * 1024 * 1024,
    }
}

/// A complete file is never taken for one that was cut short, so no model is downloaded twice;
/// and one of which a fifth is missing always is.
pub proof fn complete_models_are_kept(model: WhisperModel)
    ensures
        least_mebibytes(model) * 1024 * 1024 < real_size(model),
        least_mebibytes(model) * 1024 * 1024 * 5 > real_size(model) * 4,
{
}

/// What to do about a file that is needed.
#[derive(Debug, Clone, Copy, PartialEq, Eq, Structural)]
pub enum FileCheck {
    /// It is there.
    Keep,
    /// It was cut short: remove it and download it again.
    Replace,
    /// It is not there: download it.
    Fetch,
}

/// What to do about a file that is needed, given its size, where it is there and can be read,
/// and the size below which it was cut short.
pub fn check_file(size: Option<u64>, min_bytes: u64) -> (r: FileCheck)
    ensures
        r == (match size {
            Some(n) => if n >= min_bytes {
                FileCheck::Keep
            } else {
                FileCheck::Replace
            },
            None => FileCheck::Fetch,
        }),
{
    match size {
        Some(n) => if n >= min_bytes {
            FileCheck::Keep
        } else {
            FileCheck::Replace
        },
        None => FileCheck::Fetch,
    }
}

/// What the answer to a request for a file comes to, given its status. `model` is what was asked
/// for.
pub fn check_download(status: u16, model: &str) -> (r: Result<(), ModelError>)
    ensures
        r is Ok <==> success(status),
        r matches Err(e) ==> e@ == (ModelErrorView::Rejected { status, model: model@ }),
{
    if is_success(status) {
        Ok(())
    } else {
        Err(ModelError::Rejected { status, model: model.to_string() })
    }
}

/// Whether a file of the folder of models is one: its name begins with `ggml-` and ends in
/// `.bin`.
pub open spec fn names_a_model(name: Seq<char>) -> bool {
    starts_with(name, "ggml-"@) && ends_with(name, ".bin"@)
}

/// The first of `names` that is a model.
pub open spec fn first_model(names: Seq<Seq<char>>) -> Option<Seq<char>>
    decreases names.len(),
{
    if names.len() == 0 {
        None
    } else if names_a_model(names[0]) {
        Some(names[0])
    } else {
        first_model(names.drop_first())
    }
}

/// The first of the files of the folder of models that is a model.
pub fn first_available_model(names: &Vec<String>) -> (r: Option<String>)
    ensures
        opt_text(r) == first_model(texts(names@)),
{
    let ghost all = texts(names@);
    let prefix = chars_of("ggml-");
    let mut i: usize = 0;
    assert(all.skip(0) =~= all);
    while i < names.len()
        invariant
            i <= names@.len(),
            all == texts(names@),
            prefix@ == "ggml-"@,
            first_model(all) == first_model(all.skip(i as int)),
        decreases names@.len() - i,
    {
        assert(all.skip(i as int)[0] == names@[i as int]@);
        assert(all.skip(i as int).drop_first() =~= all.skip(i + 1));
        let name = chars_of(names[i].as_str());
        assert(name@.skip(0) =~= name@);
        if starts_with_at(&name, 0, &prefix) && strip_suffix(names[i].as_str(), ".bin").is_some() {
            return Some(names[i].clone());
        }
        i += 1;
    }
    assert(all.skip(i as int) =~= Seq::empty());
    None
}

// ── Downloads ───────────────────────────────────────────────────────────────

/// A model that is being downloaded for a job.
pub struct Download {
    job_id: String,
    model: WhisperModel,
    total: Option<u64>,
    downloaded: u64,
    last_report: Option<u8>,
}

/// A model that is being downloaded, by its texts.
#[verifier::ext_equal]
pub struct DownloadView {
    pub job_id: Seq<char>,
    pub model: WhisperModel,
    pub total: Option<u64>,
    pub downloaded: u64,
    /// The percentage that was last reported.
    pub last_report: Option<u8>,
}

impl View for Download {
    type V = DownloadView;

    closed spec fn view(&self) -> DownloadView {
        DownloadView {
            job_id: self.job_id@,
            model: self.model,
            total: self.total,
            downloaded: self.downloaded,
            last_report: self.last_report,
        }
    }
}

/// How much of a file has come, in percent; nothing where its size is not known.
pub open spec fn download_percent(downloaded: int, total: Option<u64>) -> int {
    match total {
        Some(t) => if t > 0 {
            let p = downloaded * 100 / (t as int);
            if p > 100 {
                100
            } else {
                p
            }
        } else {
            0
        },
        None => 0,
    }
}

/// What the pages that listen are told of a download.
pub open spec fn download_event(v: DownloadView, percent: int) -> EventView {
    EventView::ModelDownload {
        job_id: v.job_id,
        model: v.model.name(),
        downloaded_bytes: v.downloaded,
        total_bytes: v.total,
        percent: percent as u8,
    }
}

/// Whether a percentage is worth telling: it grew by two points since the last that was told, or
/// none was told yet and something has come.
pub open spec fn worth_telling(v: DownloadView, downloaded: int) -> bool {
    match v.last_report {
        Some(last) => download_percent(downloaded, v.total) >= last + 2,
        None => downloaded > 0,
    }
}

/// What was told last is a percentage.
pub open spec fn told_ok(v: DownloadView) -> bool {
    v.last_report matches Some(last) ==> last <= 100
}

/// A download once `bytes` more have come.
pub open spec fn download_grown(v: DownloadView, bytes: int) -> DownloadView {
    let downloaded = v.downloaded + bytes;
    DownloadView {
        downloaded: downloaded as u64,
        last_report: if worth_telling(v, downloaded) {
            Some(download_percent(downloaded, v.total) as u8)
        } else {
            v.last_report
        },
        ..v
    }
}

/// An optional event by its texts.
pub open spec fn opt_event(e: Option<AgentEvent>) -> Option<EventView> {
    match e {
        Some(e) => Some(e@),
        None => None,
    }
}

impl Download {
    /// A download that begins. `total` is the size of the file, where the server gave it.
    pub fn new(job_id: &str, model: WhisperModel, total: Option<u64>) -> (r: Download)
        ensures
            r@ == (DownloadView { job_id: job_id@, model, total, downloaded: 0, last_report: None }),
    {
        Download { job_id: job_id.to_string(), model, total, downloaded: 0, last_report: None }
    }

    /// Counts the bytes that came, and says what to tell the pages that listen, where it is
    /// worth telling: a fast download would flood them.
    pub fn received(&mut self, bytes: u64) -> (r: Option<AgentEvent>)
        requires
            old(self)@.downloaded + bytes <= u64::MAX,
            told_ok(old(self)@),
        ensures
            final(self)@ == download_grown(old(self)@, bytes as int),
            told_ok(final(self)@),
            opt_event(r) == (if worth_telling(old(self)@, old(self)@.downloaded + bytes) {
                Some(
                    download_event(
                        final(self)@,
                        download_percent(old(self)@.downloaded + bytes, old(self)@.total),
                    ),
                )
            } else {
                None
            }),
    {
        self.downloaded = self.downloaded + bytes;
        let percent: u8 = match self.total {
            Some(t) => if t > 0 {
                let p: u128 = (self.downloaded as u128) * 100 / (t as u128);
                if p > 100 {
                    100
                } else {
                    p as u8
                }
            } else {
                0
            },
            None => 0,
        };
        let telling = match self.last_report {
            Some(last) => percent >= last + 2,
            None => self.downloaded > 0,
        };
        if telling {
            self.last_report = Some(percent);
            return Some(self.event(percent));
        }
        None
    }

    /// What to tell the pages that listen once the file is complete.
    pub fn complete(&self) -> (r: AgentEvent)
        ensures
            r@ == download_event(self@, 100),
    {
        self.event(100)
    }

    fn event(&self, percent: u8) -> (r: AgentEvent)
        ensures
            r@ == download_event(self@, percent as int),
    {
        AgentEvent::ModelDownload {
            job_id: self.job_id.clone(),
            model: self.model.as_str().to_string(),
            downloaded_bytes: self.downloaded,
            total_bytes: self.total,
            percent,
        }
    }
}

/// A download once all of `chunks` have come.
pub open spec fn download_after(v: DownloadView, chunks: Seq<u64>) -> DownloadView
    decreases chunks.len(),
{
    if chunks.len() == 0 {
        v
    } else {
        download_grown(download_after(v, chunks.drop_last()), chunks.last() as int)
    }
}

/// The percentages that are told while `chunks` come.
pub open spec fn told_percents(v: DownloadView, chunks: Seq<u64>) -> Seq<int>
    decreases chunks.len(),
{
    if chunks.len() == 0 {
        Seq::empty()
    } else {
        let before = download_after(v, chunks.drop_last());
        let downloaded = before.downloaded + chunks.last();
        let told = told_percents(v, chunks.drop_last());
        if worth_telling(before, downloaded) {
            told.push(download_percent(downloaded, v.total))
        } else {
            told
        }
    }
}

/// However a file comes in, each percentage that is told is at least two points above the one
/// before, so they are no more than fifty-one: a fast download does not flood the pages that
/// listen, nor does one whose size nobody knows.
pub proof fn downloads_are_told_by_steps(v: DownloadView, chunks: Seq<u64>)
    requires
        v.last_report is None,
    ensures
        forall|i: int, j: int|
            0 <= i < j < told_percents(v, chunks).len() ==> #[trigger] told_percents(v, chunks)[i]
                + 2 <= #[trigger] told_percents(v, chunks)[j],
        told_percents(v, chunks).len() <= 51,
{
    lemma_told(v, chunks);
}

proof fn lemma_told(v: DownloadView, chunks: Seq<u64>)
    requires
        v.last_report is None,
    ensures
        download_after(v, chunks).total == v.total,
        match download_after(v, chunks).last_report {
            Some(last) => told_percents(v, chunks).len() > 0 && told_percents(v, chunks).last()
                == last && last <= 100,
            None => told_percents(v, chunks).len() == 0,
        },
        forall|i: int, j: int|
            0 <= i < j < told_percents(v, chunks).len() ==> #[trigger] told_percents(v, chunks)[i]
                + 2 <= #[trigger] told_percents(v, chunks)[j],
        forall|i: int|
            0 <= i < told_percents(v, chunks).len() ==> 2 * i <= #[trigger] told_percents(
                v,
                chunks,
            )[i] <= 100,
        told_percents(v, chunks).len() <= 51,
    decreases chunks.len(),
{
    if chunks.len() > 0 {
        let rest = chunks.drop_last();
        lemma_told(v, rest);
        let before = download_after(v, rest);
        let downloaded = before.downloaded + chunks.last();
        lemma_percent(downloaded, v.total);
        let told = told_percents(v, rest);
        if told.len() > 0 {
            assert(2 * (told.len() - 1) <= told[told.len() - 1]);
        }
    }
}

proof fn lemma_percent(downloaded: int, total: Option<u64>)
    requires
        downloaded >= 0,
    ensures
        0 <= download_percent(downloaded, total) <= 100,
{
    if let Some(t) = total {
        if t > 0 {
            assert(downloaded * 100 / (t as int) >= 0) by (nonlinear_arith)
                requires
                    downloaded >= 0,
                    t > 0,
            ;
        }
    }
}

// ── Having a file on disk ───────────────────────────────────────────────────

/// What a file that is needed waits for.
#[derive(Debug, Clone, Copy, PartialEq, Eq, Structural)]
pub enum FetchPhase {
    Measuring,
    Removing,
    Requesting,
    Receiving,
    Placing,
    Ended,
}

/// What a file that is needed asks for.
pub enum FetchAction {
    /// Read the size of the file, where it is there.
    Measure,
    /// Remove the file that was cut short.
    Remove,
    /// Remove what is left of an earlier download, and ask the server for the file.
    Request,
    /// Write what comes next of it to a file of its own, beside its place.
    Receive,
    /// Flush that file, and move it to its place.
    Place,
    /// The file is there, or it cannot be had.
    Finish(Result<(), ModelError>),
    /// It has been said already.
    Nothing,
}

/// What it asks for, by its texts.
pub enum FetchActionView {
    Measure,
    Remove,
    Request,
    Receive,
    Place,
    Finish(Result<(), ModelErrorView>),
    Nothing,
}

impl View for FetchAction {
    type V = FetchActionView;

    open spec fn view(&self) -> FetchActionView {
        match *self {
            FetchAction::Measure => FetchActionView::Measure,
            FetchAction::Remove => FetchActionView::Remove,
            FetchAction::Request => FetchActionView::Request,
            FetchAction::Receive => FetchActionView::Receive,
            FetchAction::Place => FetchActionView::Place,
            FetchAction::Finish(r) => FetchActionView::Finish(
                match r {
                    Ok(()) => Ok(()),
                    Err(e) => Err(e@),
                },
            ),
            FetchAction::Nothing => FetchActionView::Nothing,
        }
    }
}

/// What came of what a file asked for.
pub enum FetchEvent {
    /// The size of the file, where it is there and can be read.
    Measured(Option<u64>),
    /// The file that was cut short is gone, or could not be removed.
    Removed,
    /// The server answered with this status and, where it gave it, the size of the file; or
    /// there was no answer.
    Answered(Result<(u16, Option<u64>), ModelError>),
    /// So many bytes more were written; nothing where all of them were.
    Received(Result<Option<u64>, ModelError>),
    /// The file is in its place, or could not be moved there.
    Placed(Result<(), ModelError>),
}

/// What is downloaded: a model for a job, whose progress the pages that listen are told, or a
/// file that is too small for that.
pub enum FetchTarget {
    Model { job_id: String, model: WhisperModel },
    Part { label: String },
}

impl FetchTarget {
    /// What it is called where the server refuses it.
    pub open spec fn name(self) -> Seq<char> {
        match self {
            FetchTarget::Model { model, .. } => model.name(),
            FetchTarget::Part { label } => "diarización/"@ + label@,
        }
    }
}

/// A file that is needed.
pub struct FetchRun {
    target: FetchTarget,
    min_bytes: u64,
    phase: FetchPhase,
    download: Download,
}

/// A file that is needed, by its texts.
#[verifier::ext_equal]
pub struct FetchView {
    pub target: FetchTarget,
    /// The size below which it was cut short.
    pub min_bytes: u64,
    pub phase: FetchPhase,
    pub download: DownloadView,
}

impl View for FetchRun {
    type V = FetchView;

    closed spec fn view(&self) -> FetchView {
        FetchView {
            target: self.target,
            min_bytes: self.min_bytes,
            phase: self.phase,
            download: self.download@,
        }
    }
}

/// A download of `target` of which nothing has come.
pub open spec fn download_start(target: FetchTarget, total: Option<u64>) -> DownloadView {
    DownloadView {
        job_id: match target {
            FetchTarget::Model { job_id, .. } => job_id@,
            FetchTarget::Part { .. } => Seq::empty(),
        },
        model: match target {
            FetchTarget::Model { model, .. } => model,
            FetchTarget::Part { .. } => WhisperModel::Tiny,
        },
        total,
        downloaded: 0,
        last_report: None,
    }
}

/// What a file that waits asks for.
pub open spec fn fetch_awaits(phase: FetchPhase) -> FetchActionView {
    match phase {
        FetchPhase::Measuring => FetchActionView::Measure,
        FetchPhase::Removing => FetchActionView::Remove,
        FetchPhase::Requesting => FetchActionView::Request,
        FetchPhase::Receiving => FetchActionView::Receive,
        FetchPhase::Placing => FetchActionView::Place,
        FetchPhase::Ended => FetchActionView::Nothing,
    }
}

/// A file, what it asks for, and what the pages that listen are told.
#[verifier::ext_equal]
pub struct FetchStep {
    pub run: FetchView,
    pub action: FetchActionView,
    pub event: Option<EventView>,
}

/// A file that goes on to `phase`.
pub open spec fn fetch_to(v: FetchView, phase: FetchPhase) -> FetchStep {
    FetchStep { run: FetchView { phase, ..v }, action: fetch_awaits(phase), event: None }
}

/// A file that is there, or that cannot be had.
pub open spec fn fetch_ended(v: FetchView, r: Result<(), ModelErrorView>) -> FetchStep {
    FetchStep {
        run: FetchView { phase: FetchPhase::Ended, ..v },
        action: FetchActionView::Finish(r),
        event: None,
    }
}

/// How a file goes on. What it did not ask for changes nothing: it asks again.
pub open spec fn fetch_stepped(v: FetchView, event: FetchEvent) -> FetchStep {
    match (v.phase, event) {
        (FetchPhase::Measuring, FetchEvent::Measured(size)) => match size {
            Some(n) => if n >= v.min_bytes {
                fetch_ended(v, Ok(()))
            } else {
                fetch_to(v, FetchPhase::Removing)
            },
            None => fetch_to(v, FetchPhase::Requesting),
        },
        (FetchPhase::Removing, FetchEvent::Removed) => fetch_to(v, FetchPhase::Requesting),
        (FetchPhase::Requesting, FetchEvent::Answered(answer)) => match answer {
            Ok(a) => if success(a.0) {
                fetch_to(
                    FetchView { download: download_start(v.target, a.1), ..v },
                    FetchPhase::Receiving,
                )
            } else {
                fetch_ended(
                    v,
                    Err(ModelErrorView::Rejected { status: a.0, model: v.target.name() }),
                )
            },
            Err(e) => fetch_ended(v, Err(e@)),
        },
        (FetchPhase::Receiving, FetchEvent::Received(received)) => match received {
            Ok(Some(n)) => {
                let after = FetchView { download: download_grown(v.download, n as int), ..v };
                FetchStep {
                    run: after,
                    action: FetchActionView::Receive,
                    event: if v.target is Model && worth_telling(
                        v.download,
                        v.download.downloaded + n,
                    ) {
                        Some(
                            download_event(
                                after.download,
                                download_percent(
                                    v.download.downloaded + n,
                                    v.download.total,
                                ),
                            ),
                        )
                    } else {
                        None
                    },
                }
            },
            Ok(None) => fetch_to(v, FetchPhase::Placing),
            Err(e) => fetch_ended(v, Err(e@)),
        },
        (FetchPhase::Placing, FetchEvent::Placed(placed)) => match placed {
            Ok(_) => FetchStep {
                event: if v.target is Model {
                    Some(download_event(v.download, 100))
                } else {
                    None
                },
                ..fetch_ended(v, Ok(()))
            },
            Err(e) => fetch_ended(v, Err(e@)),
        },
        _ => FetchStep { run: v, action: fetch_awaits(v.phase), event: None },
    }
}

impl FetchRun {
    /// A file that is needed, of which nothing is known yet.
    pub fn new(target: FetchTarget, min_bytes: u64) -> (r: FetchRun)
        ensures
            r@ == (FetchView {
                target,
                min_bytes,
                phase: FetchPhase::Measuring,
                download: download_start(target, None),
            }),
    {
        let download = start_download(&target, None);
        FetchRun { target, min_bytes, phase: FetchPhase::Measuring, download }
    }

    /// What the file asks for.
    pub fn action(&self) -> (r: FetchAction)
        ensures
            r@ == fetch_awaits(self@.phase),
    {
        match self.phase {
            FetchPhase::Measuring => FetchAction::Measure,
            FetchPhase::Removing => FetchAction::Remove,
            FetchPhase::Requesting => FetchAction::Request,
            FetchPhase::Receiving => FetchAction::Receive,
            FetchPhase::Placing => FetchAction::Place,
            FetchPhase::Ended => FetchAction::Nothing,
        }
    }

    /// Goes on, given what came of what the file asked for. Says what it asks for next, and what
    /// the pages that listen are told.
    pub fn step(&mut self, event: FetchEvent) -> (r: (FetchAction, Option<AgentEvent>))
        requires
            event matches FetchEvent::Received(Ok(Some(n))) ==> old(self)@.download.downloaded + n
                <= u64::MAX,
            told_ok(old(self)@.download),
        ensures
            (FetchStep { run: final(self)@, action: r.0@, event: opt_event(r.1) })
                == fetch_stepped(old(self)@, event),
            told_ok(final(self)@.download),
    {
        match (self.phase, event) {
            (FetchPhase::Measuring, FetchEvent::Measured(size)) => match check_file(
                size,
                self.min_bytes,
            ) {
                FileCheck::Keep => self.end(Ok(())),
                FileCheck::Replace => self.go(FetchPhase::Removing),
                FileCheck::Fetch => self.go(FetchPhase::Requesting),
            },
            (FetchPhase::Removing, FetchEvent::Removed) => self.go(FetchPhase::Requesting),
            (FetchPhase::Requesting, FetchEvent::Answered(answer)) => match answer {
                Ok((status, total)) => {
                    let name = self.target_name();
                    match check_download(status, name.as_str()) {
                        Ok(()) => {
                            self.download = start_download(&self.target, total);
                            self.go(FetchPhase::Receiving)
                        },
                        Err(e) => self.end(Err(e)),
                    }
                },
                Err(e) => self.end(Err(e)),
            },
            (FetchPhase::Receiving, FetchEvent::Received(received)) => match received {
                Ok(Some(n)) => {
                    let told = self.download.received(n);
                    let event = match self.target {
                        FetchTarget::Model { .. } => told,
                        FetchTarget::Part { .. } => None,
                    };
                    (FetchAction::Receive, event)
                },
                Ok(None) => self.go(FetchPhase::Placing),
                Err(e) => self.end(Err(e)),
            },
            (FetchPhase::Placing, FetchEvent::Placed(placed)) => match placed {
                Ok(_) => {
                    let event = match self.target {
                        FetchTarget::Model { .. } => Some(self.download.complete()),
                        FetchTarget::Part { .. } => None,
                    };
                    self.phase = FetchPhase::Ended;
                    (FetchAction::Finish(Ok(())), event)
                },
                Err(e) => self.end(Err(e)),
            },
            _ => (self.action(), None),
        }
    }

    fn go(&mut self, phase: FetchPhase) -> (r: (FetchAction, Option<AgentEvent>))
        ensures
            (FetchStep { run: final(self)@, action: r.0@, event: opt_event(r.1) }) == fetch_to(
                old(self)@,
                phase,
            ),
    {
        self.phase = phase;
        (self.action(), None)
    }

    fn end(&mut self, result: Result<(), ModelError>) -> (r: (FetchAction, Option<AgentEvent>))
        ensures
            (FetchStep { run: final(self)@, action: r.0@, event: opt_event(r.1) }) == fetch_ended(
                old(self)@,
                match result {
                    Ok(()) => Ok(()),
                    Err(e) => Err(e@),
                },
            ),
    {
        self.phase = FetchPhase::Ended;
        (FetchAction::Finish(result), None)
    }

    fn target_name(&self) -> (r: String)
        ensures
            r@ == self@.target.name(),
    {
        match &self.target {
            FetchTarget::Model { model, .. } => model.as_str().to_string(),
            FetchTarget::Part { label } => prefixed("diarización/", label.as_str()),
        }
    }
}

fn start_download(target: &FetchTarget, total: Option<u64>) -> (r: Download)
    ensures
        r@ == download_start(*target, total),
{
    match target {
        FetchTarget::Model { job_id, model } => Download::new(job_id.as_str(), *model, total),
        FetchTarget::Part { .. } => {
            proof {
                reveal_strlit("");
                assert(""@ =~= Seq::<char>::empty());
            }
            Download::new("", WhisperModel::Tiny, total)
        },
    }
}

/// No file takes its place before all of it has come: it is moved there only where the server
/// agreed to send it and then ended it, and whatever fails on the way leaves the place empty.
pub proof fn only_complete_files_are_placed(v: FetchView, event: FetchEvent)
    ensures
        fetch_stepped(v, event).run.phase == FetchPhase::Placing && v.phase
            != FetchPhase::Placing ==> v.phase == FetchPhase::Receiving && (
        event matches FetchEvent::Received(r) && r == Ok::<Option<u64>, ModelError>(None)),
        fetch_stepped(v, event).run.phase == FetchPhase::Receiving && v.phase
            != FetchPhase::Receiving ==> v.phase == FetchPhase::Requesting && (
        event matches FetchEvent::Answered(Ok(a)) && success(a.0)),
        fetch_stepped(v, event).action == FetchActionView::Finish(Ok(())) ==> v.phase
            == FetchPhase::Placing || (v.phase == FetchPhase::Measuring && (
        event matches FetchEvent::Measured(Some(n)) && n >= v.min_bytes)),
{
}

/// A file that is there is not downloaded again, and one that was cut short is.
pub proof fn a_file_is_downloaded_once(v: FetchView, size: u64)
    requires
        v.phase == FetchPhase::Measuring,
    ensures
        size >= v.min_bytes ==> fetch_stepped(v, FetchEvent::Measured(Some(size))).action
            == FetchActionView::Finish(Ok(())),
        size < v.min_bytes ==> fetch_stepped(v, FetchEvent::Measured(Some(size))).action
            == FetchActionView::Remove,
        fetch_stepped(v, FetchEvent::Measured(None)).action == FetchActionView::Request,
{
}

// ── Whether a program can run ───────────────────────────────────────────────

/// The option that makes a program say its version. They are not interchangeable: the converter
/// does not know the one that the others do.
pub open spec fn flag_of(name: Seq<char>) -> Seq<char> {
    if name == FFMPEG_SIDECAR@ {
        "-version"@
    } else {
        "--version"@
    }
}

/// The option that makes a program say its version.
pub fn version_flag(name: &str) -> (r: &'static str)
    ensures
        r@ == flag_of(name@),
{
    if same_text(name, FFMPEG_SIDECAR) {
        "-version"
    } else {
        "--version"
    }
}

/// The seconds that a program has to say its version.
pub const PROBE_TIMEOUT_SECS: u64 = 30;

pub const PROBE_MUTE: &'static str = " no respondió en 30 s (¿antivirus inspeccionando el binario?)";

pub const PROBE_MISSING_DLL: &'static str = " no arrancó: falta una biblioteca del sistema (DLL). Instala el «Microsoft Visual C++ Redistributable (x64)».";

pub const PROBE_NO_CODE: &'static str = " se cerró sin código de salida (¿bloqueado por antivirus?)";

/// The first of `all` that is not blank, without the white space around it; empty where there
/// is none.
pub open spec fn first_spoken(all: Seq<Seq<char>>) -> Seq<char>
    decreases all.len(),
{
    if all.len() == 0 {
        Seq::empty()
    } else if trim(all[0]).len() != 0 {
        trim(all[0])
    } else {
        first_spoken(all.drop_first())
    }
}

/// What is said of a program that ended without a word.
pub open spec fn silent_end(name: Seq<char>, code: Option<i32>) -> Seq<char> {
    match code {
        None => name + PROBE_NO_CODE@,
        Some(c) => if c == -1073741515 {
            name + PROBE_MISSING_DLL@
        } else {
            name + " terminó con el código "@ + signed_decimal(c as int) + " sin imprimir nada"@
        },
    }
}

/// What a program that ended is taken for: it can run where it said something, whatever its
/// exit code. Silence is the mark of one that cannot.
pub open spec fn probe_verdict(
    name: Seq<char>,
    output: Seq<char>,
    code: Option<i32>,
) -> Result<Seq<char>, Seq<char>> {
    let first = first_spoken(lines(output));
    if first.len() == 0 {
        Err(silent_end(name, code))
    } else {
        Ok(first)
    }
}

/// What has been heard of a program that was asked for its version.
pub struct ProbeRun {
    name: String,
    output: String,
    code: Option<i32>,
}

/// What has been heard of it, by its texts.
#[verifier::ext_equal]
pub struct ProbeView {
    pub name: Seq<char>,
    pub output: Seq<char>,
    pub code: Option<i32>,
}

impl View for ProbeRun {
    type V = ProbeView;

    closed spec fn view(&self) -> ProbeView {
        ProbeView { name: self.name@, output: self.output@, code: self.code }
    }
}

/// What has been heard once `event` has.
pub open spec fn probe_heard(v: ProbeView, event: ProcessEvent) -> ProbeView {
    match event {
        ProcessEvent::Stdout(line) => ProbeView { output: with_line(v.output, line@), ..v },
        ProcessEvent::Stderr(line) => ProbeView { output: with_line(v.output, line@), ..v },
        ProcessEvent::Terminated(code) => ProbeView { code, ..v },
        _ => v,
    }
}

/// What the question comes to with `event`; nothing while it is open.
pub open spec fn probe_answer(v: ProbeView, event: ProcessEvent) -> Option<
    Result<Seq<char>, Seq<char>>,
> {
    match event {
        ProcessEvent::Error(e) => Some(Err(e@)),
        ProcessEvent::Silence => Some(Err(v.name + PROBE_MUTE@)),
        ProcessEvent::Closed => Some(probe_verdict(v.name, v.output, v.code)),
        _ => None,
    }
}

fn first_line(output: &str) -> (r: String)
    ensures
        r@ == first_spoken(lines(output@)),
{
    let all = lines_of(output);
    let ghost every = lines(output@);
    let mut i: usize = 0;
    assert(every.skip(0) =~= every);
    while i < all.len()
        invariant
            i <= all@.len(),
            every == texts(all@),
            every == lines(output@),
            first_spoken(every) == first_spoken(every.skip(i as int)),
        decreases all@.len() - i,
    {
        assert(every.skip(i as int)[0] == all@[i as int]@);
        assert(every.skip(i as int).drop_first() =~= every.skip(i + 1));
        let line = trimmed(all[i].as_str());
        if line.as_str().unicode_len() != 0 {
            return line;
        }
        i += 1;
    }
    assert(every.skip(i as int) =~= Seq::empty());
    let out = String::new();
    assert(out@ =~= Seq::empty());
    out
}

impl ProbeRun {
    /// A program that has just been asked.
    pub fn new(name: &str) -> (r: ProbeRun)
        ensures
            r@ == (ProbeView { name: name@, output: Seq::empty(), code: None }),
    {
        let r = ProbeRun { name: name.to_string(), output: String::new(), code: None };
        assert(r@.output =~= Seq::empty());
        r
    }

    /// The code that the program ended with, where it gave one.
    pub fn exit_code(&self) -> (r: Option<i32>)
        ensures
            r == self@.code,
    {
        self.code
    }

    /// Takes what was heard, and says what the question comes to once it does: the first line
    /// that the program wrote, or what is wrong with it.
    pub fn hear(&mut self, event: ProcessEvent) -> (r: Option<Result<String, String>>)
        ensures
            final(self)@ == probe_heard(old(self)@, event),
            (match r {
                Some(Ok(s)) => Some(Ok(s@)),
                Some(Err(e)) => Some(Err(e@)),
                None => None,
            }) == probe_answer(old(self)@, event),
    {
        match event {
            ProcessEvent::Stdout(line) => {
                push_line(&mut self.output, line.as_str());
                None
            },
            ProcessEvent::Stderr(line) => {
                push_line(&mut self.output, line.as_str());
                None
            },
            ProcessEvent::Terminated(code) => {
                self.code = code;
                None
            },
            ProcessEvent::Error(e) => Some(Err(e)),
            ProcessEvent::Silence => Some(Err(prefixed(self.name.as_str(), PROBE_MUTE))),
            ProcessEvent::Closed => {
                let first = first_line(self.output.as_str());
                if first.as_str().unicode_len() != 0 {
                    return Some(Ok(first));
                }
                Some(
                    Err(
                        match self.code {
                            None => prefixed(self.name.as_str(), PROBE_NO_CODE),
                            Some(c) => if c == -1073741515 {
                                prefixed(self.name.as_str(), PROBE_MISSING_DLL)
                            } else {
                                let mut out = prefixed(
                                    self.name.as_str(),
                                    " terminó con el código ",
                                );
                                push_signed(&mut out, c);
                                out.append(" sin imprimir nada");
                                out
                            },
                        },
                    ),
                )
            },
            ProcessEvent::Other => None,
        }
    }
}

/// A program that speaks counts as working whatever its exit code is, and one that says nothing
/// never does.
pub proof fn only_silence_is_broken(
    name: Seq<char>,
    output: Seq<char>,
    code: Option<i32>,
    other: Option<i32>,
)
    ensures
        probe_verdict(name, output, code) is Ok <==> probe_verdict(name, output, other) is Ok,
        probe_verdict(name, output, code) is Ok <==> first_spoken(lines(output)).len() != 0,
        probe_verdict(name, Seq::empty(), code) is Err,
{
}

// ── Laws ────────────────────────────────────────────────────────────────────

/// The percentage of a download is what came of what there is, rounded down, and no more than a
/// hundred; it is zero where nobody knows how much there is.
pub proof fn a_percentage_is_a_share(downloaded: int, total: Option<u64>)
    requires
        0 <= downloaded,
    ensures
        ({
            let p = download_percent(downloaded, total);
            &&& total is None ==> p == 0
            &&& total is Some && total->0 > 0 && downloaded <= total->0 ==> p * (total->0) <= downloaded
                * 100 < (p + 1) * (total->0)
            &&& total is Some && total->0 > 0 && downloaded >= total->0 ==> p == 100
            &&& total == Some(0u64) ==> p == 0
        }),
{
    if let Some(t) = total {
        if t > 0 {
            let n = t as int;
            let a = downloaded * 100;
            assert((a / n) * n <= a < (a / n + 1) * n) by (nonlinear_arith)
                requires
                    n > 0,
            ;
            if downloaded <= n {
                assert(a / n <= 100) by (nonlinear_arith)
                    requires
                        n > 0,
                        a <= 100 * n,
                ;
            }
            if downloaded >= n {
                assert(a / n >= 100) by (nonlinear_arith)
                    requires
                        n > 0,
                        a >= 100 * n,
                ;
            }
        }
    }
}

/// What comes of a file is counted, and nothing else of the download changes but what was told of
/// it. The pages are told what has come, of what, for which job and of which model.
pub proof fn what_comes_is_counted(v: DownloadView, bytes: u64, percent: int)
    requires
        v.downloaded + bytes <= u64::MAX,
        0 <= percent <= 100,
    ensures
        ({
            let w = download_grown(v, bytes as int);
            &&& w.downloaded == v.downloaded + bytes
            &&& w.total == v.total
            &&& w.job_id == v.job_id
            &&& w.model == v.model
            &&& w.last_report != v.last_report ==> w.last_report is Some && w.last_report->0
                == download_percent(v.downloaded + bytes, v.total)
        }),
        download_event(v, percent) matches EventView::ModelDownload {
            job_id,
            model,
            downloaded_bytes,
            total_bytes,
            percent: told,
        } && job_id == v.job_id && model == v.model.name() && downloaded_bytes == v.downloaded
            && total_bytes == v.total && told == percent,
        worth_telling(v, (v.downloaded + bytes) as int) <==> (match v.last_report {
            Some(last) => download_percent(v.downloaded + bytes, v.total) - last >= 2,
            None => v.downloaded + bytes > 0,
        }),
{
    lemma_percent(v.downloaded + bytes, v.total);
}

/// The way of a file that is needed: which phase follows which, given what came of what it asked
/// for, and why it cannot be had where it cannot.
pub proof fn a_file_takes_its_steps_in_order(v: FetchView, event: FetchEvent)
    ensures
        ({
            let step = fetch_stepped(v, event);
            &&& step.run.target == v.target
            &&& step.run.min_bytes == v.min_bytes
            &&& match (v.phase, event) {
                (FetchPhase::Measuring, FetchEvent::Measured(Some(n))) => step.run.phase == (
                if n >= v.min_bytes {
                    FetchPhase::Ended
                } else {
                    FetchPhase::Removing
                }),
                (FetchPhase::Measuring, FetchEvent::Measured(None)) => step.run.phase
                    == FetchPhase::Requesting,
                (FetchPhase::Removing, FetchEvent::Removed) => step.run.phase
                    == FetchPhase::Requesting,
                (FetchPhase::Requesting, FetchEvent::Answered(Ok(a))) => {
                    &&& 200 <= a.0 < 300 ==> step.run.phase == FetchPhase::Receiving
                        && step.run.download.total == a.1 && step.run.download.downloaded == 0
                        && step.run.download.last_report is None
                    &&& !(200 <= a.0 < 300) ==> step.run.phase == FetchPhase::Ended && step.action
                        == FetchActionView::Finish(
                        Err(ModelErrorView::Rejected { status: a.0, model: v.target.name() }),
                    )
                },
                (FetchPhase::Requesting, FetchEvent::Answered(Err(e))) => step.run.phase
                    == FetchPhase::Ended && step.action == FetchActionView::Finish(Err(e@)),
                (FetchPhase::Receiving, FetchEvent::Received(Ok(Some(n)))) => step.run.phase
                    == FetchPhase::Receiving && step.action is Receive && step.run.download
                    == download_grown(v.download, n as int),
                (FetchPhase::Receiving, FetchEvent::Received(Ok(None))) => step.run.phase
                    == FetchPhase::Placing && step.run.download == v.download,
                (FetchPhase::Receiving, FetchEvent::Received(Err(e))) => step.run.phase
                    == FetchPhase::Ended && step.action == FetchActionView::Finish(Err(e@)),
                (FetchPhase::Placing, FetchEvent::Placed(placed)) => step.run.phase
                    == FetchPhase::Ended && step.action == FetchActionView::Finish(
                    match placed {
                        Ok(_) => Ok(()),
                        Err(e) => Err(e@),
                    },
                ),
                _ => step.run == v && step.event is None,
            }
        }),
        fetch_awaits(FetchPhase::Measuring) is Measure,
        fetch_awaits(FetchPhase::Removing) is Remove,
        fetch_awaits(FetchPhase::Requesting) is Request,
        fetch_awaits(FetchPhase::Receiving) is Receive,
        fetch_awaits(FetchPhase::Placing) is Place,
        fetch_awaits(FetchPhase::Ended) is Nothing,
        !(fetch_stepped(v, event).action is Finish) ==> fetch_stepped(v, event).action
            == fetch_awaits(fetch_stepped(v, event).run.phase),
{
}

/// The pages are told of the download of a model, of nothing else: each time that it is worth
/// telling, and once all of it is there, that it is.
pub proof fn only_models_are_told_of(v: FetchView, event: FetchEvent)
    ensures
        fetch_stepped(v, event).event matches Some(e) ==> v.target is Model && (
        match (v.phase, event) {
            (FetchPhase::Receiving, FetchEvent::Received(Ok(Some(n)))) => worth_telling(
                v.download,
                v.download.downloaded + n,
            ) && e == download_event(
                download_grown(v.download, n as int),
                download_percent(v.download.downloaded + n, v.download.total),
            ),
            (FetchPhase::Placing, FetchEvent::Placed(Ok(_))) => e == download_event(
                v.download,
                100,
            ),
            _ => false,
        }),
        v.target is Model && v.phase == FetchPhase::Placing && (event matches FetchEvent::Placed(p)
            && p is Ok) ==> fetch_stepped(v, event).event is Some,
        v.target is Model && v.phase == FetchPhase::Receiving && (
        event matches FetchEvent::Received(Ok(Some(n))) && worth_telling(
            v.download,
            v.download.downloaded + n,
        )) ==> fetch_stepped(v, event).event is Some,
{
}

/// A download is of the job and of the model that it is for, and nothing of it has come when it
/// begins. A file is called by its model, or by what it serves.
pub proof fn downloads_are_for_their_jobs(target: FetchTarget, total: Option<u64>)
    ensures
        match target {
            FetchTarget::Model { job_id, model } => target.name() == model.name() && download_start(
                target,
                total,
            ).job_id == job_id@ && download_start(target, total).model == model,
            FetchTarget::Part { label } => target.name() == "diarización/"@ + label@,
        },
        download_start(target, total).total == total,
        download_start(target, total).downloaded == 0,
        download_start(target, total).last_report is None,
{
}

/// The model that is said to be there is the first file of the folder that is one.
pub proof fn the_first_model_is_named(names: Seq<Seq<char>>, i: int)
    ensures
        first_model(names) matches Some(name) ==> exists|k: int|
            0 <= k < names.len() && #[trigger] names[k] == name && names_a_model(name) && forall|
                j: int,
            |
                0 <= j < k ==> !names_a_model(#[trigger] names[j]),
        first_model(names) is None && 0 <= i < names.len() ==> !names_a_model(names[i]),
        0 <= i < names.len() ==> (names_a_model(names[i]) <==> starts_with(names[i], "ggml-"@)
            && ends_with(names[i], ".bin"@)),
    decreases names.len(),
{
    if names.len() > 0 && !names_a_model(names[0]) {
        let rest = names.drop_first();
        the_first_model_is_named(rest, i - 1);
        if let Some(name) = first_model(rest) {
            let k = choose|k: int|
                0 <= k < rest.len() && #[trigger] rest[k] == name && names_a_model(name) && forall|
                    j: int,
                |
                    0 <= j < k ==> !names_a_model(#[trigger] rest[j]);
            assert(names[k + 1] == name);
            assert forall|j: int| 0 <= j < k + 1 implies !names_a_model(#[trigger] names[j]) by {
                if j > 0 {
                    assert(rest[j - 1] == names[j]);
                }
            }
        }
        if 0 < i < names.len() {
            assert(rest[i - 1] == names[i]);
        }
    } else if names.len() > 0 {
        assert(names[0] == names[0]);
    }
}

/// What a program says of its version is the first of its lines that says something, trimmed.
pub proof fn the_first_spoken_line_counts(line: Seq<char>, rest: Seq<Seq<char>>)
    ensures
        first_spoken(Seq::empty()) == Seq::<char>::empty(),
        blank(line) ==> first_spoken(seq![line] + rest) == first_spoken(rest),
        !blank(line) ==> first_spoken(seq![line] + rest) == trim(line),
{
    trimming_empties_blank_text(line);
    assert((seq![line] + rest).drop_first() =~= rest);
}

/// A program that was asked for its version is heard on both of its outputs, in order, until it
/// ends; what it comes to is what it said, or what is known of why it said nothing.
pub proof fn a_program_is_heard_until_it_ends(v: ProbeView, event: ProcessEvent)
    ensures
        ({
            let w = probe_heard(v, event);
            &&& w.name == v.name
            &&& (match event {
                ProcessEvent::Stdout(line) | ProcessEvent::Stderr(line) => w.output == v.output
                    + line@ + seq!['\n'] && w.code == v.code,
                ProcessEvent::Terminated(code) => w.code == code && w.output == v.output,
                _ => w == v,
            })
        }),
        match event {
            ProcessEvent::Error(e) => probe_answer(v, event) == Some(
                Err::<Seq<char>, Seq<char>>(e@),
            ),
            ProcessEvent::Silence => probe_answer(v, event) == Some(
                Err::<Seq<char>, Seq<char>>(v.name + PROBE_MUTE@),
            ),
            ProcessEvent::Closed => {
                let first = first_spoken(lines(v.output));
                &&& first.len() > 0 ==> probe_answer(v, event) == Some(
                    Ok::<Seq<char>, Seq<char>>(first),
                )
                &&& first.len() == 0 && v.code is None ==> probe_answer(v, event) == Some(
                    Err::<Seq<char>, Seq<char>>(v.name + PROBE_NO_CODE@),
                )
                &&& first.len() == 0 && v.code == Some(-1073741515i32) ==> probe_answer(v, event)
                    == Some(Err::<Seq<char>, Seq<char>>(v.name + PROBE_MISSING_DLL@))
                &&& first.len() == 0 && v.code is Some && v.code->0 != -1073741515 ==> probe_answer(
                    v,
                    event,
                ) == Some(
                    Err::<Seq<char>, Seq<char>>(
                        v.name + " terminó con el código "@ + signed_decimal(v.code->0 as int)
                            + " sin imprimir nada"@,
                    ),
                )
            },
            _ => probe_answer(v, event) is None,
        },
{
    match event {
        ProcessEvent::Stdout(line) => {
            assert(probe_heard(v, event).output =~= v.output + line@ + seq!['\n']);
        },
        ProcessEvent::Stderr(line) => {
            assert(probe_heard(v, event).output =~= v.output + line@ + seq!['\n']);
        },
        _ => {},
    }
}

/// The converter has a flag of its own, and the other programs share one.
pub proof fn programs_have_their_own_flags(name: Seq<char>)
    ensures
        flag_of(FFMPEG_SIDECAR@) == "-version"@,
        name != FFMPEG_SIDECAR@ ==> flag_of(name) == "--version"@,
{
}

/// The message of an error names what went wrong and carries what is known of it.
pub proof fn errors_of_models_carry_their_causes(e: ModelError)
    ensures
        match e {
            ModelError::Network(x) => e@ == ModelErrorView::Network(x@) && e@.text()
                == "Error de red al descargar el modelo: "@ + x@,
            ModelError::Io(x) => e@ == ModelErrorView::Io(x@) && e@.text() == "Error de E/S: "@
                + x@,
            ModelError::Rejected { status, model } => e@ == (ModelErrorView::Rejected {
                status,
                model: model@,
            }) && e@.text() == "HuggingFace devolvió "@ + decimal(status as nat) + " al bajar "@
                + model@,
            ModelError::Path(x) => e@ == ModelErrorView::Path(x@) && e@.text()
                == "Tauri no pudo resolver el directorio de datos: "@ + x@,
        },
{
}

/// What a file asks for, and what is told of it, is seen as it is.
pub proof fn fetches_are_seen_as_they_are(a: FetchAction, e: AgentEvent)
    ensures
        match a {
            FetchAction::Measure => a@ is Measure,
            FetchAction::Remove => a@ is Remove,
            FetchAction::Request => a@ is Request,
            FetchAction::Receive => a@ is Receive,
            FetchAction::Place => a@ is Place,
            FetchAction::Finish(Ok(())) => a@ == FetchActionView::Finish(Ok(())),
            FetchAction::Finish(Err(x)) => a@ == FetchActionView::Finish(Err(x@)),
            FetchAction::Nothing => a@ is Nothing,
        },
        opt_event(Some(e)) == Some(e@),
        opt_event(None) is None,
{
}

/// A model that lacks a fifth of its bytes or more counts as cut short, and a whole one does not;
/// the least size is a round number of mebibytes for each.
pub proof fn models_cut_short_are_told_by_their_size(model: WhisperModel)
    ensures
        4 * real_size(model) <= 5 * (least_mebibytes(model) * 1_048_576),
        least_mebibytes(model) * 1_048_576 <= real_size(model),
        least_mebibytes(model) == (if model == WhisperModel::Tiny {
            60nat
        } else if model == WhisperModel::Base {
            120
        } else if model == WhisperModel::Small {
            420
        } else if model == WhisperModel::Medium {
            1_300
        } else {
            2_700
        }),
{
}

} // verus!
