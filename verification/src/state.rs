//! What the agent knows of itself: its jobs, its log and the health of its components.
//!
//! The window may be opened three hours into a job and has to tell what is going on, so the
//! agent keeps a live registry of its jobs and the last lines of its log.
use crate::config::{JOB_HISTORY_LIMIT, LOG_BUFFER_LINES};
use crate::outside::{get_job, insert_job, jobs_in, new_jobs, remove_job};
use crate::text::{copy_opt, join, joined, opt_text, same_text, texts};
use crate::types::{
    log_views, now_ms, AgentEvent, AgentTriggerPayload, JobStage, JobStatus, JobView, LogEntry,
    LogView,
};
use crate::updates::{UpdateInfo, UpdateView};
use crate::ws_hub::{
    apart, channels_kept, hub_sound, published, replayed, with_channel, HubView, WsHub,
};
use dashmap::DashMap;
use std::collections::VecDeque;
use tokio::sync::broadcast;
use vstd::prelude::*;
use vstd::string::*;

verus! {

// ── The model ───────────────────────────────────────────────────────────────

/// The state of the agent by its texts.
#[verifier::ext_equal]
pub struct AppView {
    /// What the pages that listen have been told.
    pub hub: HubView,
    /// Pipelines that have not returned yet.
    pub running: usize,
    /// Whether the components answered.
    pub dependencies_ok: bool,
    /// Which component did not, and why.
    pub dependencies_error: Option<Seq<char>>,
    /// Live jobs, and those that ended a short while ago.
    pub jobs: Map<Seq<char>, JobView>,
    /// The order in which the jobs arrived.
    pub order: Seq<Seq<char>>,
    /// The last lines of the log.
    pub logs: Seq<LogView>,
    /// What is known of newer versions; nothing until the first answer.
    pub update: Option<UpdateView>,
}

/// The order lists every job once, each job is filed under its id, the log is no longer than
/// it may be, and every channel replays the last event that went through it, all of its own job.
pub open spec fn sound(v: AppView) -> bool {
    &&& hub_sound(v.hub)
    &&& v.order.no_duplicates()
    &&& forall|id: Seq<char>| #[trigger] v.order.contains(id) <==> v.jobs.contains_key(id)
    &&& forall|id: Seq<char>| #[trigger] v.jobs.contains_key(id) ==> v.jobs[id].job_id == id
    &&& v.logs.len() <= LOG_BUFFER_LINES
}

/// The agent as it starts. The components count as healthy until one is known not to be.
pub open spec fn at_start() -> AppView {
    AppView {
        hub: Map::empty(),
        running: 0,
        dependencies_ok: true,
        dependencies_error: None,
        jobs: Map::empty(),
        order: Seq::empty(),
        logs: Seq::empty(),
        update: None,
    }
}

/// The last `n` lines of `lines`.
pub open spec fn last_lines(lines: Seq<LogView>, n: nat) -> Seq<LogView> {
    if lines.len() <= n {
        lines
    } else {
        lines.subrange(lines.len() - n, lines.len() as int)
    }
}

/// The state once a line has been written to the log.
pub open spec fn logged(v: AppView, now: u64, level: Seq<char>, text: Seq<char>) -> AppView {
    AppView {
        logs: last_lines(
            v.logs.push(LogView { at_ms: now, level, text }),
            LOG_BUFFER_LINES as nat,
        ),
        ..v
    }
}

/// `order` without `id`.
pub open spec fn ids_except(order: Seq<Seq<char>>, id: Seq<char>) -> Seq<Seq<char>>
    decreases order.len(),
{
    if order.len() == 0 {
        Seq::empty()
    } else if order.last() == id {
        ids_except(order.drop_last(), id)
    } else {
        ids_except(order.drop_last(), id).push(order.last())
    }
}

/// How many jobs of `order` have ended.
pub open spec fn finished_count(order: Seq<Seq<char>>, jobs: Map<Seq<char>, JobView>) -> nat
    decreases order.len(),
{
    if order.len() == 0 {
        0
    } else if jobs[order.last()].stage.terminal() {
        finished_count(order.drop_last(), jobs) + 1
    } else {
        finished_count(order.drop_last(), jobs)
    }
}

/// How many jobs of `order` have not ended.
pub open spec fn live_count(order: Seq<Seq<char>>, jobs: Map<Seq<char>, JobView>) -> nat
    decreases order.len(),
{
    if order.len() == 0 {
        0
    } else if jobs[order.last()].stage.terminal() {
        live_count(order.drop_last(), jobs)
    } else {
        live_count(order.drop_last(), jobs) + 1
    }
}

/// `order` without the first `n` jobs that have ended: one leaves where it has ended and fewer
/// than `n` that have ended came before it.
pub open spec fn without_oldest(
    order: Seq<Seq<char>>,
    jobs: Map<Seq<char>, JobView>,
    n: nat,
) -> Seq<Seq<char>>
    decreases order.len(),
{
    if order.len() == 0 {
        Seq::empty()
    } else if jobs[order.last()].stage.terminal() && finished_count(order.drop_last(), jobs) < n {
        without_oldest(order.drop_last(), jobs, n)
    } else {
        without_oldest(order.drop_last(), jobs, n).push(order.last())
    }
}

/// How many jobs that have ended are too many.
pub open spec fn excess(order: Seq<Seq<char>>, jobs: Map<Seq<char>, JobView>) -> nat {
    let n = finished_count(order, jobs);
    if n > JOB_HISTORY_LIMIT {
        (n - JOB_HISTORY_LIMIT) as nat
    } else {
        0
    }
}

/// The state once `job` has been registered: it is the newest, and the oldest jobs that have
/// ended leave while there are too many of them.
pub open spec fn registered(v: AppView, job: JobView) -> AppView {
    let jobs = v.jobs.insert(job.job_id, job);
    let order = ids_except(v.order, job.job_id).push(job.job_id);
    let kept = without_oldest(order, jobs, excess(order, jobs));
    AppView { jobs: jobs.restrict(kept.to_set()), order: kept, ..v }
}

/// The jobs of `order` that have ended, or those that have not, from the newest to the oldest.
pub open spec fn newest_first(
    order: Seq<Seq<char>>,
    jobs: Map<Seq<char>, JobView>,
    ended: bool,
) -> Seq<JobView>
    decreases order.len(),
{
    if order.len() == 0 {
        Seq::empty()
    } else if jobs[order.last()].stage.terminal() == ended {
        seq![jobs[order.last()]] + newest_first(order.drop_last(), jobs, ended)
    } else {
        newest_first(order.drop_last(), jobs, ended)
    }
}

/// The jobs as the window lists them: the live ones first, the newest on top.
pub open spec fn listed(v: AppView) -> Seq<JobView> {
    newest_first(v.order, v.jobs, false) + newest_first(v.order, v.jobs, true)
}

/// The error of the newest job of `order` that has one.
pub open spec fn newest_error(
    order: Seq<Seq<char>>,
    jobs: Map<Seq<char>, JobView>,
) -> Option<Seq<char>>
    decreases order.len(),
{
    if order.len() == 0 {
        None
    } else {
        match jobs[order.last()].error {
            Some(e) => Some(jobs[order.last()].file_name + " — "@ + e),
            None => newest_error(order.drop_last(), jobs),
        }
    }
}

/// The last failure to tell support about: a component that does not work, which stops
/// everything; where there is none, the newest job that failed.
pub open spec fn failure_of(v: AppView) -> Option<Seq<char>> {
    match v.dependencies_error {
        Some(e) => Some("Componentes: "@ + e),
        None => newest_error(v.order, v.jobs),
    }
}

/// The jobs of a list by their texts.
pub open spec fn job_views(s: Seq<JobStatus>) -> Seq<JobView> {
    Seq::new(s.len(), |i: int| s[i]@)
}

/// The name that a job goes by: the last part of its path, or the whole of it where there is
/// none.
pub open spec fn shown_name(path: Seq<char>, file_name: Option<Seq<char>>) -> Seq<char> {
    match file_name {
        Some(n) => n,
        None => path,
    }
}

/// A job that has just arrived.
pub open spec fn queued_job(
    job_id: Seq<char>,
    file_name: Seq<char>,
    model: Seq<char>,
    now: u64,
) -> JobView {
    JobView {
        job_id,
        file_name,
        model,
        hardware: None,
        stage: JobStage::Queued,
        progress: 0,
        eta_seconds: None,
        audio_length: None,
        note: None,
        started_at_ms: now,
        engine_seen_at_ms: now,
        updated_at_ms: now,
        error: None,
        hint: None,
    }
}

/// The state once a job has been accepted.
pub open spec fn accepted(
    v: AppView,
    job_id: Seq<char>,
    file_name: Seq<char>,
    model: Seq<char>,
    now: u64,
) -> AppView {
    logged(
        registered(
            AppView { running: v.running.wrapping_add(1), ..v },
            queued_job(job_id, file_name, model, now),
        ),
        now,
        "info"@,
        "Trabajo recibido: "@ + file_name + " (modelo "@ + model + ")"@,
    )
}

/// The state once the pipeline of a job has returned.
pub open spec fn ended(v: AppView, job_id: Seq<char>) -> AppView {
    AppView { running: v.running.wrapping_sub(1), hub: v.hub.remove(job_id), ..v }
}

/// The texts of a result.
pub open spec fn result_text(r: Result<String, String>) -> Result<Seq<char>, Seq<char>> {
    match r {
        Ok(s) => Ok(s@),
        Err(s) => Err(s@),
    }
}

/// What is wrong with the components that did not answer.
pub open spec fn problems_of(
    ffmpeg: Result<Seq<char>, Seq<char>>,
    whisper: Result<Seq<char>, Seq<char>>,
) -> Seq<Seq<char>> {
    (match ffmpeg {
        Ok(_) => Seq::empty(),
        Err(e) => seq!["Conversor de audio (ffmpeg): "@ + e],
    }) + (match whisper {
        Ok(_) => Seq::empty(),
        Err(e) => seq!["Motor de transcripción (whisper): "@ + e],
    })
}

/// The state once the components have been asked for their versions.
pub open spec fn probed(
    v: AppView,
    ffmpeg: Result<Seq<char>, Seq<char>>,
    whisper: Result<Seq<char>, Seq<char>>,
    now: u64,
) -> AppView {
    match (ffmpeg, whisper) {
        (Ok(f), Ok(w)) => AppView {
            dependencies_ok: true,
            dependencies_error: None,
            ..logged(
                v,
                now,
                "info"@,
                "Componentes verificados — ffmpeg: "@ + f + " · motor: "@ + w,
            )
        },
        _ => {
            let detail = join(problems_of(ffmpeg, whisper), " · "@);
            AppView {
                dependencies_ok: false,
                dependencies_error: Some(detail),
                ..logged(v, now, "error"@, "Componentes con problemas: "@ + detail)
            }
        },
    }
}

/// The state once the latest version is known.
pub open spec fn noted(v: AppView, info: UpdateView, now: u64) -> AppView {
    let w = if info.available {
        logged(
            v,
            now,
            "info"@,
            "Hay una versión nueva del agente: v"@ + info.latest + " (tienes la v"@ + info.current
                + ")."@,
        )
    } else {
        v
    };
    AppView { update: Some(info), ..w }
}

// ── Changes of a job ────────────────────────────────────────────────────────

/// What can happen to a job that is registered.
pub enum JobChange {
    /// It goes on to another stage.
    Stage(JobStage),
    /// The audio is converted: what will run the engine, and how long the audio is.
    Prepared { hardware: &'static str, audio_length: Option<i128> },
    /// The engine gave a sign of life.
    Progress { progress: u8, eta_seconds: Option<u64>, note: Option<String> },
    /// The agent says again what it knows; the engine said nothing.
    Heartbeat { eta_seconds: Option<u64>, note: Option<String> },
    /// The speakers are being told apart.
    Diarizing,
    /// The transcript is on its way.
    Uploading,
    /// Amautum has the transcript.
    Completed,
    /// The transcript is on disk and waits for a connection.
    UploadPending,
    /// It came to nothing.
    Failed { error: String, hint: String },
}

/// A change by its texts.
pub enum ChangeView {
    Stage(JobStage),
    Prepared { hardware: Seq<char>, audio_length: Option<i128> },
    Progress { progress: u8, eta_seconds: Option<u64>, note: Option<Seq<char>> },
    Heartbeat { eta_seconds: Option<u64>, note: Option<Seq<char>> },
    Diarizing,
    Uploading,
    Completed,
    UploadPending,
    Failed { error: Seq<char>, hint: Seq<char> },
}

impl View for JobChange {
    type V = ChangeView;

    open spec fn view(&self) -> ChangeView {
        match *self {
            JobChange::Stage(stage) => ChangeView::Stage(stage),
            JobChange::Prepared { hardware, audio_length } => ChangeView::Prepared {
                hardware: hardware@,
                audio_length,
            },
            JobChange::Progress { progress, eta_seconds, note } => ChangeView::Progress {
                progress,
                eta_seconds,
                note: opt_text(note),
            },
            JobChange::Heartbeat { eta_seconds, note } => ChangeView::Heartbeat {
                eta_seconds,
                note: opt_text(note),
            },
            JobChange::Diarizing => ChangeView::Diarizing,
            JobChange::Uploading => ChangeView::Uploading,
            JobChange::Completed => ChangeView::Completed,
            JobChange::UploadPending => ChangeView::UploadPending,
            JobChange::Failed { error, hint } => ChangeView::Failed { error: error@, hint: hint@ },
        }
    }
}

/// What the window says while the speakers are told apart.
pub const DIARIZING_NOTE: &'static str = "Identificando quién habla en cada tramo";

/// What the window says of a transcript that waits for a connection.
pub const PENDING_HINT: &'static str = "La transcripción está a salvo en este equipo. Se sube sola en cuanto vuelva la conexión; también puedes forzar el reintento desde aquí.";

/// A job after a change at the time `now`. The time of the last update is always `now`.
pub open spec fn changed(job: JobView, change: ChangeView, now: u64) -> JobView {
    let j = JobView { updated_at_ms: now, ..job };
    match change {
        ChangeView::Stage(stage) => JobView { stage, ..j },
        ChangeView::Prepared { hardware, audio_length } => JobView {
            hardware: Some(hardware),
            audio_length,
            ..j
        },
        ChangeView::Progress { progress, eta_seconds, note } => JobView {
            progress,
            eta_seconds,
            note,
            engine_seen_at_ms: now,
            ..j
        },
        ChangeView::Heartbeat { eta_seconds, note } => JobView { eta_seconds, note, ..j },
        ChangeView::Diarizing => JobView {
            stage: JobStage::Diarizing,
            note: Some(DIARIZING_NOTE@),
            ..j
        },
        ChangeView::Uploading => JobView {
            stage: JobStage::Uploading,
            progress: 100,
            eta_seconds: None,
            note: None,
            ..j
        },
        ChangeView::Completed => JobView {
            stage: JobStage::Completed,
            progress: 100,
            eta_seconds: None,
            note: None,
            error: None,
            hint: None,
            ..j
        },
        ChangeView::UploadPending => JobView {
            stage: JobStage::UploadPending,
            progress: 100,
            eta_seconds: None,
            note: None,
            hint: Some(PENDING_HINT@),
            ..j
        },
        ChangeView::Failed { error, hint } => JobView {
            stage: JobStage::Failed,
            eta_seconds: None,
            note: None,
            error: Some(error),
            hint: Some(hint),
            ..j
        },
    }
}

/// The state once `job_id` has changed. A job that is not registered changes nothing.
pub open spec fn updated(v: AppView, job_id: Seq<char>, change: ChangeView, now: u64) -> AppView {
    if v.jobs.contains_key(job_id) {
        AppView { jobs: v.jobs.insert(job_id, changed(v.jobs[job_id], change, now)), ..v }
    } else {
        v
    }
}

fn apply(job: JobStatus, change: JobChange, now: u64) -> (r: JobStatus)
    ensures
        r@ == changed(job@, change@, now),
{
    let mut j = job;
    match change {
        JobChange::Stage(stage) => {
            j.stage = stage;
        },
        JobChange::Prepared { hardware, audio_length } => {
            j.hardware = Some(hardware.to_string());
            j.audio_length = audio_length;
        },
        JobChange::Progress { progress, eta_seconds, note } => {
            j.progress = progress;
            j.eta_seconds = eta_seconds;
            j.note = note;
            j.engine_seen_at_ms = now;
        },
        JobChange::Heartbeat { eta_seconds, note } => {
            j.eta_seconds = eta_seconds;
            j.note = note;
        },
        JobChange::Diarizing => {
            j.stage = JobStage::Diarizing;
            j.note = Some(DIARIZING_NOTE.to_string());
        },
        JobChange::Uploading => {
            j.stage = JobStage::Uploading;
            j.progress = 100;
            j.eta_seconds = None;
            j.note = None;
        },
        JobChange::Completed => {
            j.stage = JobStage::Completed;
            j.progress = 100;
            j.eta_seconds = None;
            j.note = None;
            j.error = None;
            j.hint = None;
        },
        JobChange::UploadPending => {
            j.stage = JobStage::UploadPending;
            j.progress = 100;
            j.eta_seconds = None;
            j.note = None;
            j.hint = Some(PENDING_HINT.to_string());
        },
        JobChange::Failed { error, hint } => {
            j.stage = JobStage::Failed;
            j.eta_seconds = None;
            j.note = None;
            j.error = Some(error);
            j.hint = Some(hint);
        },
    }
    j.updated_at_ms = now;
    j
}

/// Taking an id out leaves the others, each as often as before.
proof fn lemma_ids_except(order: Seq<Seq<char>>, id: Seq<char>)
    ensures
        forall|x: Seq<char>| #[trigger]
            ids_except(order, id).contains(x) <==> order.contains(x) && x != id,
        order.no_duplicates() ==> ids_except(order, id).no_duplicates(),
    decreases order.len(),
{
    if order.len() != 0 {
        let front = order.drop_last();
        lemma_ids_except(front, id);
        lemma_last(order);
        lemma_pushed(ids_except(front, id), order.last());
    }
}

/// What a list holds is what it holds before its last item, and its last item.
proof fn lemma_last(s: Seq<Seq<char>>)
    requires
        s.len() != 0,
    ensures
        forall|x: Seq<char>| #[trigger] s.contains(x) <==> s.drop_last().contains(x) || x == s.last(),
        s.no_duplicates() ==> s.drop_last().no_duplicates() && !s.drop_last().contains(s.last()),
{
    assert(s == s.drop_last().push(s.last()));
    lemma_pushed(s.drop_last(), s.last());
    if s.no_duplicates() && s.drop_last().contains(s.last()) {
        let i = choose|i: int| 0 <= i < s.drop_last().len() && s.drop_last()[i] == s.last();
        assert(s[i] == s[s.len() - 1]);
    }
}

/// What a list holds once an item has been added to its end.
proof fn lemma_pushed(s: Seq<Seq<char>>, last: Seq<char>)
    ensures
        forall|x: Seq<char>| #[trigger] s.push(last).contains(x) <==> s.contains(x) || x == last,
        s.no_duplicates() && !s.contains(last) ==> s.push(last).no_duplicates(),
{
    assert forall|x: Seq<char>| #[trigger]
        s.push(last).contains(x) <==> s.contains(x) || x == last by {
        if s.contains(x) {
            let i = choose|i: int| 0 <= i < s.len() && s[i] == x;
            assert(s.push(last)[i] == x);
        }
        if x == last {
            assert(s.push(last)[s.len() as int] == x);
        }
        if s.push(last).contains(x) {
            let i = choose|i: int| 0 <= i < s.push(last).len() && s.push(last)[i] == x;
            if i < s.len() {
                assert(s[i] == x);
            }
        }
    }
}

/// Taking the oldest that ended out leaves every live job, and ends with no more than the rest
/// of those that ended.
proof fn lemma_without_oldest(order: Seq<Seq<char>>, jobs: Map<Seq<char>, JobView>, n: nat)
    ensures
        forall|x: Seq<char>| #[trigger]
            without_oldest(order, jobs, n).contains(x) ==> order.contains(x),
        forall|x: Seq<char>| #[trigger]
            order.contains(x) && !jobs[x].stage.terminal() ==> without_oldest(
                order,
                jobs,
                n,
            ).contains(x),
        order.no_duplicates() ==> without_oldest(order, jobs, n).no_duplicates(),
        finished_count(without_oldest(order, jobs, n), jobs) == (if finished_count(order, jobs) < n {
            0
        } else {
            finished_count(order, jobs) - n
        }),
    decreases order.len(),
{
    if order.len() != 0 {
        let front = order.drop_last();
        lemma_without_oldest(front, jobs, n);
        lemma_last(order);
        let kept = without_oldest(front, jobs, n);
        lemma_pushed(kept, order.last());
        assert(kept.push(order.last()).drop_last() =~= kept);
    }
}

// ── The state ───────────────────────────────────────────────────────────────

/// `order` without `id`.
fn without_id(order: &Vec<String>, id: &str) -> (r: Vec<String>)
    ensures
        texts(r@) == ids_except(texts(order@), id@),
{
    let ghost all = texts(order@);
    let mut out: Vec<String> = Vec::new();
    let mut i: usize = 0;
    assert(texts(out@) =~= ids_except(all.take(0), id@));
    while i < order.len()
        invariant
            i <= order@.len(),
            all == texts(order@),
            texts(out@) == ids_except(all.take(i as int), id@),
        decreases order@.len() - i,
    {
        assert(all.take(i + 1).drop_last() =~= all.take(i as int));
        assert(all.take(i + 1).last() == order@[i as int]@);
        if !same_text(order[i].as_str(), id) {
            let ghost before = out@;
            out.push(order[i].clone());
            assert(texts(out@) =~= texts(before).push(order@[i as int]@));
        }
        i += 1;
    }
    assert(all.take(i as int) =~= all);
    out
}

/// How many jobs that ended are too many.
fn too_many(order: &Vec<String>, jobs: &DashMap<String, JobStatus>) -> (r: usize)
    requires
        forall|i: int|
            0 <= i < order@.len() ==> jobs_in(*jobs).contains_key(#[trigger] texts(order@)[i]),
    ensures
        r == excess(texts(order@), jobs_in(*jobs)),
{
    let ghost all = texts(order@);
    let mut n: usize = 0;
    let mut i: usize = 0;
    assert(all.take(0) =~= Seq::empty());
    while i < order.len()
        invariant
            i <= order@.len(),
            all == texts(order@),
            forall|i: int| 0 <= i < order@.len() ==> jobs_in(*jobs).contains_key(#[trigger] all[i]),
            n == finished_count(all.take(i as int), jobs_in(*jobs)),
            n <= i,
        decreases order@.len() - i,
    {
        assert(all.take(i + 1).drop_last() =~= all.take(i as int));
        assert(all.take(i + 1).last() == all[i as int]);
        if let Some(j) = get_job(jobs, order[i].as_str()) {
            if j.stage.is_terminal() {
                n += 1;
            }
        }
        i += 1;
    }
    assert(all.take(i as int) =~= all);
    if n > JOB_HISTORY_LIMIT {
        n - JOB_HISTORY_LIMIT
    } else {
        0
    }
}

/// A list without repetitions, cut before and behind the item at `i`.
proof fn lemma_parts(s: Seq<Seq<char>>, i: int)
    requires
        0 <= i < s.len(),
        s.no_duplicates(),
    ensures
        forall|x: Seq<char>| #[trigger]
            s.skip(i).contains(x) <==> s.skip(i + 1).contains(x) || x == s[i],
        !s.take(i).contains(s[i]),
        !s.skip(i + 1).contains(s[i]),
        s.contains(s[i]),
{
    let rest = s.skip(i);
    let behind = s.skip(i + 1);
    assert forall|x: Seq<char>| #[trigger]
        rest.contains(x) <==> behind.contains(x) || x == s[i] by {
        if behind.contains(x) {
            let k = choose|k: int| 0 <= k < behind.len() && behind[k] == x;
            assert(rest[k + 1] == x);
        }
        if x == s[i] {
            assert(rest[0] == x);
        }
        if rest.contains(x) {
            let k = choose|k: int| 0 <= k < rest.len() && rest[k] == x;
            if k > 0 {
                assert(behind[k - 1] == x);
            }
        }
    }
    if s.take(i).contains(s[i]) {
        let k = choose|k: int| 0 <= k < i && s.take(i)[k] == s[i];
        assert(s[k] == s[i]);
    }
    if behind.contains(s[i]) {
        let k = choose|k: int| 0 <= k < behind.len() && behind[k] == s[i];
        assert(s[i + 1 + k] == s[i]);
    }
}

/// The state of the agent.
pub struct AppState {
    ws_hub: WsHub,
    running: usize,
    dependencies_ok: bool,
    dependencies_error: Option<String>,
    jobs: DashMap<String, JobStatus>,
    job_order: Vec<String>,
    logs: VecDeque<LogEntry>,
    update: Option<UpdateInfo>,
}

impl View for AppState {
    type V = AppView;

    closed spec fn view(&self) -> AppView {
        AppView {
            hub: self.ws_hub@,
            running: self.running,
            dependencies_ok: self.dependencies_ok,
            dependencies_error: opt_text(self.dependencies_error),
            jobs: jobs_in(self.jobs),
            order: texts(self.job_order@),
            logs: log_views(self.logs@),
            update: match self.update {
                Some(u) => Some(u@),
                None => None,
            },
        }
    }
}

impl AppState {
    /// Which channel each job has: a sender and its receivers share it.
    pub closed spec fn keys(&self) -> Map<Seq<char>, int> {
        self.ws_hub.keys()
    }

    /// The state is sound, and every job has a channel of its own.
    pub open spec fn wf(&self) -> bool {
        sound(self@) && apart(self@.hub, self.keys())
    }

    /// The state of an agent that starts.
    pub fn new() -> (r: AppState)
        ensures
            r.wf(),
            r@ == at_start(),
    {
        let r = AppState {
            ws_hub: WsHub::new(),
            running: 0,
            dependencies_ok: true,
            dependencies_error: None,
            jobs: new_jobs(),
            job_order: Vec::new(),
            logs: VecDeque::new(),
            update: None,
        };
        assert(r@ =~= at_start());
        r
    }

    /// Writes a line to the log at the time `now`; the oldest leave while there are too many.
    pub fn log_at(&mut self, now: u64, level: &'static str, text: String)
        requires
            sound(old(self)@),
        ensures
            sound(final(self)@),
            final(self)@ == logged(old(self)@, now, level@, text@),
            final(self).keys() == old(self).keys(),
    {
        let ghost line = LogView { at_ms: now, level: level@, text: text@ };
        self.logs.push_back(LogEntry { at_ms: now, level, text });
        assert(log_views(self.logs@) =~= old(self)@.logs.push(line));
        if self.logs.len() > LOG_BUFFER_LINES {
            let ghost before = self.logs@;
            let _ = self.logs.pop_front();
            assert(log_views(self.logs@) =~= log_views(before).subrange(1, before.len() as int));
        }
        assert(self@ =~= logged(old(self)@, now, level@, text@));
    }

    /// Writes a line to the log.
    pub fn log(&mut self, level: &'static str, text: String)
        requires
            sound(old(self)@),
        ensures
            sound(final(self)@),
            exists|now: u64| final(self)@ == #[trigger] logged(old(self)@, now, level@, text@),
            final(self).keys() == old(self).keys(),
    {
        let now = now_ms();
        self.log_at(now, level, text);
    }

    /// The lines of the log that are kept, from the oldest to the newest.
    pub fn recent_logs(&self) -> (r: Vec<LogEntry>)
        ensures
            log_views(r@) == self@.logs,
    {
        let mut out: Vec<LogEntry> = Vec::new();
        let mut i: usize = 0;
        while i < self.logs.len()
            invariant
                i <= self.logs@.len(),
                log_views(out@) == log_views(self.logs@).take(i as int),
            decreases self.logs@.len() - i,
        {
            let ghost before = out@;
            out.push(self.logs[i].copy());
            assert(log_views(out@) =~= log_views(before).push(self.logs@[i as int]@));
            i += 1;
        }
        assert(log_views(self.logs@).take(i as int) =~= log_views(self.logs@));
        out
    }

    /// Registers a new job, and drops the oldest of those that ended while there are too many
    /// of them. A live job never leaves the list, however long it takes.
    pub fn register_job(&mut self, status: JobStatus)
        requires
            sound(old(self)@),
        ensures
            sound(final(self)@),
            final(self)@ == registered(old(self)@, status@),
            final(self).keys() == old(self).keys(),
    {
        let job_id = status.job_id.clone();
        let ghost job = status@;
        let ghost jobs = old(self)@.jobs.insert(job.job_id, job);
        let ghost order = ids_except(old(self)@.order, job.job_id).push(job.job_id);
        proof {
            lemma_ids_except(old(self)@.order, job.job_id);
            lemma_pushed(ids_except(old(self)@.order, job.job_id), job.job_id);
        }
        insert_job(&mut self.jobs, job_id.clone(), status);
        let mut all = without_id(&self.job_order, job_id.as_str());
        let ghost before = all@;
        all.push(job_id);
        assert(texts(all@) =~= texts(before).push(job.job_id));
        proof {
            assert forall|id: Seq<char>| #[trigger]
                order.contains(id) <==> jobs.contains_key(id) by {
                assert(old(self)@.order.contains(id) <==> old(self)@.jobs.contains_key(id));
            }
            assert forall|i: int| 0 <= i < order.len() implies jobs.contains_key(
                #[trigger] order[i],
            ) by {
                assert(order.contains(order[i]));
            }
            assert(order.skip(0) =~= order);
        }
        let over = too_many(&all, &self.jobs);
        let mut kept: Vec<String> = Vec::new();
        let mut ended: usize = 0;
        let mut i: usize = 0;
        assert(order.take(0) =~= Seq::empty());
        assert(texts(kept@) =~= Seq::empty());
        while i < all.len()
            invariant
                i <= all@.len(),
                texts(all@) == order,
                order.no_duplicates(),
                forall|id: Seq<char>| #[trigger] order.contains(id) <==> jobs.contains_key(id),
                over == excess(order, jobs),
                ended == finished_count(order.take(i as int), jobs),
                ended <= i,
                texts(kept@) == without_oldest(order.take(i as int), jobs, over as nat),
                forall|id: Seq<char>| #[trigger]
                    jobs_in(self.jobs).contains_key(id) ==> jobs.contains_key(id) && jobs_in(
                        self.jobs,
                    )[id] == jobs[id],
                forall|id: Seq<char>| #[trigger]
                    jobs_in(self.jobs).contains_key(id) <==> texts(kept@).contains(id)
                        || order.skip(i as int).contains(id),
                self.ws_hub == old(self).ws_hub,
                self.running == old(self).running,
                self.dependencies_ok == old(self).dependencies_ok,
                self.dependencies_error == old(self).dependencies_error,
                self.logs == old(self).logs,
                self.update == old(self).update,
            decreases all@.len() - i,
        {
            let ghost id = order[i as int];
            let ghost rest = order.skip(i + 1);
            let ghost kept_before = texts(kept@);
            proof {
                assert(order.take(i + 1).drop_last() =~= order.take(i as int));
                assert(order.take(i + 1).last() == id);
                lemma_without_oldest(order.take(i as int), jobs, over as nat);
                lemma_parts(order, i as int);
            }
            let job = get_job(&self.jobs, all[i].as_str());
            let terminal = match &job {
                Some(j) => j.stage.is_terminal(),
                None => false,
            };
            if terminal && ended < over {
                let _ = remove_job(&mut self.jobs, all[i].as_str());
            } else {
                kept.push(all[i].clone());
                assert(texts(kept@) =~= kept_before.push(id));
                proof {
                    lemma_pushed(kept_before, id);
                }
            }
            if terminal {
                ended += 1;
            }
            i += 1;
        }
        assert(order.take(i as int) =~= order);
        assert(order.skip(i as int) =~= Seq::empty());
        self.job_order = kept;
        proof {
            lemma_without_oldest(order, jobs, over as nat);
            assert(self@.jobs =~= registered(old(self)@, job).jobs);
            assert(self@ =~= registered(old(self)@, job));
        }
    }

    /// Changes a job at the time `now`. A job that is not registered changes nothing.
    pub fn update_job_at(&mut self, now: u64, job_id: &str, change: JobChange)
        requires
            sound(old(self)@),
        ensures
            sound(final(self)@),
            final(self)@ == updated(old(self)@, job_id@, change@, now),
            final(self).keys() == old(self).keys(),
    {
        if let Some(job) = get_job(&self.jobs, job_id) {
            insert_job(&mut self.jobs, job_id.to_string(), apply(job, change, now));
        }
        assert(self@ =~= updated(old(self)@, job_id@, change@, now));
    }

    /// Changes a job.
    pub fn update_job(&mut self, job_id: &str, change: JobChange)
        requires
            sound(old(self)@),
        ensures
            sound(final(self)@),
            exists|now: u64|
                final(self)@ == #[trigger] updated(old(self)@, job_id@, change@, now),
            final(self).keys() == old(self).keys(),
    {
        let now = now_ms();
        self.update_job_at(now, job_id, change);
    }

    /// The jobs as the window lists them: the live ones first, the newest on top.
    pub fn job_snapshot(&self) -> (r: Vec<JobStatus>)
        requires
            sound(self@),
        ensures
            job_views(r@) == listed(self@),
    {
        let mut out: Vec<JobStatus> = Vec::new();
        self.push_jobs(&mut out, false);
        self.push_jobs(&mut out, true);
        assert(Seq::<JobView>::empty() + newest_first(self@.order, self@.jobs, false)
            =~= newest_first(self@.order, self@.jobs, false));
        out
    }

    /// Adds the jobs that ended, or those that did not, to `out`, from the newest to the oldest.
    fn push_jobs(&self, out: &mut Vec<JobStatus>, ended: bool)
        requires
            sound(self@),
        ensures
            job_views(final(out)@) == job_views(old(out)@) + newest_first(
                self@.order,
                self@.jobs,
                ended,
            ),
    {
        let ghost order = self@.order;
        let ghost jobs = self@.jobs;
        let ghost all = newest_first(order, jobs, ended);
        let ghost mut given: Seq<JobView> = Seq::empty();
        let mut i: usize = self.job_order.len();
        assert(order.take(i as int) =~= order);
        assert(given + newest_first(order, jobs, ended) =~= all);
        assert(job_views(out@) =~= job_views(old(out)@) + given);
        while i > 0
            invariant
                i <= self.job_order@.len(),
                sound(self@),
                order == self@.order,
                order == texts(self.job_order@),
                jobs == self@.jobs,
                jobs == jobs_in(self.jobs),
                job_views(out@) == job_views(old(out)@) + given,
                given + newest_first(order.take(i as int), jobs, ended) == all,
            decreases i,
        {
            i -= 1;
            let ghost id = order[i as int];
            proof {
                assert(order.take(i + 1).drop_last() =~= order.take(i as int));
                assert(order.take(i + 1).last() == id);
                assert(order.contains(id));
            }
            if let Some(job) = get_job(&self.jobs, self.job_order[i].as_str()) {
                if job.stage.is_terminal() == ended {
                    let ghost before = out@;
                    let ghost given_before = given;
                    out.push(job);
                    proof {
                        given = given.push(jobs[id]);
                        assert(job_views(out@) =~= job_views(before).push(jobs[id]));
                        assert(given + newest_first(order.take(i as int), jobs, ended)
                            =~= given_before + newest_first(order.take(i + 1), jobs, ended));
                        assert(job_views(out@) =~= job_views(old(out)@) + given);
                    }
                }
            }
        }
        assert(order.take(0) =~= Seq::empty());
        assert(given =~= all);
    }

    /// The last failure to tell support about.
    pub fn last_error(&self) -> (r: Option<String>)
        requires
            sound(self@),
        ensures
            opt_text(r) == failure_of(self@),
    {
        if let Some(deps) = &self.dependencies_error {
            let mut out = "Componentes: ".to_string();
            out.append(deps.as_str());
            return Some(out);
        }
        let ghost order = self@.order;
        let ghost jobs = self@.jobs;
        let mut i: usize = self.job_order.len();
        assert(order.take(i as int) =~= order);
        while i > 0
            invariant
                i <= self.job_order@.len(),
                sound(self@),
                order == self@.order,
                order == texts(self.job_order@),
                jobs == self@.jobs,
                jobs == jobs_in(self.jobs),
                self@.dependencies_error is None,
                newest_error(order, jobs) == newest_error(order.take(i as int), jobs),
            decreases i,
        {
            i -= 1;
            proof {
                assert(order.take(i + 1).drop_last() =~= order.take(i as int));
                assert(order.take(i + 1).last() == order[i as int]);
                assert(order.contains(order[i as int]));
            }
            if let Some(job) = get_job(&self.jobs, self.job_order[i].as_str()) {
                if let Some(err) = job.error {
                    let mut out = job.file_name;
                    out.append(" — ");
                    out.append(err.as_str());
                    return Some(out);
                }
            }
        }
        None
    }

    /// How many jobs have not ended.
    pub fn active_jobs(&self) -> (r: usize)
        requires
            sound(self@),
        ensures
            r == live_count(self@.order, self@.jobs),
    {
        let ghost order = self@.order;
        let ghost jobs = self@.jobs;
        let mut n: usize = 0;
        let mut i: usize = 0;
        assert(order.take(0) =~= Seq::empty());
        while i < self.job_order.len()
            invariant
                i <= self.job_order@.len(),
                sound(self@),
                order == self@.order,
                order == texts(self.job_order@),
                jobs == self@.jobs,
                jobs == jobs_in(self.jobs),
                n == live_count(order.take(i as int), jobs),
                n <= i,
            decreases self.job_order@.len() - i,
        {
            proof {
                assert(order.take(i + 1).drop_last() =~= order.take(i as int));
                assert(order.take(i + 1).last() == order[i as int]);
                assert(order.contains(order[i as int]));
            }
            if let Some(job) = get_job(&self.jobs, self.job_order[i].as_str()) {
                if !job.stage.is_terminal() {
                    n += 1;
                }
            }
            i += 1;
        }
        assert(order.take(i as int) =~= order);
        n
    }

    /// The stage that a job is at, where it is registered.
    pub fn stage_of(&self, job_id: &str) -> (r: Option<JobStage>)
        ensures
            r == (if self@.jobs.contains_key(job_id@) {
                Some(self@.jobs[job_id@].stage)
            } else {
                None
            }),
    {
        match get_job(&self.jobs, job_id) {
            Some(job) => Some(job.stage),
            None => None,
        }
    }

    /// Tells the pages that listen about a job.
    pub fn publish(&mut self, event: AgentEvent)
        requires
            old(self).wf(),
        ensures
            final(self).wf(),
            final(self)@ == (AppView { hub: published(old(self)@.hub, event@), ..old(self)@ }),
            channels_kept(old(self)@.hub, old(self).keys(), final(self).keys(), event@.job()),
    {
        self.ws_hub.publish(event);
        assert(self@ =~= (AppView { hub: published(old(self)@.hub, event@), ..old(self)@ }));
    }

    /// Listens to a job: the receiver of what is published from now on, and the last event that
    /// was published, where there was one.
    pub fn subscribe(&mut self, job_id: &str) -> (r: (
        broadcast::Receiver<AgentEvent>,
        Option<AgentEvent>,
    ))
        requires
            old(self).wf(),
        ensures
            final(self).wf(),
            final(self)@ == (AppView { hub: with_channel(old(self)@.hub, job_id@), ..old(self)@ }),
            crate::outside::receiver_key(r.0) == final(self).keys()[job_id@],
            crate::outside::receiver_start(r.0) == final(self)@.hub[job_id@].sent.len(),
            channels_kept(old(self)@.hub, old(self).keys(), final(self).keys(), job_id@),
            (match r.1 {
                Some(e) => Some(e@),
                None => None,
            }) == replayed(old(self)@.hub, job_id@),
    {
        let r = self.ws_hub.subscribe(job_id);
        assert(self@ =~= (AppView { hub: with_channel(old(self)@.hub, job_id@), ..old(self)@ }));
        r
    }

    /// Takes a job that the browser asked for: it counts as running, it is registered as queued,
    /// and the log says so. `file_name` is the last part of its path, where it has one.
    pub fn accept_job(&mut self, payload: &AgentTriggerPayload, file_name: Option<String>, now: u64)
        requires
            sound(old(self)@),
        ensures
            sound(final(self)@),
            final(self)@ == accepted(
                old(self)@,
                payload.job_id@,
                shown_name(payload.audio_file_path@, opt_text(file_name)),
                payload.model.name(),
                now,
            ),
            final(self).keys() == old(self).keys(),
    {
        self.running = self.running.wrapping_add(1);
        let ghost counted = AppView { running: old(self)@.running.wrapping_add(1), ..old(self)@ };
        assert(self@ =~= counted);
        let name = match file_name {
            Some(n) => n,
            None => payload.audio_file_path.clone(),
        };
        let job = JobStatus {
            job_id: payload.job_id.clone(),
            file_name: name.clone(),
            model: payload.model.as_str().to_string(),
            hardware: None,
            stage: JobStage::Queued,
            progress: 0,
            eta_seconds: None,
            audio_length: None,
            note: None,
            started_at_ms: now,
            engine_seen_at_ms: now,
            updated_at_ms: now,
            error: None,
            hint: None,
        };
        assert(job@ == queued_job(payload.job_id@, name@, payload.model.name(), now));
        self.register_job(job);
        let mut text = "Trabajo recibido: ".to_string();
        text.append(name.as_str());
        text.append(" (modelo ");
        text.append(payload.model.as_str());
        text.append(")");
        self.log_at(now, "info", text);
    }

    /// Notes that the pipeline of a job returned: it counts as running no longer, and whoever
    /// listens is told that its channel closed.
    pub fn finish_job(&mut self, job_id: &str)
        requires
            old(self).wf(),
        ensures
            final(self).wf(),
            final(self)@ == ended(old(self)@, job_id@),
            final(self).keys() == old(self).keys().remove(job_id@),
    {
        self.running = self.running.wrapping_sub(1);
        self.ws_hub.close(job_id);
        assert(self@ =~= ended(old(self)@, job_id@));
    }

    /// Notes whether the converter and the engine answered, with their versions or with what
    /// went wrong. Only what is confirmed not to work counts as broken.
    pub fn record_probe(
        &mut self,
        ffmpeg: Result<String, String>,
        whisper: Result<String, String>,
        now: u64,
    )
        requires
            sound(old(self)@),
        ensures
            sound(final(self)@),
            final(self)@ == probed(old(self)@, result_text(ffmpeg), result_text(whisper), now),
            final(self).keys() == old(self).keys(),
    {
        let mut problems: Vec<String> = Vec::new();
        let mut verified = "Componentes verificados — ffmpeg: ".to_string();
        match &ffmpeg {
            Ok(version) => {
                verified.append(version.as_str());
            },
            Err(err) => {
                let mut problem = "Conversor de audio (ffmpeg): ".to_string();
                problem.append(err.as_str());
                problems.push(problem);
            },
        }
        verified.append(" · motor: ");
        match &whisper {
            Ok(version) => {
                verified.append(version.as_str());
            },
            Err(err) => {
                let mut problem = "Motor de transcripción (whisper): ".to_string();
                problem.append(err.as_str());
                problems.push(problem);
            },
        }
        assert(texts(problems@) =~= problems_of(result_text(ffmpeg), result_text(whisper)));
        if problems.len() == 0 {
            self.log_at(now, "info", verified);
            self.dependencies_error = None;
            self.dependencies_ok = true;
        } else {
            let detail = joined(&problems, " · ");
            let mut text = "Componentes con problemas: ".to_string();
            text.append(detail.as_str());
            self.log_at(now, "error", text);
            self.dependencies_error = Some(detail);
            self.dependencies_ok = false;
        }
        assert(self@ =~= probed(old(self)@, result_text(ffmpeg), result_text(whisper), now));
    }

    /// Keeps what is known of the latest version, and says in the log that there is a newer one
    /// where there is. Returns whether there is.
    pub fn note_update(&mut self, info: UpdateInfo, now: u64) -> (r: bool)
        requires
            sound(old(self)@),
        ensures
            sound(final(self)@),
            final(self)@ == noted(old(self)@, info@, now),
            final(self).keys() == old(self).keys(),
            r == info.available,
    {
        let available = info.available;
        if available {
            let mut text = "Hay una versión nueva del agente: v".to_string();
            text.append(info.latest.as_str());
            text.append(" (tienes la v");
            text.append(info.current.as_str());
            text.append(").");
            self.log_at(now, "info", text);
        }
        self.update = Some(info);
        assert(self@ =~= noted(old(self)@, info@, now));
        available
    }

    /// How many pipelines have not returned.
    pub fn running(&self) -> (r: usize)
        ensures
            r == self@.running,
    {
        self.running
    }

    /// Whether the components work, as far as is known.
    pub fn dependencies_ok(&self) -> (r: bool)
        ensures
            r == self@.dependencies_ok,
    {
        self.dependencies_ok
    }

    /// Which component does not work, and why.
    pub fn dependencies_error(&self) -> (r: Option<String>)
        ensures
            opt_text(r) == self@.dependencies_error,
    {
        copy_opt(&self.dependencies_error)
    }

    /// What is known of newer versions.
    pub fn update(&self) -> (r: Option<UpdateInfo>)
        ensures
            (match r {
                Some(u) => Some(u@),
                None => None,
            }) == self@.update,
    {
        match &self.update {
            Some(u) => Some(u.copy()),
            None => None,
        }
    }
}

// ── Laws ────────────────────────────────────────────────────────────────────

/// Only the jobs that a list names matter to how many of them ended.
proof fn lemma_same_count(
    order: Seq<Seq<char>>,
    jobs: Map<Seq<char>, JobView>,
    other: Map<Seq<char>, JobView>,
)
    requires
        forall|id: Seq<char>| #[trigger] order.contains(id) ==> jobs[id] == other[id],
    ensures
        finished_count(order, jobs) == finished_count(order, other),
        live_count(order, jobs) == live_count(order, other),
    decreases order.len(),
{
    if order.len() != 0 {
        lemma_last(order);
        assert(order.contains(order.last()));
        assert forall|id: Seq<char>| #[trigger] order.drop_last().contains(id) implies jobs[id]
            == other[id] by {
            assert(order.contains(id));
        }
        lemma_same_count(order.drop_last(), jobs, other);
    }
}

/// A live job never leaves the list, however old it is and whatever is registered after it.
pub proof fn live_jobs_stay(v: AppView, job: JobView, id: Seq<char>)
    requires
        sound(v),
        v.jobs.contains_key(id),
        !v.jobs[id].stage.terminal(),
        id != job.job_id,
    ensures
        registered(v, job).jobs.contains_key(id),
        registered(v, job).jobs[id] == v.jobs[id],
{
    let jobs = v.jobs.insert(job.job_id, job);
    let order = ids_except(v.order, job.job_id).push(job.job_id);
    lemma_ids_except(v.order, job.job_id);
    lemma_pushed(ids_except(v.order, job.job_id), job.job_id);
    lemma_without_oldest(order, jobs, excess(order, jobs));
    assert(v.order.contains(id));
    assert(order.contains(id));
}

/// The job that is registered is the newest of the list, and the list stays sound.
pub proof fn new_job_is_listed(v: AppView, job: JobView)
    requires
        sound(v),
    ensures
        sound(registered(v, job)),
        registered(v, job).order.len() != 0,
        registered(v, job).order.last() == job.job_id,
        registered(v, job).jobs.contains_key(job.job_id),
        registered(v, job).jobs[job.job_id] == job,
{
    let jobs = v.jobs.insert(job.job_id, job);
    let order = ids_except(v.order, job.job_id).push(job.job_id);
    let kept = without_oldest(order, jobs, excess(order, jobs));
    lemma_ids_except(v.order, job.job_id);
    lemma_pushed(ids_except(v.order, job.job_id), job.job_id);
    lemma_without_oldest(order, jobs, excess(order, jobs));
    assert(order.drop_last() =~= ids_except(v.order, job.job_id));
    assert(kept.contains(kept.last()));
    let r = registered(v, job);
    assert forall|id: Seq<char>| #[trigger] r.order.contains(id) <==> r.jobs.contains_key(id) by {
        assert(v.order.contains(id) <==> v.jobs.contains_key(id));
    }
    assert forall|id: Seq<char>| #[trigger] r.jobs.contains_key(id) implies r.jobs[id].job_id
        == id by {
        assert(v.order.contains(id) <==> v.jobs.contains_key(id));
    }
}

/// Of the jobs that ended no more than the limit are listed once a job has been registered.
pub proof fn history_is_bounded(v: AppView, job: JobView)
    requires
        sound(v),
    ensures
        finished_count(registered(v, job).order, registered(v, job).jobs) <= JOB_HISTORY_LIMIT,
{
    let jobs = v.jobs.insert(job.job_id, job);
    let order = ids_except(v.order, job.job_id).push(job.job_id);
    let n = excess(order, jobs);
    let kept = without_oldest(order, jobs, n);
    lemma_without_oldest(order, jobs, n);
    lemma_ids_except(v.order, job.job_id);
    lemma_pushed(ids_except(v.order, job.job_id), job.job_id);
    assert forall|id: Seq<char>| #[trigger] kept.contains(id) implies jobs[id] == registered(
        v,
        job,
    ).jobs[id] by {
        assert(order.contains(id));
        assert(v.order.contains(id) <==> v.jobs.contains_key(id));
    }
    lemma_same_count(kept, jobs, registered(v, job).jobs);
}

/// The jobs that ended and those that did not are all of them.
proof fn lemma_newest_first(order: Seq<Seq<char>>, jobs: Map<Seq<char>, JobView>)
    ensures
        newest_first(order, jobs, false).len() == live_count(order, jobs),
        newest_first(order, jobs, true).len() == finished_count(order, jobs),
        live_count(order, jobs) + finished_count(order, jobs) == order.len(),
        forall|id: Seq<char>|
            #![trigger order.contains(id)]
            order.contains(id) ==> newest_first(
                order,
                jobs,
                jobs[id].stage.terminal(),
            ).contains(jobs[id]),
        forall|i: int|
            0 <= i < newest_first(order, jobs, false).len() ==> !(#[trigger] newest_first(
                order,
                jobs,
                false,
            )[i]).stage.terminal(),
        forall|i: int|
            0 <= i < newest_first(order, jobs, true).len() ==> (#[trigger] newest_first(
                order,
                jobs,
                true,
            )[i]).stage.terminal(),
    decreases order.len(),
{
    if order.len() != 0 {
        let front = order.drop_last();
        let last = jobs[order.last()];
        lemma_newest_first(front, jobs);
        lemma_last(order);
        assert forall|id: Seq<char>|
            #![trigger order.contains(id)]
            order.contains(id) implies newest_first(
            order,
            jobs,
            jobs[id].stage.terminal(),
        ).contains(jobs[id]) by {
            let ended = jobs[id].stage.terminal();
            let all = newest_first(order, jobs, ended);
            let rest = newest_first(front, jobs, ended);
            if id == order.last() {
                assert(all[0] == jobs[id]);
            } else {
                assert(front.contains(id));
                let i = choose|i: int| 0 <= i < rest.len() && rest[i] == jobs[id];
                if last.stage.terminal() == ended {
                    assert(all[i + 1] == jobs[id]);
                } else {
                    assert(all[i] == jobs[id]);
                }
            }
        }
    }
}

/// The window lists every job, no more of them than there are, and no job that ended above one
/// that did not.
pub proof fn every_job_is_listed(v: AppView, id: Seq<char>)
    requires
        sound(v),
    ensures
        listed(v).len() == v.order.len(),
        v.jobs.contains_key(id) ==> listed(v).contains(v.jobs[id]),
        forall|i: int, k: int|
            0 <= i < k < listed(v).len() && (#[trigger] listed(v)[i]).stage.terminal() ==> (
            #[trigger] listed(v)[k]).stage.terminal(),
{
    lemma_newest_first(v.order, v.jobs);
    let live = newest_first(v.order, v.jobs, false);
    let ended = newest_first(v.order, v.jobs, true);
    if v.jobs.contains_key(id) {
        assert(v.order.contains(id));
        if v.jobs[id].stage.terminal() {
            let i = choose|i: int| 0 <= i < ended.len() && ended[i] == v.jobs[id];
            assert(listed(v)[live.len() + i] == v.jobs[id]);
        } else {
            let i = choose|i: int| 0 <= i < live.len() && live[i] == v.jobs[id];
            assert(listed(v)[i] == v.jobs[id]);
        }
    }
    assert forall|i: int, k: int|
        0 <= i < k < listed(v).len() && (#[trigger] listed(v)[i]).stage.terminal() implies (
    #[trigger] listed(v)[k]).stage.terminal() by {
        if i < live.len() {
            assert(listed(v)[i] == live[i]);
        }
        assert(listed(v)[k] == ended[k - live.len()]);
    }
}

/// A change of one job is dated, and leaves the other jobs, the order and the log as they were.
pub proof fn a_change_touches_one_job(
    v: AppView,
    job_id: Seq<char>,
    change: ChangeView,
    now: u64,
    other: Seq<char>,
)
    requires
        sound(v),
    ensures
        sound(updated(v, job_id, change, now)),
        updated(v, job_id, change, now).order == v.order,
        updated(v, job_id, change, now).logs == v.logs,
        v.jobs.contains_key(job_id) ==> updated(v, job_id, change, now).jobs[job_id].updated_at_ms
            == now,
        other != job_id && v.jobs.contains_key(other) ==> updated(
            v,
            job_id,
            change,
            now,
        ).jobs[other] == v.jobs[other],
{
    let w = updated(v, job_id, change, now);
    assert forall|id: Seq<char>| #[trigger] w.order.contains(id) <==> w.jobs.contains_key(id) by {
        assert(v.order.contains(id) <==> v.jobs.contains_key(id));
    }
}

/// The newest line is always in the log, and the log is never longer than it may be.
pub proof fn newest_line_is_kept(v: AppView, now: u64, level: Seq<char>, text: Seq<char>)
    ensures
        logged(v, now, level, text).logs.last() == (LogView { at_ms: now, level, text }),
        0 < logged(v, now, level, text).logs.len() <= LOG_BUFFER_LINES,
{
}

/// A job that is accepted counts as running, is listed as queued, and counts no longer once its
/// pipeline has returned.
pub proof fn accepted_jobs_are_counted(
    v: AppView,
    job_id: Seq<char>,
    file_name: Seq<char>,
    model: Seq<char>,
    now: u64,
)
    requires
        sound(v),
    ensures
        accepted(v, job_id, file_name, model, now).jobs.contains_key(job_id),
        accepted(v, job_id, file_name, model, now).jobs[job_id].stage == JobStage::Queued,
        v.running < usize::MAX ==> accepted(v, job_id, file_name, model, now).running == v.running
            + 1,
        ended(accepted(v, job_id, file_name, model, now), job_id).running == v.running,
        live_count(
            accepted(v, job_id, file_name, model, now).order,
            accepted(v, job_id, file_name, model, now).jobs,
        ) > 0,
{
    new_job_is_listed(
        AppView { running: v.running.wrapping_add(1), ..v },
        queued_job(job_id, file_name, model, now),
    );
}

/// An agent that starts knows of no job, no line and no version, and counts as healthy.
pub proof fn an_agent_starts_with_nothing()
    ensures
        at_start().hub.dom() == Set::<Seq<char>>::empty(),
        at_start().jobs.dom() == Set::<Seq<char>>::empty(),
        at_start().order.len() == 0,
        at_start().logs.len() == 0,
        at_start().running == 0,
        at_start().dependencies_ok,
        at_start().dependencies_error is None,
        at_start().update is None,
{
    assert(at_start().hub.dom() =~= Set::<Seq<char>>::empty());
    assert(at_start().jobs.dom() =~= Set::<Seq<char>>::empty());
}

/// A line is written behind those before it, which keep their order; where there are too many,
/// the oldest leaves, and no other. Nothing but the log changes.
pub proof fn lines_are_kept_in_order(v: AppView, now: u64, level: Seq<char>, text: Seq<char>, i: int)
    requires
        sound(v),
    ensures
        ({
            let w = logged(v, now, level, text);
            let n = v.logs.len() as int;
            let gone: int = if n < 300 {
                0
            } else {
                1
            };
            &&& w.logs.len() == n + 1 - gone
            &&& gone <= i < n ==> w.logs[i - gone] == v.logs[i]
            &&& w.logs.last().at_ms == now
            &&& w.logs.last().level == level
            &&& w.logs.last().text == text
            &&& w.jobs == v.jobs
            &&& w.order == v.order
            &&& w.hub == v.hub
            &&& w.running == v.running
            &&& w.dependencies_ok == v.dependencies_ok
            &&& w.dependencies_error == v.dependencies_error
            &&& w.update == v.update
        }),
{
}

/// A list loses an id and keeps all the others, in their order.
pub proof fn one_id_leaves_a_list(a: Seq<Seq<char>>, b: Seq<Seq<char>>, id: Seq<char>, x: Seq<char>)
    ensures
        ids_except(a + b, id) == ids_except(a, id) + ids_except(b, id),
        ids_except(seq![x], id) == (if x == id {
            Seq::empty()
        } else {
            seq![x]
        }),
    decreases b.len(),
{
    reveal_with_fuel(ids_except, 2);
    assert(seq![x].drop_last() =~= Seq::empty());
    assert(ids_except(seq![x], id) =~= (if x == id {
        Seq::empty()
    } else {
        seq![x]
    }));
    if b.len() == 0 {
        assert(a + b =~= a);
        assert(ids_except(a, id) + ids_except(b, id) =~= ids_except(a, id));
    } else {
        assert((a + b).drop_last() =~= a + b.drop_last());
        one_id_leaves_a_list(a, b.drop_last(), id, x);
        assert(ids_except(a + b, id) =~= ids_except(a, id) + ids_except(b, id));
    }
}

/// Jobs are counted one by one, as ended or as not.
pub proof fn jobs_are_counted_one_by_one(
    a: Seq<Seq<char>>,
    x: Seq<char>,
    jobs: Map<Seq<char>, JobView>,
)
    ensures
        finished_count(Seq::empty(), jobs) == 0,
        live_count(Seq::empty(), jobs) == 0,
        finished_count(a.push(x), jobs) == finished_count(a, jobs) + (
        if jobs[x].stage == JobStage::Completed || jobs[x].stage == JobStage::Failed {
            1int
        } else {
            0
        }),
        live_count(a.push(x), jobs) == live_count(a, jobs) + (
        if jobs[x].stage == JobStage::Completed || jobs[x].stage == JobStage::Failed {
            0int
        } else {
            1
        }),
{
    assert(a.push(x).drop_last() =~= a);
}

/// Where some that ended have to leave, the first of them do, and the others keep their places.
pub proof fn the_oldest_leave_first(
    first: Seq<char>,
    rest: Seq<Seq<char>>,
    jobs: Map<Seq<char>, JobView>,
    n: nat,
)
    ensures
        without_oldest(Seq::empty(), jobs, n) == Seq::<Seq<char>>::empty(),
        without_oldest(seq![first] + rest, jobs, n) == (if !jobs[first].stage.terminal() {
            seq![first] + without_oldest(rest, jobs, n)
        } else if n == 0 {
            seq![first] + rest
        } else {
            without_oldest(rest, jobs, (n - 1) as nat)
        }),
    decreases rest.len(),
{
    let all = seq![first] + rest;
    if rest.len() == 0 {
        assert(all.drop_last() =~= Seq::empty());
        assert(all.last() == first);
        reveal_with_fuel(without_oldest, 2);
        assert(without_oldest(all, jobs, n) =~= (if !jobs[first].stage.terminal() {
            seq![first] + without_oldest(rest, jobs, n)
        } else if n == 0 {
            seq![first] + rest
        } else {
            without_oldest(rest, jobs, (n - 1) as nat)
        }));
    } else {
        let front = rest.drop_last();
        assert(all.drop_last() =~= seq![first] + front);
        assert(all.last() == rest.last());
        the_oldest_leave_first(first, front, jobs, n);
        lemma_finished_front(first, front, jobs);
        if !jobs[first].stage.terminal() {
            assert(without_oldest(all, jobs, n) =~= seq![first] + without_oldest(rest, jobs, n));
        } else if n == 0 {
            assert(without_oldest(all, jobs, n) =~= seq![first] + rest);
        }
    }
}

proof fn lemma_finished_front(
    first: Seq<char>,
    rest: Seq<Seq<char>>,
    jobs: Map<Seq<char>, JobView>,
)
    ensures
        finished_count(seq![first] + rest, jobs) == finished_count(rest, jobs) + (
        if jobs[first].stage.terminal() {
            1int
        } else {
            0
        }),
    decreases rest.len(),
{
    let all = seq![first] + rest;
    if rest.len() == 0 {
        assert(all.drop_last() =~= Seq::empty());
        reveal_with_fuel(finished_count, 2);
    } else {
        assert(all.drop_last() =~= seq![first] + rest.drop_last());
        lemma_finished_front(first, rest.drop_last(), jobs);
    }
}

/// A job that is registered is the newest; the others keep their order and what is known of them.
/// As many of those that ended leave as there are above eight, the oldest first.
pub proof fn a_registered_job_is_the_newest(v: AppView, job: JobView, other: Seq<char>)
    requires
        sound(v),
    ensures
        ({
            let w = registered(v, job);
            let jobs = v.jobs.insert(job.job_id, job);
            let order = ids_except(v.order, job.job_id).push(job.job_id);
            let ended = finished_count(order, jobs);
            &&& ended <= 8 ==> w.order == order
            &&& ended > 8 ==> w.order == without_oldest(order, jobs, (ended - 8) as nat)
            &&& w.jobs.contains_key(other) ==> w.order.contains(other)
            &&& w.jobs.contains_key(other) && other != job.job_id ==> v.jobs.contains_key(other)
                && w.jobs[other] == v.jobs[other]
            &&& w.jobs.contains_key(job.job_id) ==> w.jobs[job.job_id] == job
            &&& w.logs == v.logs
            &&& w.hub == v.hub
            &&& w.running == v.running
            &&& w.dependencies_ok == v.dependencies_ok
            &&& w.dependencies_error == v.dependencies_error
            &&& w.update == v.update
        }),
{
    let jobs = v.jobs.insert(job.job_id, job);
    let order = ids_except(v.order, job.job_id).push(job.job_id);
    lemma_none_leave(order, jobs);
    let w = registered(v, job);
    if w.jobs.contains_key(other) {
        assert(w.order.to_set().contains(other));
    }
}

proof fn lemma_none_leave(order: Seq<Seq<char>>, jobs: Map<Seq<char>, JobView>)
    ensures
        without_oldest(order, jobs, 0) == order,
    decreases order.len(),
{
    if order.len() > 0 {
        lemma_none_leave(order.drop_last(), jobs);
        assert(order.drop_last().push(order.last()) =~= order);
    }
}

/// The window lists the live jobs before those that ended, and of each kind the newer before the
/// older: a job that comes after the others in the order goes on top of its kind.
pub proof fn newer_jobs_are_listed_higher(v: AppView, a: Seq<Seq<char>>, x: Seq<char>, ended: bool)
    ensures
        listed(v) == newest_first(v.order, v.jobs, false) + newest_first(v.order, v.jobs, true),
        newest_first(Seq::empty(), v.jobs, ended) == Seq::<JobView>::empty(),
        newest_first(a.push(x), v.jobs, ended) == (if v.jobs[x].stage.terminal() == ended {
            seq![v.jobs[x]] + newest_first(a, v.jobs, ended)
        } else {
            newest_first(a, v.jobs, ended)
        }),
{
    assert(a.push(x).drop_last() =~= a);
}

/// Support is told of a component that does not work; where all do, of the newest job that has an
/// error, by its file and by the error; and of nothing where there is none.
pub proof fn the_newest_error_is_told(v: AppView, a: Seq<Seq<char>>, x: Seq<char>)
    ensures
        v.dependencies_error matches Some(e) ==> failure_of(v) == Some("Componentes: "@ + e),
        v.dependencies_error is None ==> failure_of(v) == newest_error(v.order, v.jobs),
        newest_error(Seq::empty(), v.jobs) is None,
        v.jobs[x].error matches Some(e) ==> newest_error(a.push(x), v.jobs) == Some(
            v.jobs[x].file_name + " — "@ + e,
        ),
        v.jobs[x].error is None ==> newest_error(a.push(x), v.jobs) == newest_error(a, v.jobs),
{
    assert(a.push(x).drop_last() =~= a);
}

/// A job that has just been accepted is known by what it came with, and nothing has happened to it
/// yet. The log says which file came and which model will hear it.
pub proof fn an_accepted_job_is_as_it_came(
    v: AppView,
    job_id: Seq<char>,
    file_name: Seq<char>,
    model: Seq<char>,
    now: u64,
    path: Seq<char>,
)
    requires
        sound(v),
    ensures
        ({
            let w = accepted(v, job_id, file_name, model, now);
            let job = w.jobs[job_id];
            &&& job.job_id == job_id
            &&& job.file_name == file_name
            &&& job.model == model
            &&& job.hardware is None
            &&& job.stage == JobStage::Queued
            &&& job.progress == 0
            &&& job.eta_seconds is None
            &&& job.audio_length is None
            &&& job.note is None
            &&& job.started_at_ms == now
            &&& job.engine_seen_at_ms == now
            &&& job.updated_at_ms == now
            &&& job.error is None
            &&& job.hint is None
            &&& w.order.last() == job_id
            &&& w.logs.last().at_ms == now
            &&& w.logs.last().level == "info"@
            &&& w.logs.last().text == "Trabajo recibido: "@ + file_name + " (modelo "@ + model
                + ")"@
            &&& w.hub == v.hub
            &&& w.dependencies_ok == v.dependencies_ok
            &&& w.dependencies_error == v.dependencies_error
            &&& w.update == v.update
        }),
        shown_name(path, Some(file_name)) == file_name,
        shown_name(path, None) == path,
{
    let job = queued_job(job_id, file_name, model, now);
    let u = AppView { running: v.running.wrapping_add(1), ..v };
    new_job_is_listed(u, job);
    a_registered_job_is_the_newest(u, job, job_id);
    let jobs = u.jobs.insert(job_id, job);
    let order = ids_except(u.order, job_id).push(job_id);
    assert(jobs[job_id] == job);
    assert(without_oldest(order, jobs, excess(order, jobs)).last() == job_id);
}

/// What each change does to a job, and what it leaves. Who it is, what it came with and when it
/// began never change, and every change is dated.
pub proof fn a_change_does_what_it_says(job: JobView, change: ChangeView, now: u64)
    ensures
        ({
            let new = changed(job, change, now);
            &&& new.job_id == job.job_id
            &&& new.file_name == job.file_name
            &&& new.model == job.model
            &&& new.started_at_ms == job.started_at_ms
            &&& new.updated_at_ms == now
            &&& new.engine_seen_at_ms == (if change is Progress {
                now
            } else {
                job.engine_seen_at_ms
            })
            &&& !(change is Prepared) ==> new.hardware == job.hardware && new.audio_length
                == job.audio_length
            &&& !(change is Failed) && !(change is Completed) ==> new.error == job.error
            &&& !(change is Failed) && !(change is Completed) && !(change is UploadPending)
                ==> new.hint == job.hint
            &&& match change {
                ChangeView::Stage(stage) => new.stage == stage && new.progress == job.progress
                    && new.eta_seconds == job.eta_seconds && new.note == job.note,
                ChangeView::Prepared { hardware, audio_length } => new.hardware == Some(hardware)
                    && new.audio_length == audio_length && new.stage == job.stage && new.progress
                    == job.progress && new.eta_seconds == job.eta_seconds && new.note == job.note,
                ChangeView::Progress { progress, eta_seconds, note } => new.progress == progress
                    && new.eta_seconds == eta_seconds && new.note == note && new.stage == job.stage,
                ChangeView::Heartbeat { eta_seconds, note } => new.progress == job.progress
                    && new.eta_seconds == eta_seconds && new.note == note && new.stage == job.stage,
                ChangeView::Diarizing => new.stage == JobStage::Diarizing && new.progress
                    == job.progress && new.eta_seconds == job.eta_seconds && new.note == Some(
                    DIARIZING_NOTE@,
                ),
                ChangeView::Uploading => new.stage == JobStage::Uploading && new.progress == 100
                    && new.eta_seconds is None && new.note is None,
                ChangeView::Completed => new.stage == JobStage::Completed && new.progress == 100
                    && new.eta_seconds is None && new.note is None && new.error is None
                    && new.hint is None,
                ChangeView::UploadPending => new.stage == JobStage::UploadPending && new.progress
                    == 100 && new.eta_seconds is None && new.note is None && new.hint == Some(
                    PENDING_HINT@,
                ),
                ChangeView::Failed { error, hint } => new.stage == JobStage::Failed && new.progress
                    == job.progress && new.eta_seconds is None && new.note is None && new.error
                    == Some(error) && new.hint == Some(hint),
            }
        }),
{
}

/// A change of a job that is registered is a change of that job; one of another job is none.
/// Nothing else changes.
pub proof fn only_registered_jobs_change(
    v: AppView,
    job_id: Seq<char>,
    change: ChangeView,
    now: u64,
)
    ensures
        ({
            let w = updated(v, job_id, change, now);
            &&& !v.jobs.contains_key(job_id) ==> w == v
            &&& v.jobs.contains_key(job_id) ==> w.jobs[job_id] == changed(
                v.jobs[job_id],
                change,
                now,
            )
            &&& w.hub == v.hub
            &&& w.running == v.running
            &&& w.dependencies_ok == v.dependencies_ok
            &&& w.dependencies_error == v.dependencies_error
            &&& w.update == v.update
        }),
{
}

/// A change is seen as what it is, with all that it holds.
pub proof fn changes_are_seen_as_they_are(c: JobChange)
    ensures
        match c {
            JobChange::Stage(stage) => c@ == ChangeView::Stage(stage),
            JobChange::Prepared { hardware, audio_length } => c@ == (ChangeView::Prepared {
                hardware: hardware@,
                audio_length,
            }),
            JobChange::Progress { progress, eta_seconds, note } => c@ == (ChangeView::Progress {
                progress,
                eta_seconds,
                note: opt_text(note),
            }),
            JobChange::Heartbeat { eta_seconds, note } => c@ == (ChangeView::Heartbeat {
                eta_seconds,
                note: opt_text(note),
            }),
            JobChange::Diarizing => c@ is Diarizing,
            JobChange::Uploading => c@ is Uploading,
            JobChange::Completed => c@ is Completed,
            JobChange::UploadPending => c@ is UploadPending,
            JobChange::Failed { error, hint } => c@ == (ChangeView::Failed {
                error: error@,
                hint: hint@,
            }),
        },
{
}

/// Once the pipeline of a job has returned, its channel is gone and one less runs. The other jobs
/// keep their channels, and the window keeps the job.
pub proof fn an_ended_pipeline_closes_its_channel(v: AppView, job_id: Seq<char>, other: Seq<char>)
    ensures
        ({
            let w = ended(v, job_id);
            &&& !w.hub.contains_key(job_id)
            &&& other != job_id ==> (w.hub.contains_key(other) <==> v.hub.contains_key(other))
            &&& other != job_id && v.hub.contains_key(other) ==> w.hub[other] == v.hub[other]
            &&& v.running > 0 ==> w.running == v.running - 1
            &&& w.jobs == v.jobs
            &&& w.order == v.order
            &&& w.logs == v.logs
            &&& w.dependencies_ok == v.dependencies_ok
            &&& w.dependencies_error == v.dependencies_error
            &&& w.update == v.update
        }),
{
}

/// The components are healthy where both answered, and the log says with which versions. Where one
/// did not, or both, it says which and why, and so does what the agent knows.
pub proof fn broken_components_are_named(
    v: AppView,
    f: Seq<char>,
    w: Seq<char>,
    now: u64,
)
    ensures
        ({
            let good = probed(v, Ok(f), Ok(w), now);
            &&& good.dependencies_ok
            &&& good.dependencies_error is None
            &&& good.logs.last().level == "info"@
            &&& good.logs.last().text == "Componentes verificados — ffmpeg: "@ + f + " · motor: "@
                + w
        }),
        ({
            let ffmpeg = "Conversor de audio (ffmpeg): "@ + f;
            let whisper = "Motor de transcripción (whisper): "@ + w;
            let bad = |u: AppView, detail: Seq<char>|
                {
                    &&& !u.dependencies_ok
                    &&& u.dependencies_error == Some(detail)
                    &&& u.logs.last().level == "error"@
                    &&& u.logs.last().at_ms == now
                    &&& u.logs.last().text == "Componentes con problemas: "@ + detail
                    &&& u.jobs == v.jobs
                    &&& u.hub == v.hub
                };
            &&& bad(probed(v, Err(f), Ok(w), now), ffmpeg)
            &&& bad(probed(v, Ok(f), Err(w), now), whisper)
            &&& bad(probed(v, Err(f), Err(w), now), ffmpeg + " · "@ + whisper)
        }),
{
    let ffmpeg = "Conversor de audio (ffmpeg): "@ + f;
    let whisper = "Motor de transcripción (whisper): "@ + w;
    let ok_f: Result<Seq<char>, Seq<char>> = Ok(f);
    let ok_w: Result<Seq<char>, Seq<char>> = Ok(w);
    let err_f: Result<Seq<char>, Seq<char>> = Err(f);
    let err_w: Result<Seq<char>, Seq<char>> = Err(w);
    assert(problems_of(err_f, ok_w) =~= seq![ffmpeg]);
    assert(problems_of(ok_f, err_w) =~= seq![whisper]);
    assert(problems_of(err_f, err_w) =~= seq![ffmpeg, whisper]);
    crate::text::joined_texts_keep_their_order(seq![ffmpeg], seq![whisper], ffmpeg, " · "@);
    crate::text::joined_texts_keep_their_order(seq![ffmpeg], seq![whisper], whisper, " · "@);
    assert(seq![ffmpeg] + seq![whisper] =~= seq![ffmpeg, whisper]);
}

/// What is known of the latest version is kept as it is, and the log names it where it is newer.
pub proof fn a_newer_version_is_told(v: AppView, info: UpdateView, now: u64)
    ensures
        ({
            let w = noted(v, info, now);
            &&& w.update == Some(info)
            &&& info.available ==> w.logs.len() > 0 && w.logs.last().level == "info"@
                && w.logs.last().at_ms == now && w.logs.last().text
                == "Hay una versión nueva del agente: v"@ + info.latest + " (tienes la v"@
                + info.current + ")."@
            &&& !info.available ==> w.logs == v.logs
            &&& w.jobs == v.jobs
            &&& w.order == v.order
            &&& w.hub == v.hub
            &&& w.running == v.running
        }),
{
}

/// A list of jobs is seen in its order, and a result as what it is.
pub proof fn lists_of_jobs_are_seen_as_they_are(
    s: Seq<JobStatus>,
    i: int,
    r: Result<String, String>,
)
    ensures
        job_views(s).len() == s.len(),
        0 <= i < s.len() ==> job_views(s)[i] == s[i]@,
        r matches Ok(x) ==> result_text(r) == Ok::<Seq<char>, Seq<char>>(x@),
        r matches Err(x) ==> result_text(r) == Err::<Seq<char>, Seq<char>>(x@),
{
}

} // verus!
