//! Transcripts that could not be uploaded yet.
//!
//! Only the upload needs a connection. Where it fails, the transcript is written to disk with
//! all that it takes to upload it later, one file for each job.
use crate::amautum::{AmautumError, TranscriptResponse};
use crate::state::{live_count, sound, updated, AppState, AppView, ChangeView, JobChange};
use crate::text::{
    ascii_alphanumeric, chars_of, ends_with, is_ascii_alphanumeric, strip_suffix, texts,
};
use crate::types::{AgentEvent, EventView, JobStage, JobView, TranscriptUpload, TranscriptView};
use crate::ws_hub::{channels_kept, published};
use vstd::prelude::*;
use vstd::string::*;

verus! {

/// A transcript that could not be uploaded yet, with all that it takes to upload it.
#[derive(Debug)]
pub struct PendingUpload {
    pub job_id: String,
    /// Where it has to be sent.
    pub transcript_callback: String,
    /// What proves that it may be.
    pub token: String,
    pub upload: TranscriptUpload,
    /// When it was written to disk, in seconds since the Unix epoch.
    pub saved_at: u64,
}

/// A transcript that could not be uploaded yet, by its texts.
#[verifier::ext_equal]
pub struct PendingView {
    pub job_id: Seq<char>,
    pub transcript_callback: Seq<char>,
    pub token: Seq<char>,
    pub upload: TranscriptView,
    pub saved_at: u64,
}

impl View for PendingUpload {
    type V = PendingView;

    open spec fn view(&self) -> PendingView {
        PendingView {
            job_id: self.job_id@,
            transcript_callback: self.transcript_callback@,
            token: self.token@,
            upload: self.upload@,
            saved_at: self.saved_at,
        }
    }
}

/// A transcript as it is written to disk: dated, and otherwise as it is.
pub fn stamped(pending: PendingUpload, now_secs: u64) -> (r: PendingUpload)
    ensures
        r@ == (PendingView { saved_at: now_secs, ..pending@ }),
{
    let mut r = pending;
    r.saved_at = now_secs;
    r
}

// ── Files ───────────────────────────────────────────────────────────────────

/// A character that the name of a file may hold: none that could lead out of the folder.
pub open spec fn safe_char(c: char) -> bool {
    ascii_alphanumeric(c) || c == '-' || c == '_'
}

/// The safe characters of `s`.
pub open spec fn safe_chars(s: Seq<char>) -> Seq<char>
    decreases s.len(),
{
    if s.len() == 0 {
        Seq::empty()
    } else if safe_char(s.last()) {
        safe_chars(s.drop_last()).push(s.last())
    } else {
        safe_chars(s.drop_last())
    }
}

/// The name of the file that the transcript of a job is written to.
pub open spec fn file_of(job_id: Seq<char>) -> Seq<char> {
    safe_chars(job_id) + ".json"@
}

/// The name of the file that the transcript of a job is written to.
pub fn job_file(job_id: &str) -> (r: String)
    ensures
        r@ == file_of(job_id@),
{
    let v = chars_of(job_id);
    let mut out = String::new();
    let mut i: usize = 0;
    assert(out@ =~= safe_chars(v@.take(0)));
    while i < v.len()
        invariant
            i <= v@.len(),
            v@ == job_id@,
            out@ == safe_chars(v@.take(i as int)),
        decreases v@.len() - i,
    {
        assert(v@.take(i + 1).drop_last() =~= v@.take(i as int));
        if is_ascii_alphanumeric(v[i]) || v[i] == '-' || v[i] == '_' {
            out.push(v[i]);
        }
        i += 1;
    }
    assert(v@.take(i as int) =~= v@);
    out.append(".json");
    out
}

/// The job whose transcript a file holds, by the name of the file.
pub open spec fn job_in(name: Seq<char>) -> Option<Seq<char>> {
    if ends_with(name, ".json"@) {
        Some(name.take(name.len() - ".json"@.len()))
    } else {
        None
    }
}

/// The jobs whose transcripts the files `names` hold.
pub open spec fn jobs_of(names: Seq<Seq<char>>) -> Seq<Seq<char>>
    decreases names.len(),
{
    if names.len() == 0 {
        Seq::empty()
    } else {
        match job_in(names.last()) {
            Some(id) => jobs_of(names.drop_last()).push(id),
            None => jobs_of(names.drop_last()),
        }
    }
}

/// The jobs whose transcripts wait, given the files of the folder. What is no transcript is
/// passed over.
pub fn list_job_ids(names: &Vec<String>) -> (r: Vec<String>)
    ensures
        texts(r@) == jobs_of(texts(names@)),
{
    let ghost all = texts(names@);
    let mut out: Vec<String> = Vec::new();
    let mut i: usize = 0;
    assert(texts(out@) =~= jobs_of(all.take(0)));
    while i < names.len()
        invariant
            i <= names@.len(),
            all == texts(names@),
            texts(out@) == jobs_of(all.take(i as int)),
        decreases names@.len() - i,
    {
        assert(all.take(i + 1).drop_last() =~= all.take(i as int));
        assert(all.take(i + 1).last() == names@[i as int]@);
        if let Some(id) = strip_suffix(names[i].as_str(), ".json") {
            let ghost before = out@;
            let ghost text = id@;
            out.push(id);
            assert(texts(out@) =~= texts(before).push(text));
        }
        i += 1;
    }
    assert(all.take(i as int) =~= all);
    out
}

proof fn lemma_safe_chars(s: Seq<char>)
    ensures
        forall|i: int| 0 <= i < safe_chars(s).len() ==> safe_char(#[trigger] safe_chars(s)[i]),
        (forall|i: int| 0 <= i < s.len() ==> safe_char(#[trigger] s[i])) ==> safe_chars(s) == s,
    decreases s.len(),
{
    if s.len() != 0 {
        let front = s.drop_last();
        lemma_safe_chars(front);
        assert forall|i: int| 0 <= i < safe_chars(s).len() implies safe_char(
            #[trigger] safe_chars(s)[i],
        ) by {
            if i < safe_chars(front).len() {
                assert(safe_chars(s)[i] == safe_chars(front)[i]);
            }
        }
        if forall|i: int| 0 <= i < s.len() ==> safe_char(#[trigger] s[i]) {
            assert forall|i: int| 0 <= i < front.len() implies safe_char(#[trigger] front[i]) by {
                assert(front[i] == s[i]);
            }
            assert(safe_char(s[s.len() - 1]));
            assert(safe_chars(s) =~= s);
        }
    }
}

/// Whatever a job is called, its file stays in the folder: its name holds no separator and no
/// point but the one of its extension.
pub proof fn files_stay_in_the_folder(job_id: Seq<char>, i: int)
    requires
        0 <= i < file_of(job_id).len(),
    ensures
        file_of(job_id)[i] != '/',
        file_of(job_id)[i] != '\\',
        file_of(job_id)[i] == '.' <==> i == safe_chars(job_id).len(),
{
    lemma_safe_chars(job_id);
    reveal_strlit(".json");
    let safe = safe_chars(job_id);
    if i < safe.len() {
        assert(safe_char(safe[i]));
    } else {
        assert(file_of(job_id)[i] == ".json"@[i - safe.len()]);
    }
}

/// The folder gives back the jobs that were written to it: the file of a job whose id is made of
/// safe characters names that job and no other.
pub proof fn files_name_their_jobs(job_id: Seq<char>, other: Seq<char>)
    requires
        forall|i: int| 0 <= i < job_id.len() ==> safe_char(#[trigger] job_id[i]),
        forall|i: int| 0 <= i < other.len() ==> safe_char(#[trigger] other[i]),
    ensures
        job_in(file_of(job_id)) == Some(job_id),
        file_of(job_id) == file_of(other) <==> job_id == other,
{
    lemma_safe_chars(job_id);
    lemma_safe_chars(other);
    let n = ".json"@.len();
    let a = file_of(job_id);
    let b = file_of(other);
    assert(a.skip(a.len() - n) =~= ".json"@);
    assert(a.take(a.len() - n) =~= job_id);
    assert(b.take(b.len() - n) =~= other);
}

// ── What the window shows ───────────────────────────────────────────────────

/// A transcript that waits, as the window shows it.
#[derive(Debug)]
pub struct PendingSummary {
    pub job_id: String,
    pub saved_at: u64,
    pub duration: i128,
    pub characters: usize,
    pub language: String,
    pub model: String,
}

/// A summary by its texts.
#[verifier::ext_equal]
pub struct SummaryView {
    pub job_id: Seq<char>,
    pub saved_at: u64,
    pub duration: int,
    pub characters: int,
    pub language: Seq<char>,
    pub model: Seq<char>,
}

impl View for PendingSummary {
    type V = SummaryView;

    open spec fn view(&self) -> SummaryView {
        SummaryView {
            job_id: self.job_id@,
            saved_at: self.saved_at,
            duration: self.duration as int,
            characters: self.characters as int,
            language: self.language@,
            model: self.model@,
        }
    }
}

/// What the window shows of a transcript that waits.
pub open spec fn summary_of(p: PendingView) -> SummaryView {
    SummaryView {
        job_id: p.job_id,
        saved_at: p.saved_at,
        duration: p.upload.duration,
        characters: p.upload.full_text.len() as int,
        language: p.upload.language,
        model: p.upload.model,
    }
}

/// What the window shows of a transcript that waits.
pub fn summarize(p: &PendingUpload) -> (r: PendingSummary)
    ensures
        r@ == summary_of(p@),
{
    PendingSummary {
        job_id: p.job_id.clone(),
        saved_at: p.saved_at,
        duration: p.upload.duration,
        characters: p.upload.full_text.as_str().unicode_len(),
        language: p.upload.language.clone(),
        model: p.upload.model.clone(),
    }
}

/// The summaries of a list by their texts.
pub open spec fn summary_views(s: Seq<PendingSummary>) -> Seq<SummaryView> {
    Seq::new(s.len(), |i: int| s[i]@)
}

/// The summaries of transcripts, in their order.
pub open spec fn summaries_of(s: Seq<PendingUpload>) -> Seq<SummaryView> {
    Seq::new(s.len(), |i: int| summary_of(s[i]@))
}

/// Those of `s` that were written at the second `t`, in their order.
pub open spec fn written_at(s: Seq<SummaryView>, t: u64) -> Seq<SummaryView>
    decreases s.len(),
{
    if s.len() == 0 {
        Seq::empty()
    } else if s.last().saved_at == t {
        written_at(s.drop_last(), t).push(s.last())
    } else {
        written_at(s.drop_last(), t)
    }
}

/// No summary stands before one that was written earlier.
pub open spec fn oldest_first(s: Seq<SummaryView>) -> bool {
    forall|i: int, j: int| 0 <= i < j < s.len() ==> (#[trigger] s[i]).saved_at <= (#[trigger]
    s[j]).saved_at
}

/// What stands at a place and behind it keeps its order where something is put between.
proof fn lemma_written_at_concat(a: Seq<SummaryView>, b: Seq<SummaryView>, t: u64)
    ensures
        written_at(a + b, t) == written_at(a, t) + written_at(b, t),
    decreases b.len(),
{
    if b.len() == 0 {
        assert(a + b =~= a);
        assert(written_at(a, t) + written_at(b, t) =~= written_at(a, t));
    } else {
        lemma_written_at_concat(a, b.drop_last(), t);
        assert((a + b).drop_last() =~= a + b.drop_last());
        assert((a + b).last() == b.last());
        assert(written_at(a + b, t) =~= written_at(a, t) + written_at(b, t));
    }
}

proof fn lemma_written_at_later(s: Seq<SummaryView>, t: u64)
    requires
        forall|i: int| 0 <= i < s.len() ==> (#[trigger] s[i]).saved_at > t,
    ensures
        written_at(s, t) == Seq::<SummaryView>::empty(),
    decreases s.len(),
{
    if s.len() != 0 {
        let front = s.drop_last();
        assert forall|i: int| 0 <= i < front.len() implies (#[trigger] front[i]).saved_at > t by {
            assert(front[i] == s[i]);
        }
        lemma_written_at_later(front, t);
        assert(s[s.len() - 1].saved_at > t);
    }
}

/// Puts `x` behind the last of `out` that is no newer.
fn insert_by_age(out: &mut Vec<PendingSummary>, x: PendingSummary)
    requires
        oldest_first(summary_views(old(out)@)),
    ensures
        oldest_first(summary_views(final(out)@)),
        forall|t: u64| #[trigger]
            written_at(summary_views(final(out)@), t) == written_at(
                summary_views(old(out)@).push(x@),
                t,
            ),
{
    let ghost all = summary_views(out@);
    let ghost item = x@;
    let mut at: usize = out.len();
    while at > 0 && out[at - 1].saved_at > x.saved_at
        invariant
            at <= out@.len(),
            all == summary_views(out@),
            item == x@,
            forall|i: int| at <= i < all.len() ==> (#[trigger] all[i]).saved_at > item.saved_at,
        decreases at,
    {
        at -= 1;
        assert(all[at as int] == out@[at as int]@);
    }
    let ghost front = all.take(at as int);
    let ghost back = all.skip(at as int);
    proof {
        if at > 0 {
            assert(all[at - 1] == out@[at - 1]@);
        }
    }
    out.insert(at, x);
    proof {
        let new = summary_views(out@);
        assert(new =~= front.push(item) + back);
        assert(all =~= front + back);
        assert forall|t: u64| #[trigger]
            written_at(new, t) == written_at(all.push(item), t) by {
            lemma_written_at_concat(front.push(item), back, t);
            lemma_written_at_concat(front, back, t);
            assert(front.push(item).drop_last() =~= front);
            assert(all.push(item).drop_last() =~= all);
            if item.saved_at == t {
                assert forall|i: int| 0 <= i < back.len() implies (#[trigger] back[i]).saved_at
                    > t by {
                    assert(back[i] == all[at + i]);
                }
                lemma_written_at_later(back, t);
            }
            assert(written_at(new, t) =~= written_at(all.push(item), t));
        }
        assert forall|i: int, j: int| 0 <= i < j < new.len() implies (#[trigger] new[i]).saved_at
            <= (#[trigger] new[j]).saved_at by {
            if i < at {
                assert(new[i] == all[i]);
            }
            if j > at {
                assert(new[j] == all[j - 1]);
            }
            if i > at {
                assert(new[i] == all[i - 1]);
            }
            if i < at && j >= at && at > 0 {
                assert(all[i].saved_at <= all[at - 1].saved_at);
            }
        }
    }
}

/// What the window shows of the transcripts that wait: the oldest first, and those of one
/// second in the order in which they were found.
pub fn list_details(items: &Vec<PendingUpload>) -> (r: Vec<PendingSummary>)
    ensures
        oldest_first(summary_views(r@)),
        forall|t: u64| #[trigger]
            written_at(summary_views(r@), t) == written_at(summaries_of(items@), t),
{
    let ghost all = summaries_of(items@);
    let mut out: Vec<PendingSummary> = Vec::new();
    let mut i: usize = 0;
    assert(summary_views(out@) =~= all.take(0));
    while i < items.len()
        invariant
            i <= items@.len(),
            all == summaries_of(items@),
            oldest_first(summary_views(out@)),
            forall|t: u64| #[trigger]
                written_at(summary_views(out@), t) == written_at(all.take(i as int), t),
        decreases items@.len() - i,
    {
        let ghost before = summary_views(out@);
        let x = summarize(&items[i]);
        let ghost item = x@;
        insert_by_age(&mut out, x);
        proof {
            assert(all.take(i + 1).drop_last() =~= all.take(i as int));
            assert(all.take(i + 1).last() == item);
            assert forall|t: u64| #[trigger]
                written_at(summary_views(out@), t) == written_at(all.take(i + 1), t) by {
                assert(before.push(item).drop_last() =~= before);
                assert(written_at(before, t) == written_at(all.take(i as int), t));
            }
        }
        i += 1;
    }
    assert(all.take(i as int) =~= all);
    out
}

// ── Trying again ────────────────────────────────────────────────────────────

/// What came of another attempt to upload a transcript. The file may go only where Amautum has
/// the transcript; the job that waited for it is complete then, and the pages that listen are
/// told.
pub open spec fn retried(
    v: AppView,
    job_id: Seq<char>,
    result: Result<TranscriptResponse, AmautumError>,
    now: u64,
) -> AppView {
    match result {
        Ok(response) => {
            let v1 = if waits_for_upload(v, job_id) {
                updated(v, job_id, ChangeView::Completed, now)
            } else {
                v
            };
            AppView {
                hub: published(
                    v1.hub,
                    EventView::Completed { job_id, transcript_id: response.transcript_id@ },
                ),
                ..v1
            }
        },
        Err(_) => v,
    }
}

/// The job is one whose transcript could not be uploaded yet.
pub open spec fn waits_for_upload(v: AppView, job_id: Seq<char>) -> bool {
    v.jobs.contains_key(job_id) && v.jobs[job_id].stage == JobStage::UploadPending
}

/// Takes what came of another attempt to upload the transcript of `job_id`, and says whether
/// its file may go: only where Amautum took it. Where it did not, the transcript stays.
pub fn retry_one(
    state: &mut AppState,
    job_id: &str,
    result: Result<TranscriptResponse, AmautumError>,
    now: u64,
) -> (r: bool)
    requires
        old(state).wf(),
    ensures
        final(state).wf(),
        final(state)@ == retried(old(state)@, job_id@, result, now),
        channels_kept(old(state)@.hub, old(state).keys(), final(state).keys(), job_id@),
        r == (result is Ok),
{
    match result {
        Ok(response) => {
            if let Some(JobStage::UploadPending) = state.stage_of(job_id) {
                state.update_job_at(now, job_id, JobChange::Completed);
            }
            state.publish(
                AgentEvent::Completed {
                    job_id: job_id.to_string(),
                    transcript_id: response.transcript_id,
                },
            );
            true
        },
        Err(_) => false,
    }
}

/// A job whose transcript is uploaded after all is complete: it no longer counts among those that
/// are under way, so it does not keep the agent busy, and the other jobs stay as they were.
pub proof fn an_uploaded_transcript_ends_its_job(
    v: AppView,
    job_id: Seq<char>,
    response: TranscriptResponse,
    now: u64,
    other: Seq<char>,
)
    requires
        sound(v),
        waits_for_upload(v, job_id),
    ensures
        ({
            let w = retried(v, job_id, Ok(response), now);
            &&& w.jobs[job_id].stage == JobStage::Completed
            &&& live_count(w.order, w.jobs) + 1 == live_count(v.order, v.jobs)
            &&& other != job_id ==> w.jobs[other] == v.jobs[other]
        }),
{
    let w = retried(v, job_id, Ok(response), now);
    assert(v.order.contains(job_id));
    lemma_one_less(v.order, v.jobs, job_id, w.jobs[job_id]);
}

proof fn lemma_one_less(
    order: Seq<Seq<char>>,
    jobs: Map<Seq<char>, JobView>,
    id: Seq<char>,
    job: JobView,
)
    requires
        order.no_duplicates(),
        !jobs[id].stage.terminal(),
        job.stage.terminal(),
    ensures
        order.contains(id) ==> live_count(order, jobs.insert(id, job)) + 1 == live_count(
            order,
            jobs,
        ),
        !order.contains(id) ==> live_count(order, jobs.insert(id, job)) == live_count(order, jobs),
    decreases order.len(),
{
    if order.len() > 0 {
        let rest = order.drop_last();
        lemma_one_less(rest, jobs, id, job);
        assert(order =~= rest.push(order.last()));
        if order.last() == id {
            assert(!rest.contains(id));
            assert(order[order.len() - 1] == id);
        } else if order.contains(id) {
            let i = choose|i: int| 0 <= i < order.len() && order[i] == id;
            assert(rest[i] == id);
        } else if rest.contains(id) {
            let i = choose|i: int| 0 <= i < rest.len() && rest[i] == id;
            assert(order[i] == id);
        }
    }
}

// ── Laws ────────────────────────────────────────────────────────────────────

/// The name of a file keeps the letters, digits, dashes and underscores of a job's id, in their
/// order, and nothing else.
pub proof fn file_names_keep_what_is_safe(a: Seq<char>, b: Seq<char>, c: char)
    ensures
        file_of(a) == safe_chars(a) + ".json"@,
        safe_chars(a + b) == safe_chars(a) + safe_chars(b),
        safe_chars(seq![c]) == (if safe_char(c) {
            seq![c]
        } else {
            Seq::empty()
        }),
        ({
            let n = c as int;
            safe_char(c) <==> (48 <= n <= 57 || 65 <= n <= 90 || 97 <= n <= 122 || n == 45 || n
                == 95)
        }),
    decreases b.len(),
{
    reveal_with_fuel(safe_chars, 2);
    assert(seq![c].drop_last() =~= Seq::empty());
    assert(safe_chars(seq![c]) =~= (if safe_char(c) {
        seq![c]
    } else {
        Seq::empty()
    }));
    if b.len() == 0 {
        assert(a + b =~= a);
        assert(safe_chars(a) + safe_chars(b) =~= safe_chars(a));
    } else {
        assert((a + b).drop_last() =~= a + b.drop_last());
        file_names_keep_what_is_safe(a, b.drop_last(), c);
        assert(safe_chars(a + b) =~= safe_chars(a) + safe_chars(b));
    }
}

/// Every file that holds a transcript gives its job, in the order of the files, and no other file
/// gives one.
pub proof fn every_transcript_gives_its_job(
    names: Seq<Seq<char>>,
    id: Seq<char>,
    other: Seq<char>,
)
    ensures
        jobs_of(Seq::empty()) == Seq::<Seq<char>>::empty(),
        jobs_of(names.push(id + ".json"@)) == jobs_of(names).push(id),
        !ends_with(other, ".json"@) ==> jobs_of(names.push(other)) == jobs_of(names),
{
    let name = id + ".json"@;
    let n = ".json"@.len() as int;
    assert(names.push(name).drop_last() =~= names);
    assert(names.push(other).drop_last() =~= names);
    assert(name.skip(name.len() - n) =~= ".json"@);
    assert(name.take(name.len() - n) =~= id);
}

/// What the window shows of a transcript that waits is what the transcript holds.
pub proof fn a_summary_is_of_its_transcript(p: PendingUpload, s: PendingSummary)
    ensures
        ({
            let v = summary_of(p@);
            &&& v.job_id == p.job_id@
            &&& v.saved_at == p.saved_at
            &&& v.duration == p.upload.duration
            &&& v.characters == p.upload.full_text@.len()
            &&& v.language == p.upload.language@
            &&& v.model == p.upload.model@
        }),
        p@.transcript_callback == p.transcript_callback@,
        p@.token == p.token@,
        p@.upload == p.upload@,
        s@.job_id == s.job_id@,
        s@.saved_at == s.saved_at,
        s@.duration == s.duration,
        s@.characters == s.characters,
        s@.language == s.language@,
        s@.model == s.model@,
{
}

/// The list of those that wait is fixed by what waits: there is one list with the oldest first in
/// which those of the same second stand in their order.
pub proof fn there_is_one_list_by_age(a: Seq<SummaryView>, b: Seq<SummaryView>)
    requires
        forall|i: int, j: int|
            0 <= i < j < a.len() ==> (#[trigger] a[i]).saved_at <= (#[trigger] a[j]).saved_at,
        forall|i: int, j: int|
            0 <= i < j < b.len() ==> (#[trigger] b[i]).saved_at <= (#[trigger] b[j]).saved_at,
        forall|t: u64| #[trigger] written_at(a, t) == written_at(b, t),
    ensures
        a == b,
    decreases a.len(),
{
    if a.len() == 0 {
        if b.len() > 0 {
            let t = b.last().saved_at;
            assert(written_at(a, t) == written_at(b, t));
            assert(written_at(b, t).len() > 0);
        }
        assert(a =~= b);
    } else {
        let t = a.last().saved_at;
        assert(written_at(a, t) == written_at(b, t));
        if b.len() == 0 {
            assert(written_at(a, t).len() > 0);
        } else {
            let u = b.last().saved_at;
            assert(written_at(a, u) == written_at(b, u));
            if u > t {
                lemma_none_written_at(a, u);
            } else if t > u {
                lemma_none_written_at(b, t);
            }
            assert(written_at(a, t).last() == a.last());
            assert(written_at(b, t).last() == b.last());
            let x = a.drop_last();
            let y = b.drop_last();
            assert forall|s: u64| #[trigger] written_at(x, s) == written_at(y, s) by {
                assert(written_at(a, s) == written_at(b, s));
                if s == t {
                    assert(written_at(a, s).drop_last() =~= written_at(x, s));
                    assert(written_at(b, s).drop_last() =~= written_at(y, s));
                }
            }
            there_is_one_list_by_age(x, y);
            assert(a =~= x.push(a.last()));
            assert(b =~= y.push(b.last()));
        }
    }
}

proof fn lemma_none_written_at(s: Seq<SummaryView>, t: u64)
    requires
        forall|i: int| 0 <= i < s.len() ==> (#[trigger] s[i]).saved_at != t,
    ensures
        written_at(s, t).len() == 0,
    decreases s.len(),
{
    if s.len() > 0 {
        assert(s[s.len() - 1].saved_at != t);
        let front = s.drop_last();
        assert forall|i: int| 0 <= i < front.len() implies (#[trigger] front[i]).saved_at != t by {
            assert(front[i] == s[i]);
        }
        lemma_none_written_at(front, t);
    }
}

/// Those that were written in one second are picked out in their order, and the lists of summaries
/// are seen in theirs.
pub proof fn the_same_second_keeps_its_order(
    a: Seq<SummaryView>,
    x: SummaryView,
    t: u64,
    items: Seq<PendingUpload>,
    list: Seq<PendingSummary>,
    i: int,
)
    ensures
        written_at(Seq::empty(), t) == Seq::<SummaryView>::empty(),
        x.saved_at == t ==> written_at(a.push(x), t) == written_at(a, t).push(x),
        x.saved_at != t ==> written_at(a.push(x), t) == written_at(a, t),
        oldest_first(a) <==> forall|j: int, k: int|
            0 <= j < k < a.len() ==> (#[trigger] a[j]).saved_at <= (#[trigger] a[k]).saved_at,
        summaries_of(items).len() == items.len(),
        0 <= i < items.len() ==> summaries_of(items)[i] == summary_of(items[i]@),
        summary_views(list).len() == list.len(),
        0 <= i < list.len() ==> summary_views(list)[i] == list[i]@,
{
    assert(a.push(x).drop_last() =~= a);
}

/// An attempt to upload again that failed changes nothing. One that succeeded tells the pages that
/// listen to the job which transcript Amautum has, and completes the job where it waited for that,
/// with what the window shows of a completed job; one that did not wait stays as it is.
pub proof fn a_retry_that_succeeds_is_told(
    v: AppView,
    job_id: Seq<char>,
    response: TranscriptResponse,
    e: AmautumError,
    now: u64,
)
    ensures
        retried(v, job_id, Err(e), now) == v,
        ({
            let w = retried(v, job_id, Ok(response), now);
            &&& w.hub == published(
                v.hub,
                EventView::Completed { job_id, transcript_id: response.transcript_id@ },
            )
            &&& v.jobs.contains_key(job_id) && v.jobs[job_id].stage == JobStage::UploadPending ==> {
                &&& w.jobs[job_id].stage == JobStage::Completed
                &&& w.jobs[job_id].progress == 100
                &&& w.jobs[job_id].updated_at_ms == now
                &&& w.jobs[job_id].hint is None
                &&& w.jobs[job_id].error is None
            }
            &&& !(v.jobs.contains_key(job_id) && v.jobs[job_id].stage == JobStage::UploadPending)
                ==> w.jobs == v.jobs
            &&& w.order == v.order
            &&& w.logs == v.logs
            &&& w.running == v.running
            &&& w.dependencies_ok == v.dependencies_ok
            &&& w.update == v.update
        }),
{
}

} // verus!
