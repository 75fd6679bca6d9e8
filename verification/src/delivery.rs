//! What leaves the computer.
//!
//! The audio is transcribed on the computer of the person and stays there. Of a job, three kinds
//! of message go to Amautum: how it goes, the transcript, and why it failed. They go to the
//! addresses that came with the job and show its token, and what they hold is text, times and
//! numbers.
use crate::diarize::{all_labelled, appeared, best_span, raw_of, SpeakerSpan};
use crate::pending::{PendingUpload, PendingView};
use crate::pipeline::{
    awaits, job_beaten, job_ok, job_stepped, job_ticked, outcome_text, parcel_of, pushed,
    start_report, with_speakers, Clock, JobAction, JobEvent, JobPhase, JobRun, JobRunView,
    JobStep,
};
use crate::progress::{beat_report, tick_report};
use crate::state::AppView;
use crate::types::{
    AgentTriggerPayload, FailUpload, FailUploadView, ProgressUpload, ProgressUploadView,
    SegmentView, TranscriptUpload, TranscriptView,
};
use crate::whisper::{TickView, WhisperRun};
use vstd::prelude::*;

verus! {

/// What a message to Amautum holds.
pub enum Body {
    Progress(ProgressUpload),
    Transcript(TranscriptUpload),
    Failure(FailUpload),
}

/// What a message to Amautum holds, by its texts.
pub enum BodyView {
    Progress(ProgressUploadView),
    Transcript(TranscriptView),
    Failure(FailUploadView),
}

impl View for Body {
    type V = BodyView;

    open spec fn view(&self) -> BodyView {
        match *self {
            Body::Progress(b) => BodyView::Progress(b@),
            Body::Transcript(b) => BodyView::Transcript(b@),
            Body::Failure(b) => BodyView::Failure(b@),
        }
    }
}

/// A message to Amautum.
pub struct Delivery {
    /// Where it goes.
    pub url: String,
    /// What proves that it may.
    pub token: String,
    pub body: Body,
}

/// A message to Amautum, by its texts.
pub struct DeliveryView {
    pub url: Seq<char>,
    pub token: Seq<char>,
    pub body: BodyView,
}

impl View for Delivery {
    type V = DeliveryView;

    open spec fn view(&self) -> DeliveryView {
        DeliveryView { url: self.url@, token: self.token@, body: self.body@ }
    }
}

/// An optional message by its texts.
pub open spec fn opt_delivery(o: Option<Delivery>) -> Option<DeliveryView> {
    match o {
        Some(d) => Some(d@),
        None => None,
    }
}

/// A report of the progress of a job, on its way.
pub open spec fn progress_to(
    payload: AgentTriggerPayload,
    report: ProgressUploadView,
) -> DeliveryView {
    DeliveryView {
        url: payload.callbacks.progress@,
        token: payload.token@,
        body: BodyView::Progress(report),
    }
}

/// The message that a job asks to be sent: that it began, its transcript, or why it failed.
pub open spec fn delivery_of(r: JobRunView) -> Option<DeliveryView> {
    let token = r.payload.token@;
    match awaits(r) {
        JobAction::ReportStart => Some(progress_to(r.payload, start_report(r))),
        JobAction::Upload => match r.upload {
            Some(t) => Some(
                DeliveryView {
                    url: r.payload.callbacks.transcript@,
                    token,
                    body: BodyView::Transcript(t),
                },
            ),
            None => None,
        },
        JobAction::ReportFailure => match r.failure {
            Some(f) => Some(
                DeliveryView {
                    url: r.payload.callbacks.fail@,
                    token,
                    body: BodyView::Failure(f),
                },
            ),
            None => None,
        },
        _ => None,
    }
}

/// The message that a transcript which was written to disk is uploaded with.
pub open spec fn parcel_delivery(p: PendingView) -> DeliveryView {
    DeliveryView {
        url: p.transcript_callback,
        token: p.token,
        body: BodyView::Transcript(p.upload),
    }
}

impl JobRun {
    /// The message that the job asks to be sent, where it asks for one.
    pub fn delivery(&self) -> (r: Option<Delivery>)
        requires
            job_ok(self@),
        ensures
            opt_delivery(r) == delivery_of(self@),
    {
        let payload = self.payload();
        match self.action() {
            JobAction::ReportStart => Some(self.progress_delivery(self.start_upload())),
            JobAction::Upload => match self.transcript() {
                Some(t) => Some(
                    Delivery {
                        url: payload.callbacks.transcript.clone(),
                        token: payload.token.clone(),
                        body: Body::Transcript(t.copy()),
                    },
                ),
                None => None,
            },
            JobAction::ReportFailure => match self.failure_upload() {
                Some(f) => Some(
                    Delivery {
                        url: payload.callbacks.fail.clone(),
                        token: payload.token.clone(),
                        body: Body::Failure(f),
                    },
                ),
                None => None,
            },
            _ => None,
        }
    }

    /// The message that a report of the progress of the job is sent with.
    pub fn progress_delivery(&self, report: ProgressUpload) -> (r: Delivery)
        ensures
            r@ == progress_to(self@.payload, report@),
    {
        let payload = self.payload();
        Delivery {
            url: payload.callbacks.progress.clone(),
            token: payload.token.clone(),
            body: Body::Progress(report),
        }
    }
}

impl PendingUpload {
    /// The message that the transcript is uploaded with.
    pub fn delivery(&self) -> (r: Delivery)
        ensures
            r@ == parcel_delivery(self@),
    {
        Delivery {
            url: self.transcript_callback.clone(),
            token: self.token.clone(),
            body: Body::Transcript(self.upload.copy()),
        }
    }
}

// ── Laws ────────────────────────────────────────────────────────────────────

/// What happens to a job that is under way: an answer to what it asked for, something that the
/// engine said, or the time to say again what is known.
pub enum JobInput {
    Answer(JobEvent, Clock),
    Tick(TickView, Clock),
    Beat(Clock),
}

/// How a job goes on.
pub open spec fn job_fed(r: JobRunView, v: AppView, input: JobInput) -> JobStep {
    match input {
        JobInput::Answer(event, clock) => job_stepped(r, v, event, clock),
        JobInput::Tick(tick, clock) => job_ticked(r, v, tick, clock),
        JobInput::Beat(clock) => job_beaten(r, v, clock),
    }
}

/// What is sent to Amautum on that account.
pub open spec fn sent_for(r: JobRunView, v: AppView, input: JobInput) -> Seq<DeliveryView> {
    let sent = match input {
        JobInput::Answer(..) => delivery_of(job_fed(r, v, input).run),
        JobInput::Tick(tick, clock) => match pushed(
            r,
            tick_report(r.progress, tick, clock.steady_ns),
        ) {
            Some(report) => Some(progress_to(r.payload, report)),
            None => None,
        },
        JobInput::Beat(clock) => match pushed(r, beat_report(r.progress, clock.steady_ns)) {
            Some(report) => Some(progress_to(r.payload, report)),
            None => None,
        },
    };
    match sent {
        Some(d) => seq![d],
        None => Seq::empty(),
    }
}

/// All that is sent to Amautum while a job takes `inputs`, in order.
pub open spec fn all_sent(r: JobRunView, v: AppView, inputs: Seq<JobInput>) -> Seq<DeliveryView>
    decreases inputs.len(),
{
    if inputs.len() == 0 {
        Seq::empty()
    } else {
        let next = job_fed(r, v, inputs[0]);
        sent_for(r, v, inputs[0]) + all_sent(next.run, next.state, inputs.skip(1))
    }
}

/// A job once it has taken `inputs`.
pub open spec fn job_after(r: JobRunView, v: AppView, inputs: Seq<JobInput>) -> JobRunView
    decreases inputs.len(),
{
    if inputs.len() == 0 {
        r
    } else {
        let next = job_fed(r, v, inputs[0]);
        job_after(next.run, next.state, inputs.skip(1))
    }
}

/// Two lists of spans say the same of who speaks when.
pub open spec fn same_spans(a: Seq<SpeakerSpan>, b: Seq<SpeakerSpan>) -> bool {
    a.len() == b.len() && forall|i: int|
        0 <= i < a.len() ==> (#[trigger] a[i]).start == b[i].start && a[i].end
            == b[i].end && a[i].raw_speaker@ == b[i].raw_speaker@
}

/// Two answers say the same: the same texts, times and labels. Where the converted audio lies
/// makes no difference.
pub open spec fn same_answer(a: JobEvent, b: JobEvent) -> bool {
    match (a, b) {
        (JobEvent::TempDirMade(x), JobEvent::TempDirMade(y)) => outcome_text(x) == outcome_text(y),
        (JobEvent::Converted(x, h), JobEvent::Converted(y, k)) => h == k && match (x, y) {
            (Ok(p), Ok(q)) => p.duration == q.duration,
            (Err(e), Err(f)) => e@ == f@,
            _ => false,
        },
        (JobEvent::StartReported, JobEvent::StartReported) => true,
        (JobEvent::ModelReady(x), JobEvent::ModelReady(y)) => match (x, y) {
            (Ok(_), Ok(_)) => true,
            (Err(e), Err(f)) => e@ == f@,
            _ => false,
        },
        (JobEvent::Transcribed(x), JobEvent::Transcribed(y)) => match (x, y) {
            (Ok(p), Ok(q)) => p@ == q@,
            (Err(e), Err(f)) => e@ == f@,
            _ => false,
        },
        (JobEvent::Diarized(x), JobEvent::Diarized(y)) => match (x, y) {
            (Ok(p), Ok(q)) => same_spans(p@, q@),
            (Err(_), Err(_)) => true,
            _ => false,
        },
        (JobEvent::Uploaded(x), JobEvent::Uploaded(y)) => match (x, y) {
            (Ok(p), Ok(q)) => p.transcript_id@ == q.transcript_id@,
            (Err(e), Err(f)) => e@ == f@,
            _ => false,
        },
        (JobEvent::Waited, JobEvent::Waited) => true,
        (JobEvent::Saved(x), JobEvent::Saved(y)) => outcome_text(x) == outcome_text(y),
        (JobEvent::FailureReported, JobEvent::FailureReported) => true,
        _ => false,
    }
}

/// The same happens to two jobs, at the same times.
pub open spec fn same_input(a: JobInput, b: JobInput) -> bool {
    match (a, b) {
        (JobInput::Answer(x, c), JobInput::Answer(y, d)) => c == d && same_answer(x, y),
        (JobInput::Tick(x, c), JobInput::Tick(y, d)) => c == d && x == y,
        (JobInput::Beat(c), JobInput::Beat(d)) => c == d,
        _ => false,
    }
}

/// Two jobs that differ in nothing but which file they transcribe.
pub open spec fn same_but_file(a: JobRunView, b: JobRunView) -> bool {
    b == JobRunView {
        payload: AgentTriggerPayload {
            audio_file_path: b.payload.audio_file_path,
            ..a.payload
        },
        ..a
    }
}

/// A message of a job goes where messages of its kind have to go, and shows the token of the job.
pub open spec fn well_addressed(payload: AgentTriggerPayload, d: DeliveryView) -> bool {
    d.token == payload.token@ && d.url == match d.body {
        BodyView::Progress(_) => payload.callbacks.progress@,
        BodyView::Transcript(_) => payload.callbacks.transcript@,
        BodyView::Failure(_) => payload.callbacks.fail@,
    }
}

/// No audio leaves the computer. All that is sent of a job is text, times and numbers, and it is
/// fixed by what the tools say of the audio: where they say the same of two files, the same is
/// sent of both, and the same is written to disk to be sent later, whatever is in the files and
/// whatever else the agent is doing.
pub proof fn no_audio_leaves(
    a: JobRunView,
    b: JobRunView,
    v: AppView,
    w: AppView,
    said: Seq<JobInput>,
    heard: Seq<JobInput>,
)
    requires
        same_but_file(a, b),
        said.len() == heard.len(),
        forall|i: int| 0 <= i < said.len() ==> same_input(#[trigger] said[i], heard[i]),
    ensures
        all_sent(a, v, said) == all_sent(b, w, heard),
        parcel_of(job_after(a, v, said)) == parcel_of(job_after(b, w, heard)),
    decreases said.len(),
{
    if said.len() > 0 {
        let next = job_fed(a, v, said[0]);
        let other = job_fed(b, w, heard[0]);
        assert(same_input(said[0], heard[0]));
        lemma_same_step(a, b, v, w, said[0], heard[0]);
        let rest = said.skip(1);
        let rest_heard = heard.skip(1);
        assert forall|i: int| 0 <= i < rest.len() implies same_input(
            #[trigger] rest[i],
            rest_heard[i],
        ) by {
            assert(same_input(said[i + 1], heard[i + 1]));
        }
        no_audio_leaves(next.run, other.run, next.state, other.state, rest, rest_heard);
    }
}

/// Whatever happens, all that is sent of a job goes to the addresses that came with it and shows
/// its token; so does a transcript that was written to disk first.
pub proof fn messages_go_where_they_have_to(r: JobRunView, v: AppView, inputs: Seq<JobInput>)
    ensures
        forall|i: int|
            0 <= i < all_sent(r, v, inputs).len() ==> well_addressed(
                r.payload,
                #[trigger] all_sent(r, v, inputs)[i],
            ),
        parcel_of(job_after(r, v, inputs)) matches Some(p) ==> well_addressed(
            r.payload,
            parcel_delivery(p),
        ),
    decreases inputs.len(),
{
    if inputs.len() > 0 {
        let next = job_fed(r, v, inputs[0]);
        assert(next.run.payload == r.payload);
        messages_go_where_they_have_to(next.run, next.state, inputs.skip(1));
        let first = sent_for(r, v, inputs[0]);
        let rest = all_sent(next.run, next.state, inputs.skip(1));
        assert forall|i: int| 0 <= i < all_sent(r, v, inputs).len() implies well_addressed(
            r.payload,
            #[trigger] all_sent(r, v, inputs)[i],
        ) by {
            if i >= first.len() {
                assert(all_sent(r, v, inputs)[i] == rest[i - first.len()]);
            }
        }
    }
}

proof fn lemma_same_step(
    a: JobRunView,
    b: JobRunView,
    v: AppView,
    w: AppView,
    said: JobInput,
    heard: JobInput,
)
    requires
        same_but_file(a, b),
        same_input(said, heard),
    ensures
        same_but_file(job_fed(a, v, said).run, job_fed(b, w, heard).run),
        sent_for(a, v, said) == sent_for(b, w, heard),
{
    match (said, heard) {
        (JobInput::Answer(x, clock), JobInput::Answer(y, _)) => {
            lemma_same_answer(a, b, v, w, x, y, clock);
            lemma_same_delivery(
                job_stepped(a, v, x, clock).run,
                job_stepped(b, w, y, clock).run,
            );
        },
        _ => {},
    }
}

proof fn lemma_same_delivery(a: JobRunView, b: JobRunView)
    requires
        same_but_file(a, b),
    ensures
        delivery_of(a) == delivery_of(b),
{
}

#[verifier::rlimit(40)]
proof fn lemma_same_answer(
    a: JobRunView,
    b: JobRunView,
    v: AppView,
    w: AppView,
    x: JobEvent,
    y: JobEvent,
    clock: Clock,
)
    requires
        same_but_file(a, b),
        same_answer(x, y),
    ensures
        same_but_file(job_stepped(a, v, x, clock).run, job_stepped(b, w, y, clock).run),
{
    match (x, y) {
        (JobEvent::Diarized(Ok(p)), JobEvent::Diarized(Ok(q))) => {
            lemma_same_speakers(a.upload->0, p@, q@);
        },
        (JobEvent::Saved(_), JobEvent::Saved(_)) => {},
        (JobEvent::Uploaded(_), JobEvent::Uploaded(_)) => {},
        (JobEvent::Transcribed(_), JobEvent::Transcribed(_)) => {},
        (JobEvent::Converted(_, _), JobEvent::Converted(_, _)) => {},
        (JobEvent::TempDirMade(_), JobEvent::TempDirMade(_)) => {},
        _ => {},
    }
}

proof fn lemma_same_speakers(t: TranscriptView, a: Seq<SpeakerSpan>, b: Seq<SpeakerSpan>)
    requires
        same_spans(a, b),
    ensures
        with_speakers(t, a) == with_speakers(t, b),
{
    lemma_same_appeared(t.segments, a, b);
    assert forall|i: int| 0 <= i < t.segments.len() implies #[trigger] all_labelled(
        t.segments,
        a,
    )[i] == all_labelled(t.segments, b)[i] by {
        lemma_same_raw(t.segments[i], a, b);
    }
    assert(all_labelled(t.segments, a) =~= all_labelled(t.segments, b));
}

proof fn lemma_same_appeared(
    segments: Seq<SegmentView>,
    a: Seq<SpeakerSpan>,
    b: Seq<SpeakerSpan>,
)
    requires
        same_spans(a, b),
    ensures
        appeared(segments, a) == appeared(segments, b),
    decreases segments.len(),
{
    if segments.len() > 0 {
        lemma_same_appeared(segments.drop_last(), a, b);
        lemma_same_raw(segments.last(), a, b);
    }
}

proof fn lemma_same_raw(segment: SegmentView, a: Seq<SpeakerSpan>, b: Seq<SpeakerSpan>)
    requires
        same_spans(a, b),
    ensures
        raw_of(segment, a) == raw_of(segment, b),
{
    lemma_same_best(segment.start, segment.end, a, b);
    if let Some(i) = best_span(segment.start, segment.end, a) {
        assert(a[i].raw_speaker@ == b[i].raw_speaker@);
    }
}

proof fn lemma_same_best(start: int, end: int, a: Seq<SpeakerSpan>, b: Seq<SpeakerSpan>)
    requires
        same_spans(a, b),
    ensures
        best_span(start, end, a) == best_span(start, end, b),
        best_span(start, end, a) matches Some(i) ==> 0 <= i < a.len(),
    decreases a.len(),
{
    if a.len() > 0 {
        let x = a.drop_last();
        let y = b.drop_last();
        assert forall|i: int| 0 <= i < x.len() implies (#[trigger] x[i]).start == y[i].start
            && x[i].end == y[i].end && x[i].raw_speaker@ == y[i].raw_speaker@ by {
            assert(a[i].start == b[i].start);
        }
        lemma_same_best(start, end, x, y);
        assert(a[a.len() - 1].start == b[b.len() - 1].start);
        if let Some(i) = best_span(start, end, x) {
            assert(a[i].start == b[i].start);
        }
    }
}

/// A job that reports its beginning sends that report, one that uploads sends its transcript, and
/// one that failed sends why: each to its own address, whole, and with the token of the job. At
/// no other time does a job ask for a message.
pub proof fn each_message_holds_what_it_is_for(r: JobRunView)
    ensures
        r.phase == JobPhase::Reporting ==> {
            &&& delivery_of(r) is Some
            &&& delivery_of(r)->0.url == r.payload.callbacks.progress@
            &&& delivery_of(r)->0.token == r.payload.token@
            &&& delivery_of(r)->0.body == BodyView::Progress(start_report(r))
        },
        r.phase == JobPhase::Uploading && r.upload is Some ==> {
            &&& delivery_of(r) is Some
            &&& delivery_of(r)->0.url == r.payload.callbacks.transcript@
            &&& delivery_of(r)->0.token == r.payload.token@
            &&& delivery_of(r)->0.body == BodyView::Transcript(r.upload->0)
        },
        r.phase == JobPhase::ReportingFailure && r.failure is Some ==> {
            &&& delivery_of(r) is Some
            &&& delivery_of(r)->0.url == r.payload.callbacks.fail@
            &&& delivery_of(r)->0.token == r.payload.token@
            &&& delivery_of(r)->0.body == BodyView::Failure(r.failure->0)
        },
        r.phase != JobPhase::Reporting && r.phase != JobPhase::Uploading && r.phase
            != JobPhase::ReportingFailure ==> delivery_of(r) is None,
        r.phase == JobPhase::Uploading && r.upload is None ==> delivery_of(r) is None,
        r.phase == JobPhase::ReportingFailure && r.failure is None ==> delivery_of(r) is None,
{
}

/// A report goes to the address of progress with the token of the job, as it is; a transcript that
/// was written to disk goes where it was to go, with the token that was written with it, as it is.
pub proof fn messages_are_sent_as_they_are(
    payload: AgentTriggerPayload,
    report: ProgressUploadView,
    p: PendingView,
)
    ensures
        progress_to(payload, report).url == payload.callbacks.progress@,
        progress_to(payload, report).token == payload.token@,
        progress_to(payload, report).body == BodyView::Progress(report),
        parcel_delivery(p).url == p.transcript_callback,
        parcel_delivery(p).token == p.token,
        parcel_delivery(p).body == BodyView::Transcript(p.upload),
{
}

/// A message is seen with its address, its token and what it holds.
pub proof fn messages_are_seen_as_they_are(d: Delivery)
    ensures
        d@.url == d.url@,
        d@.token == d.token@,
        match d.body {
            Body::Progress(b) => d@.body == BodyView::Progress(b@),
            Body::Transcript(b) => d@.body == BodyView::Transcript(b@),
            Body::Failure(b) => d@.body == BodyView::Failure(b@),
        },
        opt_delivery(Some(d)) == Some(d@),
        opt_delivery(None) is None,
{
}

/// What the engine heard is what is uploaded: where nobody asked for speakers to be told apart,
/// the next message of the job holds the stretches, the text, the language and the model that the
/// engine gave.
pub proof fn what_was_heard_is_what_is_sent(
    r: JobRunView,
    v: AppView,
    run: WhisperRun,
    clock: Clock,
)
    requires
        r.phase == JobPhase::Transcribing,
        !r.payload.diarize,
    ensures
        ({
            let sent = sent_for(r, v, JobInput::Answer(JobEvent::Transcribed(Ok(run)), clock));
            &&& sent.len() == 1
            &&& sent[0].url == r.payload.callbacks.transcript@
            &&& sent[0].token == r.payload.token@
            &&& sent[0].body matches BodyView::Transcript(t) && {
                &&& t.segments == run@.segments
                &&& t.full_text == run.full_text@
                &&& t.language == run.language@
                &&& t.model == run.model_used@
            }
        }),
{
}

/// What a job sends over a while is what it sends first and then what it sends afterwards.
pub proof fn messages_are_sent_in_order(
    r: JobRunView,
    v: AppView,
    first: JobInput,
    rest: Seq<JobInput>,
)
    ensures
        all_sent(r, v, Seq::empty()) == Seq::<DeliveryView>::empty(),
        all_sent(r, v, seq![first] + rest) == sent_for(r, v, first) + all_sent(
            job_fed(r, v, first).run,
            job_fed(r, v, first).state,
            rest,
        ),
        job_after(r, v, Seq::empty()) == r,
        job_after(r, v, seq![first] + rest) == job_after(
            job_fed(r, v, first).run,
            job_fed(r, v, first).state,
            rest,
        ),
{
    assert((seq![first] + rest).skip(1) =~= rest);
}

} // verus!
