//! Who says what: the spans of each speaker, and the labels that the segments of a transcript
//! get from them.
//!
//! The engine writes what was said and when, but not by whom. Another program listens to the
//! same audio and tells the voices apart; each segment of text is then given to the speaker
//! with whom it shares most time.
use crate::process::{push_line, with_line, ProcessEvent};
use crate::text::{
    after_word, blank, chars_of, decimal, digit, find_text, find_text_in, first_word, lower_case,
    lower_chars, next_word, opt_text, prefixed, push_decimal, same_text, slice_string, tail,
    tail_text, texts, trim, trimmed, white_space, words_end_at_white_space,
};
use crate::types::{segment_views, Segment, SegmentView};
use vstd::prelude::*;
use vstd::string::*;

verus! {

/// What can go wrong where speakers are told apart.
#[derive(Debug)]
pub enum DiarizeError {
    Process(String),
    NoOutput,
    Tauri(String),
}

/// An error by its texts.
pub enum DiarizeErrorView {
    Process(Seq<char>),
    NoOutput,
    Tauri(Seq<char>),
}

impl View for DiarizeError {
    type V = DiarizeErrorView;

    open spec fn view(&self) -> DiarizeErrorView {
        match *self {
            DiarizeError::Process(e) => DiarizeErrorView::Process(e@),
            DiarizeError::NoOutput => DiarizeErrorView::NoOutput,
            DiarizeError::Tauri(e) => DiarizeErrorView::Tauri(e@),
        }
    }
}

impl DiarizeErrorView {
    /// The message of the error.
    pub open spec fn text(self) -> Seq<char> {
        match self {
            DiarizeErrorView::Process(e) => "sherpa-diarize falló: "@ + e,
            DiarizeErrorView::NoOutput =>
                "sherpa-diarize no devolvió tramos de hablante parseables"@,
            DiarizeErrorView::Tauri(e) => "Error de Tauri: "@ + e,
        }
    }
}

impl DiarizeError {
    /// The message of the error.
    pub fn message(&self) -> (r: String)
        ensures
            r@ == self@.text(),
    {
        match self {
            DiarizeError::Process(e) => prefixed("sherpa-diarize falló: ", e.as_str()),
            DiarizeError::NoOutput =>
                "sherpa-diarize no devolvió tramos de hablante parseables".to_string(),
            DiarizeError::Tauri(e) => prefixed("Error de Tauri: ", e.as_str()),
        }
    }
}

// ── Spans ───────────────────────────────────────────────────────────────────

/// A stretch of the audio that one speaker was heard in.
#[derive(Debug)]
pub struct SpeakerSpan {
    pub start: i128,
    pub end: i128,
    /// The speaker as the program names them, such as `speaker_00`.
    pub raw_speaker: String,
}

/// A line that gives a span, by its texts.
#[derive(Debug)]
pub struct SpanFields {
    /// The second at which the span begins, as it is written.
    pub start: String,
    /// The second at which it ends, as it is written.
    pub end: String,
    pub raw_speaker: String,
}

/// What a line such as `0.038 -- 2.910 speaker_00` holds: what stands before the two dashes,
/// the word behind them, and the word behind that, which has to name a speaker.
pub open spec fn span_in(line: Seq<char>) -> Option<(Seq<char>, Seq<char>, Seq<char>)> {
    let s = trim(line);
    match find_text(s, " -- "@) {
        None => None,
        Some(sep) => {
            let rest = s.skip(sep as int + 4);
            let end = first_word(rest);
            let raw = first_word(after_word(rest));
            if end.len() == 0 || raw.len() == 0 || find_text(lower_case(raw), "speaker"@) is None {
                None
            } else {
                Some((trim(s.take(sep as int)), end, raw))
            }
        },
    }
}

/// What a line of the program says of a span. Lines of another form say nothing: banners, logs.
/// The two times are as they are written; a line whose times are no numbers gives no span.
pub fn parse_span_line(line: &str) -> (r: Option<SpanFields>)
    ensures
        (match r {
            Some(f) => Some((f.start@, f.end@, f.raw_speaker@)),
            None => None,
        }) == span_in(line@),
{
    let s = trimmed(line);
    let v = chars_of(s.as_str());
    let dashes = chars_of(" -- ");
    proof {
        reveal_strlit(" -- ");
    }
    let sep = match find_text_in(&v, &dashes) {
        Some(i) => i,
        None => {
            return None;
        },
    };
    let start = trimmed(slice_string(&v, 0, sep).as_str());
    assert(v@.subrange(0, sep as int) =~= v@.take(sep as int));
    assert(sep + 4 <= v.len());
    let (a, b) = next_word(&v, sep + 4);
    let (c, d) = next_word(&v, b);
    if a == b || c == d {
        return None;
    }
    let end = slice_string(&v, a, b);
    let raw = slice_string(&v, c, d);
    let lower = lower_chars(&chars_of(raw.as_str()));
    let word = chars_of("speaker");
    if find_text_in(&lower, &word).is_none() {
        return None;
    }
    Some(SpanFields { start, end, raw_speaker: raw })
}

// ── Who speaks in a segment ─────────────────────────────────────────────────

/// The time that a span and a segment share.
pub open spec fn overlap(start: int, end: int, span: SpeakerSpan) -> int {
    let from = if start >= span.start {
        start
    } else {
        span.start as int
    };
    let to = if end <= span.end {
        end
    } else {
        span.end as int
    };
    if to - from > 0 {
        to - from
    } else {
        0
    }
}

/// The first of the spans that share most time with a segment; none where none shares any.
pub open spec fn best_span(start: int, end: int, spans: Seq<SpeakerSpan>) -> Option<int>
    decreases spans.len(),
{
    if spans.len() == 0 {
        None
    } else {
        let last = overlap(start, end, spans.last());
        match best_span(start, end, spans.drop_last()) {
            Some(i) => if last <= overlap(start, end, spans[i]) {
                Some(i)
            } else {
                Some(spans.len() - 1)
            },
            None => if last > 0 {
                Some(spans.len() - 1)
            } else {
                None
            },
        }
    }
}

/// The speaker that a segment belongs to.
pub open spec fn speaker_of(start: int, end: int, spans: Seq<SpeakerSpan>) -> Option<Seq<char>> {
    match best_span(start, end, spans) {
        Some(i) => Some(spans[i].raw_speaker@),
        None => None,
    }
}

proof fn lemma_best_span(start: int, end: int, spans: Seq<SpeakerSpan>)
    ensures
        (match best_span(start, end, spans) {
            Some(i) => {
                &&& 0 <= i < spans.len()
                &&& overlap(start, end, spans[i]) > 0
                &&& forall|j: int|
                    0 <= j < spans.len() ==> overlap(start, end, #[trigger] spans[j]) <= overlap(
                        start,
                        end,
                        spans[i],
                    )
                &&& forall|j: int|
                    0 <= j < i ==> overlap(start, end, #[trigger] spans[j]) < overlap(
                        start,
                        end,
                        spans[i],
                    )
            },
            None => forall|j: int|
                0 <= j < spans.len() ==> overlap(start, end, #[trigger] spans[j]) == 0,
        }),
    decreases spans.len(),
{
    if spans.len() != 0 {
        let front = spans.drop_last();
        lemma_best_span(start, end, front);
        assert forall|j: int| 0 <= j < front.len() implies front[j] == spans[j] by {}
    }
}

/// A segment belongs to nobody where no span shares time with it; else to the speaker of a span
/// with which it shares more time than with any before it, and no less than with any behind it.
pub proof fn dominant_speaker_overlaps_most(
    start: int,
    end: int,
    spans: Seq<SpeakerSpan>,
)
    ensures
        speaker_of(start, end, spans) is None <==> (forall|j: int|
            0 <= j < spans.len() ==> overlap(start, end, #[trigger] spans[j]) == 0),
        speaker_of(start, end, spans) matches Some(raw) ==> exists|i: int|
            #![trigger spans[i]]
            0 <= i < spans.len() && spans[i].raw_speaker@ == raw && overlap(start, end, spans[i])
                > 0 && (forall|j: int|
                0 <= j < spans.len() ==> overlap(start, end, #[trigger] spans[j]) <= overlap(
                    start,
                    end,
                    spans[i],
                )) && (forall|j: int|
                0 <= j < i ==> overlap(start, end, #[trigger] spans[j]) < overlap(
                    start,
                    end,
                    spans[i],
                )),
{
    lemma_best_span(start, end, spans);
}

fn shared_time(start: i128, end: i128, span: &SpeakerSpan) -> (r: u128)
    ensures
        r == overlap(start as int, end as int, *span),
{
    let from = if start >= span.start {
        start
    } else {
        span.start
    };
    let to = if end <= span.end {
        end
    } else {
        span.end
    };
    if to <= from {
        0
    } else if from < 0 && to >= 0 {
        (to as u128) + ((-(from + 1)) as u128) + 1
    } else {
        (to - from) as u128
    }
}

/// The speaker whose span shares most time with a segment; the first of them where several
/// share as much. Nobody where no span does: silence, or music.
pub fn dominant_speaker(seg_start: i128, seg_end: i128, spans: &Vec<SpeakerSpan>) -> (r: Option<
    String,
>)
    ensures
        opt_text(r) == speaker_of(seg_start as int, seg_end as int, spans@),
{
    let ghost start = seg_start as int;
    let ghost end = seg_end as int;
    let mut best: Option<usize> = None;
    let mut best_overlap: u128 = 0;
    let mut i: usize = 0;
    assert(spans@.take(0) =~= Seq::empty());
    while i < spans.len()
        invariant
            i <= spans@.len(),
            start == seg_start,
            end == seg_end,
            (match best {
                Some(b) => Some(b as int),
                None => None,
            }) == best_span(start, end, spans@.take(i as int)),
            best matches Some(b) ==> b < i && best_overlap == overlap(start, end, spans@[b as int]),
            best is None ==> best_overlap == 0,
        decreases spans@.len() - i,
    {
        let ghost front = spans@.take(i as int);
        proof {
            assert(spans@.take(i + 1).drop_last() =~= front);
            assert(spans@.take(i + 1).last() == spans@[i as int]);
            lemma_best_span(start, end, front);
        }
        let shared = shared_time(seg_start, seg_end, &spans[i]);
        if shared > best_overlap {
            best = Some(i);
            best_overlap = shared;
        }
        i += 1;
    }
    assert(spans@.take(i as int) =~= spans@);
    match best {
        Some(b) => Some(spans[b].raw_speaker.clone()),
        None => None,
    }
}

// ── Labels ──────────────────────────────────────────────────────────────────

/// The name that the speaker at place `index` goes by until a person gives them another.
pub open spec fn label_of(index: nat) -> Seq<char> {
    "Hablante "@ + decimal(index + 1)
}

/// The name that the speaker at place `index` goes by.
pub fn human_label(index: usize) -> (r: String)
    requires
        index < usize::MAX,
    ensures
        r@ == label_of(index as nat),
{
    let mut out = "Hablante ".to_string();
    push_decimal(&mut out, (index + 1) as u64);
    out
}

/// The speaker that a segment belongs to.
pub open spec fn raw_of(segment: SegmentView, spans: Seq<SpeakerSpan>) -> Option<Seq<char>> {
    speaker_of(segment.start, segment.end, spans)
}

/// The speakers of `segments` in the order in which they first speak.
pub open spec fn appeared(segments: Seq<SegmentView>, spans: Seq<SpeakerSpan>) -> Seq<Seq<char>>
    decreases segments.len(),
{
    if segments.len() == 0 {
        Seq::empty()
    } else {
        let before = appeared(segments.drop_last(), spans);
        match raw_of(segments.last(), spans) {
            Some(raw) => if before.contains(raw) {
                before
            } else {
                before.push(raw)
            },
            None => before,
        }
    }
}

/// Where `x` first stands in `list`; the length of the list where it does not.
pub open spec fn place_of(list: Seq<Seq<char>>, x: Seq<char>) -> nat
    decreases list.len(),
{
    if list.len() == 0 || list[0] == x {
        0
    } else {
        1 + place_of(list.drop_first(), x)
    }
}

/// A segment with the name of its speaker, who is one of `names`. One that belongs to nobody is
/// left as it is.
pub open spec fn labelled(
    segment: SegmentView,
    spans: Seq<SpeakerSpan>,
    names: Seq<Seq<char>>,
) -> SegmentView {
    match raw_of(segment, spans) {
        Some(raw) => SegmentView { speaker: Some(label_of(place_of(names, raw))), ..segment },
        None => segment,
    }
}

/// The segments with the names of their speakers: whoever speaks first in the transcript is the
/// first of them.
pub open spec fn all_labelled(segments: Seq<SegmentView>, spans: Seq<SpeakerSpan>) -> Seq<
    SegmentView,
> {
    Seq::new(
        segments.len(),
        |i: int| labelled(segments[i], spans, appeared(segments, spans)),
    )
}

/// How many segments belong to somebody.
pub open spec fn attributed(segments: Seq<SegmentView>, spans: Seq<SpeakerSpan>) -> nat
    decreases segments.len(),
{
    if segments.len() == 0 {
        0
    } else if raw_of(segments.last(), spans) is Some {
        attributed(segments.drop_last(), spans) + 1
    } else {
        attributed(segments.drop_last(), spans)
    }
}

/// The names of the first `n` speakers.
pub open spec fn labels(n: nat) -> Seq<Seq<char>> {
    Seq::new(n, |i: int| label_of(i as nat))
}

/// Who speaks in a transcript, and how many of its segments got a name.
#[derive(Debug)]
pub struct DiarizationResult {
    pub speakers: Vec<String>,
    pub labeled_segments: usize,
}

proof fn lemma_place_of(list: Seq<Seq<char>>, x: Seq<char>, i: int)
    requires
        0 <= i < list.len(),
        list[i] == x,
        forall|j: int| 0 <= j < i ==> list[j] != x,
    ensures
        place_of(list, x) == i,
    decreases list.len(),
{
    if i > 0 {
        assert(list[0] != x);
        let rest = list.drop_first();
        assert forall|j: int| 0 <= j < i - 1 implies rest[j] != x by {
            assert(rest[j] == list[j + 1]);
        }
        lemma_place_of(rest, x, i - 1);
    }
}

/// What a longer transcript adds to the list of speakers goes to its end.
proof fn lemma_appeared_prefix(segments: Seq<SegmentView>, spans: Seq<SpeakerSpan>, n: int)
    requires
        0 <= n <= segments.len(),
    ensures
        appeared(segments.take(n), spans).len() <= appeared(segments, spans).len(),
        appeared(segments.take(n), spans).len() <= n,
        forall|i: int|
            0 <= i < appeared(segments.take(n), spans).len() ==> appeared(
                segments.take(n),
                spans,
            )[i] == #[trigger] appeared(segments, spans)[i],
    decreases segments.len(),
{
    if n == segments.len() {
        assert(segments.take(n) =~= segments);
        if n > 0 {
            lemma_appeared_prefix(segments.drop_last(), spans, n - 1);
            assert(segments.drop_last().take(n - 1) =~= segments.drop_last());
        }
    } else {
        lemma_appeared_prefix(segments.drop_last(), spans, n);
        assert(segments.drop_last().take(n) =~= segments.take(n));
    }
}

/// A name of the list has its place in it.
proof fn lemma_place_inside(list: Seq<Seq<char>>, x: Seq<char>)
    requires
        list.contains(x),
    ensures
        place_of(list, x) < list.len(),
        list[place_of(list, x) as int] == x,
    decreases list.len(),
{
    if list[0] != x {
        let rest = list.drop_first();
        let i = choose|i: int| 0 <= i < list.len() && list[i] == x;
        assert(rest[i - 1] == x);
        lemma_place_inside(rest, x);
    }
}

/// The place of `x` in `names`.
fn position(names: &Vec<String>, x: &str) -> (r: usize)
    ensures
        r == place_of(texts(names@), x@),
        r <= names@.len(),
        r < names@.len() <==> texts(names@).contains(x@),
{
    let ghost list = texts(names@);
    let mut i: usize = 0;
    assert(list.skip(0) =~= list);
    while i < names.len()
        invariant
            i <= names@.len(),
            list == texts(names@),
            place_of(list, x@) == i + place_of(list.skip(i as int), x@),
            forall|j: int| 0 <= j < i ==> list[j] != x@,
        decreases names@.len() - i,
    {
        assert(list.skip(i as int)[0] == names@[i as int]@);
        if same_text(names[i].as_str(), x) {
            assert(list[i as int] == x@);
            return i;
        }
        assert(list.skip(i as int).drop_first() =~= list.skip(i + 1));
        i += 1;
    }
    i
}

/// Gives each segment the name of the speaker with whom it shares most time, and says who
/// speaks, in the order in which they first do. Without a single span there is nothing to go by.
pub fn diarize_segments(spans: &Vec<SpeakerSpan>, segments: &mut Vec<Segment>) -> (r: Result<
    DiarizationResult,
    DiarizeError,
>)
    ensures
        spans@.len() == 0 ==> (r matches Err(e) && e is NoOutput) && final(segments)@ == old(
            segments,
        )@,
        spans@.len() != 0 ==> (r matches Ok(result) && {
            let before = segment_views(old(segments)@);
            &&& segment_views(final(segments)@) == all_labelled(before, spans@)
            &&& texts(result.speakers@) == labels(appeared(before, spans@).len())
            &&& result.labeled_segments == attributed(before, spans@)
        }),
{
    if spans.len() == 0 {
        return Err(DiarizeError::NoOutput);
    }
    let ghost before = segment_views(segments@);
    let ghost names_of_all = appeared(before, spans@);
    let n = segments.len();
    let mut names: Vec<String> = Vec::new();
    let mut labeled: usize = 0;
    let mut i: usize = 0;
    assert(before.take(0) =~= Seq::empty());
    assert(texts(names@) =~= Seq::empty());
    while i < n
        invariant
            i <= n,
            n == segments@.len(),
            n == before.len(),
            names_of_all == appeared(before, spans@),
            texts(names@) == appeared(before.take(i as int), spans@),
            labeled == attributed(before.take(i as int), spans@),
            labeled <= i,
            names@.len() <= i,
            forall|j: int|
                0 <= j < i ==> (#[trigger] segments@[j])@ == labelled(
                    before[j],
                    spans@,
                    names_of_all,
                ),
            forall|j: int| i <= j < n ==> (#[trigger] segments@[j])@ == before[j],
        decreases n - i,
    {
        proof {
            assert(before.take(i + 1).drop_last() =~= before.take(i as int));
            assert(before.take(i + 1).last() == before[i as int]);
            assert(segments@[i as int]@ == before[i as int]);
            lemma_appeared_prefix(before, spans@, i + 1);
        }
        if let Some(raw) = dominant_speaker(segments[i].start, segments[i].end, spans) {
            let place = position(&names, raw.as_str());
            if place == names.len() {
                let ghost names_before = names@;
                let ghost raw_text = raw@;
                names.push(raw);
                proof {
                    assert(texts(names@) =~= texts(names_before).push(raw_text));
                    assert(texts(names@)[names_before.len() as int] == raw_text);
                    lemma_place_end(texts(names_before), raw_text);
                    lemma_place_stays(texts(names@), names_of_all, raw_text);
                }
            } else {
                proof {
                    lemma_place_stays(texts(names@), names_of_all, raw@);
                }
            }
            let ghost seen = segments@;
            segments[i].speaker = Some(human_label(place));
            assert(segments@ =~= seen.update(i as int, segments@[i as int]));
            labeled += 1;
        }
        i += 1;
    }
    assert(before.take(i as int) =~= before);
    assert(segment_views(segments@) =~= all_labelled(before, spans@));
    let mut speakers: Vec<String> = Vec::new();
    let mut k: usize = 0;
    while k < names.len()
        invariant
            k <= names@.len(),
            texts(speakers@) == labels(k as nat),
        decreases names@.len() - k,
    {
        let ghost speakers_before = speakers@;
        speakers.push(human_label(k));
        assert(texts(speakers@) =~= texts(speakers_before).push(label_of(k as nat)));
        assert(labels((k + 1) as nat) =~= labels(k as nat).push(label_of(k as nat)));
        k += 1;
    }
    Ok(DiarizationResult { speakers, labeled_segments: labeled })
}

/// A name that is new to a list has its place behind it.
proof fn lemma_place_end(list: Seq<Seq<char>>, x: Seq<char>)
    requires
        !list.contains(x),
    ensures
        place_of(list, x) == list.len(),
        place_of(list.push(x), x) == list.len(),
    decreases list.len(),
{
    let more = list.push(x);
    assert(more[list.len() as int] == x);
    assert forall|j: int| 0 <= j < list.len() implies more[j] != x by {
        assert(list.contains(list[j]));
    }
    lemma_place_of(more, x, list.len() as int);
    if list.len() != 0 {
        assert(list.contains(list[0]));
        let rest = list.drop_first();
        if rest.contains(x) {
            let i = choose|i: int| 0 <= i < rest.len() && rest[i] == x;
            assert(list[i + 1] == x);
        }
        lemma_place_end(rest, x);
    }
}

/// A name keeps its place where others are added behind it.
proof fn lemma_place_stays(list: Seq<Seq<char>>, more: Seq<Seq<char>>, x: Seq<char>)
    requires
        list.contains(x),
        list.len() <= more.len(),
        forall|i: int| 0 <= i < list.len() ==> list[i] == #[trigger] more[i],
    ensures
        place_of(more, x) == place_of(list, x),
    decreases list.len(),
{
    let i = choose|i: int| 0 <= i < list.len() && list[i] == x;
    assert(more[0] == list[0]);
    if list[0] != x {
        let rest = list.drop_first();
        let more_rest = more.drop_first();
        assert(rest[i - 1] == x);
        assert forall|j: int| 0 <= j < rest.len() implies rest[j] == #[trigger] more_rest[j] by {
            assert(list[j + 1] == more[j + 1]);
        }
        lemma_place_stays(rest, more_rest, x);
    }
}

proof fn lemma_appeared(segments: Seq<SegmentView>, spans: Seq<SpeakerSpan>, i: int)
    requires
        0 <= i < segments.len(),
        raw_of(segments[i], spans) is Some,
    ensures
        appeared(segments, spans).contains(raw_of(segments[i], spans)->0),
    decreases segments.len(),
{
    let before = appeared(segments.drop_last(), spans);
    let all = appeared(segments, spans);
    if i < segments.len() - 1 {
        lemma_appeared(segments.drop_last(), spans, i);
        let raw = raw_of(segments[i], spans)->0;
        let k = choose|k: int| 0 <= k < before.len() && before[k] == raw;
        assert(all[k] == raw);
    } else {
        let raw = raw_of(segments.last(), spans)->0;
        if !before.contains(raw) {
            assert(all[before.len() as int] == raw);
        }
    }
}

/// Two segments of one speaker get one name, and those of two speakers get two: a transcript
/// never mixes people up.
pub proof fn one_name_for_each_speaker(
    segments: Seq<SegmentView>,
    spans: Seq<SpeakerSpan>,
    i: int,
    k: int,
)
    requires
        0 <= i < segments.len(),
        0 <= k < segments.len(),
        raw_of(segments[i], spans) is Some,
        raw_of(segments[k], spans) is Some,
    ensures
        all_labelled(segments, spans)[i].speaker == all_labelled(segments, spans)[k].speaker
            <==> raw_of(segments[i], spans) == raw_of(segments[k], spans),
{
    let names = appeared(segments, spans);
    let a = raw_of(segments[i], spans)->0;
    let b = raw_of(segments[k], spans)->0;
    lemma_appeared(segments, spans, i);
    lemma_appeared(segments, spans, k);
    lemma_place_inside(names, a);
    lemma_place_inside(names, b);
    if label_of(place_of(names, a)) == label_of(place_of(names, b)) {
        lemma_label_tells(place_of(names, a), place_of(names, b));
    }
}

/// Two numbers that are written alike are the same.
proof fn lemma_decimal_tells(a: nat, b: nat)
    requires
        decimal(a) == decimal(b),
    ensures
        a == b,
    decreases a,
{
    if a < 10 && b >= 10 {
        assert(decimal(a).len() == 1);
        assert(decimal(b).len() == decimal(b / 10).len() + 1);
        lemma_decimal_len(b / 10);
    } else if a >= 10 && b < 10 {
        assert(decimal(b).len() == 1);
        assert(decimal(a).len() == decimal(a / 10).len() + 1);
        lemma_decimal_len(a / 10);
    } else if a < 10 {
        assert(decimal(a)[0] == digit(a) && decimal(b)[0] == digit(b));
        assert(digit(a) as int == 48 + a && digit(b) as int == 48 + b);
    } else {
        assert(decimal(a).drop_last() =~= decimal(a / 10));
        assert(decimal(b).drop_last() =~= decimal(b / 10));
        assert(decimal(a).last() == digit(a % 10) && decimal(b).last() == digit(b % 10));
        assert(digit(a % 10) as int == 48 + a % 10 && digit(b % 10) as int == 48 + b % 10);
        lemma_decimal_tells(a / 10, b / 10);
    }
}

proof fn lemma_decimal_len(n: nat)
    ensures
        decimal(n).len() >= 1,
{
}

proof fn lemma_label_tells(a: nat, b: nat)
    requires
        label_of(a) == label_of(b),
    ensures
        a == b,
{
    let n = "Hablante "@.len() as int;
    assert(label_of(a).skip(n) =~= decimal(a + 1));
    assert(label_of(b).skip(n) =~= decimal(b + 1));
    lemma_decimal_tells(a + 1, b + 1);
}

/// Labels are given in the order in which people first speak: the first segment that belongs to
/// somebody belongs to the first speaker.
pub proof fn first_to_speak_is_first(segments: Seq<SegmentView>, spans: Seq<SpeakerSpan>, i: int)
    requires
        0 <= i < segments.len(),
        raw_of(segments[i], spans) is Some,
        forall|j: int| 0 <= j < i ==> raw_of(#[trigger] segments[j], spans) is None,
    ensures
        all_labelled(segments, spans)[i].speaker == Some(label_of(0)),
{
    lemma_nobody_yet(segments.take(i), spans);
    let first = segments.take(i + 1);
    assert(first.drop_last() =~= segments.take(i));
    assert(first.last() == segments[i]);
    lemma_appeared_prefix(segments, spans, i + 1);
    assert(appeared(first, spans)[0] == raw_of(segments[i], spans)->0);
    assert(appeared(segments, spans)[0] == raw_of(segments[i], spans)->0);
}

proof fn lemma_nobody_yet(segments: Seq<SegmentView>, spans: Seq<SpeakerSpan>)
    requires
        forall|j: int| 0 <= j < segments.len() ==> raw_of(#[trigger] segments[j], spans) is None,
    ensures
        appeared(segments, spans) == Seq::<Seq<char>>::empty(),
    decreases segments.len(),
{
    if segments.len() != 0 {
        let front = segments.drop_last();
        assert forall|j: int| 0 <= j < front.len() implies raw_of(
            #[trigger] front[j],
            spans,
        ) is None by {
            assert(front[j] == segments[j]);
        }
        lemma_nobody_yet(front, spans);
        assert(segments[segments.len() - 1] == segments.last());
    }
}

// ── Calling the program and listening to it ─────────────────────────────────

/// The arguments of the program that tells speakers apart: how many there are where that is
/// known, and else how far apart two voices have to be.
pub open spec fn diarize_call(
    segmentation_model: Seq<char>,
    embedding_model: Seq<char>,
    num_speakers: Option<u8>,
    wav: Seq<char>,
) -> Seq<Seq<char>> {
    seq![
        "--segmentation.pyannote-model="@ + segmentation_model,
        "--embedding.model="@ + embedding_model,
        "--num-threads=2"@,
        (match num_speakers {
            Some(n) => if n >= 1 {
                "--clustering.num-clusters="@ + decimal(n as nat)
            } else {
                "--clustering.cluster-threshold=0.5"@
            },
            None => "--clustering.cluster-threshold=0.5"@,
        }),
        wav,
    ]
}

/// The arguments of the program that tells speakers apart.
pub fn diarize_args(
    segmentation_model: &str,
    embedding_model: &str,
    num_speakers: Option<u8>,
    wav: &str,
) -> (r: Vec<String>)
    ensures
        texts(r@) == diarize_call(segmentation_model@, embedding_model@, num_speakers, wav@),
{
    let mut args: Vec<String> = Vec::new();
    args.push(prefixed("--segmentation.pyannote-model=", segmentation_model));
    args.push(prefixed("--embedding.model=", embedding_model));
    args.push("--num-threads=2".to_string());
    let known = match num_speakers {
        Some(n) => n,
        None => 0,
    };
    if known >= 1 {
        let mut arg = "--clustering.num-clusters=".to_string();
        push_decimal(&mut arg, known as u64);
        args.push(arg);
    } else {
        args.push("--clustering.cluster-threshold=0.5".to_string());
    }
    args.push(wav.to_string());
    assert(texts(args@) =~= diarize_call(
        segmentation_model@,
        embedding_model@,
        num_speakers,
        wav@,
    ));
    args
}

/// What has been heard of the program.
pub struct DiarizeRun {
    last_err: String,
    exit_code: Option<i32>,
}

/// What has been heard of the program, by its texts.
#[verifier::ext_equal]
pub struct DiarizeRunView {
    pub last_err: Seq<char>,
    pub exit_code: Option<i32>,
}

impl View for DiarizeRun {
    type V = DiarizeRunView;

    closed spec fn view(&self) -> DiarizeRunView {
        DiarizeRunView { last_err: self.last_err@, exit_code: self.exit_code }
    }
}

/// What to do next with the program.
pub enum DiarizeAction {
    /// Go on listening, and keep the span where there is one.
    Listen(Option<SpanFields>),
    /// It is over.
    Finish(Result<(), DiarizeError>),
}

/// What to do next, by its texts.
pub enum DiarizeActionView {
    Listen(Option<(Seq<char>, Seq<char>, Seq<char>)>),
    Finish(Result<(), DiarizeErrorView>),
}

impl View for DiarizeAction {
    type V = DiarizeActionView;

    open spec fn view(&self) -> DiarizeActionView {
        match *self {
            DiarizeAction::Listen(f) => DiarizeActionView::Listen(
                match f {
                    Some(f) => Some((f.start@, f.end@, f.raw_speaker@)),
                    None => None,
                },
            ),
            DiarizeAction::Finish(r) => DiarizeActionView::Finish(
                match r {
                    Ok(()) => Ok(()),
                    Err(e) => Err(e@),
                },
            ),
        }
    }
}

/// What has been heard once `event` has.
pub open spec fn diarize_heard(v: DiarizeRunView, event: ProcessEvent) -> DiarizeRunView {
    match event {
        ProcessEvent::Stderr(line) => DiarizeRunView {
            last_err: with_line(v.last_err, line@),
            ..v
        },
        ProcessEvent::Terminated(code) => DiarizeRunView { exit_code: code, ..v },
        _ => v,
    }
}

/// What to do with the program once `event` has been heard. Some versions write their spans to
/// the error output, so both outputs are read.
pub open spec fn diarize_answer(v: DiarizeRunView, event: ProcessEvent) -> DiarizeActionView {
    match event {
        ProcessEvent::Stdout(line) => DiarizeActionView::Listen(span_in(line@)),
        ProcessEvent::Stderr(line) => DiarizeActionView::Listen(span_in(line@)),
        ProcessEvent::Error(e) => DiarizeActionView::Finish(Err(DiarizeErrorView::Process(e@))),
        ProcessEvent::Closed => DiarizeActionView::Finish(
            if v.exit_code == Some(0i32) {
                Ok(())
            } else {
                Err(DiarizeErrorView::Process(tail_text(v.last_err, 4)))
            },
        ),
        _ => DiarizeActionView::Listen(None),
    }
}

impl DiarizeRun {
    /// A program that has just been started.
    pub fn new() -> (r: DiarizeRun)
        ensures
            r@ == (DiarizeRunView { last_err: Seq::empty(), exit_code: None }),
    {
        let r = DiarizeRun { last_err: String::new(), exit_code: None };
        assert(r@.last_err =~= Seq::empty());
        r
    }

    /// Takes what was heard, and says what to do next.
    pub fn hear(&mut self, event: ProcessEvent) -> (r: DiarizeAction)
        ensures
            final(self)@ == diarize_heard(old(self)@, event),
            r@ == diarize_answer(old(self)@, event),
    {
        match event {
            ProcessEvent::Stdout(line) => DiarizeAction::Listen(parse_span_line(line.as_str())),
            ProcessEvent::Stderr(line) => {
                let span = parse_span_line(line.as_str());
                push_line(&mut self.last_err, line.as_str());
                DiarizeAction::Listen(span)
            },
            ProcessEvent::Terminated(code) => {
                self.exit_code = code;
                DiarizeAction::Listen(None)
            },
            ProcessEvent::Error(e) => DiarizeAction::Finish(Err(DiarizeError::Process(e))),
            ProcessEvent::Closed => {
                if let Some(code) = self.exit_code {
                    if code == 0 {
                        return DiarizeAction::Finish(Ok(()));
                    }
                }
                DiarizeAction::Finish(
                    Err(DiarizeError::Process(tail(self.last_err.as_str(), 4))),
                )
            },
            _ => DiarizeAction::Listen(None),
        }
    }
}

// ── Laws ────────────────────────────────────────────────────────────────────

/// How much longer both last that begin at `start` and at `from` and end at `end` and at `to`: from
/// the later beginning to the earlier end. Nothing is shared where that is not above zero.
pub open spec fn common(start: int, end: int, from: int, to: int) -> int {
    (if end < to {
        end
    } else {
        to
    }) - (if start > from {
        start
    } else {
        from
    })
}

/// Span `b` shares time with what lasts from `start` to `end`; none shares more, and none before
/// it shares as much.
pub open spec fn shares_most(start: int, end: int, spans: Seq<SpeakerSpan>, b: int) -> bool {
    &&& 0 <= b < spans.len()
    &&& common(start, end, spans[b].start as int, spans[b].end as int) > 0
    &&& forall|j: int|
        0 <= j < spans.len() ==> common(
            start,
            end,
            (#[trigger] spans[j]).start as int,
            spans[j].end as int,
        ) <= common(start, end, spans[b].start as int, spans[b].end as int)
    &&& forall|j: int|
        0 <= j < b ==> common(
            start,
            end,
            (#[trigger] spans[j]).start as int,
            spans[j].end as int,
        ) < common(start, end, spans[b].start as int, spans[b].end as int)
}

/// No span shares time with what lasts from `start` to `end`.
pub open spec fn shares_none(start: int, end: int, spans: Seq<SpeakerSpan>) -> bool {
    forall|j: int|
        0 <= j < spans.len() ==> common(
            start,
            end,
            (#[trigger] spans[j]).start as int,
            spans[j].end as int,
        ) <= 0
}

proof fn lemma_most_is_best(start: int, end: int, spans: Seq<SpeakerSpan>, b: int)
    ensures
        shares_most(start, end, spans, b) ==> best_span(start, end, spans) == Some(b),
        shares_none(start, end, spans) <==> best_span(start, end, spans) is None,
        best_span(start, end, spans) matches Some(i) ==> shares_most(start, end, spans, i),
{
    lemma_best_span(start, end, spans);
    assert forall|j: int| 0 <= j < spans.len() implies ({
        let c = common(start, end, (#[trigger] spans[j]).start as int, spans[j].end as int);
        overlap(start, end, spans[j]) == if c > 0 {
            c
        } else {
            0
        }
    }) by {}
    if let Some(i) = best_span(start, end, spans) {
        assert(overlap(start, end, spans[i]) > 0);
        assert(common(start, end, spans[i].start as int, spans[i].end as int) > 0);
        if shares_most(start, end, spans, b) {
            assert(overlap(start, end, spans[b]) <= overlap(start, end, spans[i]));
            if b < i {
                assert(overlap(start, end, spans[b]) < overlap(start, end, spans[i]));
                assert(common(start, end, spans[i].start as int, spans[i].end as int) <= common(
                    start,
                    end,
                    spans[b].start as int,
                    spans[b].end as int,
                ));
            } else if i < b {
                assert(common(start, end, spans[i].start as int, spans[i].end as int) < common(
                    start,
                    end,
                    spans[b].start as int,
                    spans[b].end as int,
                ));
            }
        }
    } else if shares_most(start, end, spans, b) {
        assert(overlap(start, end, spans[b]) == 0);
    }
}

/// The dominant speaker of a stretch of time is the one of the first span that shares most of it,
/// over the whole of the stretch, and nobody where no span shares any.
pub proof fn the_longest_share_decides(start: int, end: int, spans: Seq<SpeakerSpan>, b: int)
    ensures
        shares_most(start, end, spans, b) ==> speaker_of(start, end, spans) == Some(
            spans[b].raw_speaker@,
        ),
        shares_none(start, end, spans) <==> speaker_of(start, end, spans) is None,
{
    lemma_most_is_best(start, end, spans, b);
}

/// A segment is named exactly where some span shares time with it, from its start to its end; its
/// text and its times stay as they were, and so does the order of the segments.
pub proof fn a_segment_is_named_where_somebody_speaks(
    segments: Seq<SegmentView>,
    spans: Seq<SpeakerSpan>,
    i: int,
    b: int,
)
    requires
        0 <= i < segments.len(),
    ensures
        all_labelled(segments, spans).len() == segments.len(),
        ({
            let old = segments[i];
            let new = all_labelled(segments, spans)[i];
            &&& new.text == old.text
            &&& new.start == old.start
            &&& new.end == old.end
            &&& shares_none(old.start, old.end, spans) ==> new == old
            &&& shares_most(old.start, old.end, spans, b) ==> new.speaker is Some
        }),
{
    lemma_most_is_best(segments[i].start, segments[i].end, spans, b);
}

/// Two segments get one name exactly where the first spans that share most time with each of them,
/// over their whole length, are of one speaker.
pub proof fn a_name_stands_for_one_speaker(
    segments: Seq<SegmentView>,
    spans: Seq<SpeakerSpan>,
    i: int,
    b: int,
    k: int,
    c: int,
)
    requires
        0 <= i < segments.len(),
        0 <= k < segments.len(),
        shares_most(segments[i].start, segments[i].end, spans, b),
        shares_most(segments[k].start, segments[k].end, spans, c),
    ensures
        all_labelled(segments, spans)[i].speaker == all_labelled(segments, spans)[k].speaker
            <==> spans[b].raw_speaker@ == spans[c].raw_speaker@,
{
    lemma_most_is_best(segments[i].start, segments[i].end, spans, b);
    lemma_most_is_best(segments[k].start, segments[k].end, spans, c);
    one_name_for_each_speaker(segments, spans, i, k);
}

/// Somebody who speaks for the first time gets the next number behind those who spoke before, and
/// one more speaker is listed; somebody who spoke before adds none.
pub proof fn speakers_are_numbered_as_they_appear(
    segments: Seq<SegmentView>,
    spans: Seq<SpeakerSpan>,
    i: int,
    b: int,
)
    requires
        0 <= i < segments.len(),
        shares_most(segments[i].start, segments[i].end, spans, b),
    ensures
        ({
            let before = appeared(segments.take(i), spans).len();
            let after = appeared(segments.take(i + 1), spans).len();
            let new = forall|k: int, c: int|
                0 <= k < i && #[trigger] shares_most(
                    segments[k].start,
                    segments[k].end,
                    spans,
                    c,
                ) ==> spans[c].raw_speaker@ != spans[b].raw_speaker@;
            &&& new ==> after == before + 1
            &&& new ==> all_labelled(segments, spans)[i].speaker == Some(
                "Hablante "@ + decimal(before + 1),
            )
            &&& !new ==> after == before
        }),
        appeared(Seq::empty(), spans).len() == 0,
        attributed(segments.take(i + 1), spans) == attributed(segments.take(i), spans) + 1,
{
    let raw = spans[b].raw_speaker@;
    lemma_most_is_best(segments[i].start, segments[i].end, spans, b);
    let front = segments.take(i);
    let more = segments.take(i + 1);
    assert(more.drop_last() =~= front);
    assert(more.last() == segments[i]);
    let names = appeared(front, spans);
    lemma_appeared_prefix(segments, spans, i + 1);
    if names.contains(raw) {
        lemma_appeared_came_from(front, spans, raw);
        let k = choose|k: int|
            0 <= k < front.len() && raw_of(#[trigger] front[k], spans) == Some(raw);
        assert(front[k] == segments[k]);
        let c = best_span(segments[k].start, segments[k].end, spans)->0;
        lemma_most_is_best(segments[k].start, segments[k].end, spans, c);
        assert(shares_most(segments[k].start, segments[k].end, spans, c));
    } else {
        lemma_place_end(names, raw);
        assert(appeared(more, spans) =~= names.push(raw));
        assert(names.push(raw)[names.len() as int] == raw);
        lemma_place_stays(names.push(raw), appeared(segments, spans), raw);
        assert forall|k: int, c: int|
            0 <= k < i && #[trigger] shares_most(
                segments[k].start,
                segments[k].end,
                spans,
                c,
            ) implies spans[c].raw_speaker@ != raw by {
            lemma_most_is_best(segments[k].start, segments[k].end, spans, c);
            if spans[c].raw_speaker@ == raw {
                assert(front[k] == segments[k]);
                lemma_appeared(front, spans, k);
            }
        }
    }
}

proof fn lemma_appeared_came_from(
    segments: Seq<SegmentView>,
    spans: Seq<SpeakerSpan>,
    raw: Seq<char>,
)
    requires
        appeared(segments, spans).contains(raw),
    ensures
        exists|k: int|
            0 <= k < segments.len() && raw_of(#[trigger] segments[k], spans) == Some(raw),
    decreases segments.len(),
{
    if segments.len() > 0 {
        let front = segments.drop_last();
        let before = appeared(front, spans);
        if before.contains(raw) {
            lemma_appeared_came_from(front, spans, raw);
            let k = choose|k: int|
                0 <= k < front.len() && raw_of(#[trigger] front[k], spans) == Some(raw);
            assert(segments[k] == front[k]);
        } else {
            let i = choose|i: int|
                0 <= i < appeared(segments, spans).len() && appeared(segments, spans)[i] == raw;
            if i < before.len() {
                assert(before[i] == raw);
            }
            assert(raw_of(segments[segments.len() - 1], spans) == Some(raw));
        }
    }
}

/// A segment that shares time with nobody adds nobody and counts for nobody.
pub proof fn silence_adds_nobody(segments: Seq<SegmentView>, spans: Seq<SpeakerSpan>, i: int)
    requires
        0 <= i < segments.len(),
        shares_none(segments[i].start, segments[i].end, spans),
    ensures
        appeared(segments.take(i + 1), spans) == appeared(segments.take(i), spans),
        attributed(segments.take(i + 1), spans) == attributed(segments.take(i), spans),
        attributed(Seq::empty(), spans) == 0,
{
    lemma_most_is_best(segments[i].start, segments[i].end, spans, 0);
    assert(segments.take(i + 1).drop_last() =~= segments.take(i));
    assert(segments.take(i + 1).last() == segments[i]);
}

/// The speakers are listed by number, from one on.
pub proof fn speakers_are_listed_by_number(n: nat, i: int)
    ensures
        labels(n).len() == n,
        0 <= i < n ==> labels(n)[i] == "Hablante "@ + decimal((i + 1) as nat),
        label_of(n) == "Hablante "@ + decimal(n + 1),
{
}

/// A line gives a span where it holds a time, two dashes, a time and a speaker, in this order and
/// with white space between them; what stands behind the speaker does not matter.
pub proof fn a_span_line_is_read(
    line: Seq<char>,
    from: Seq<char>,
    gap: Seq<char>,
    to: Seq<char>,
    space: Seq<char>,
    raw: Seq<char>,
    rest: Seq<char>,
)
    requires
        trim(line) == from + " -- "@ + gap + to + space + raw + rest,
        find_text(trim(line), " -- "@) == Some(from.len()),
        blank(gap),
        blank(space),
        space.len() > 0,
        to.len() > 0,
        forall|i: int| 0 <= i < to.len() ==> !white_space(#[trigger] to[i]),
        raw.len() > 0,
        forall|i: int| 0 <= i < raw.len() ==> !white_space(#[trigger] raw[i]),
        rest.len() > 0 ==> white_space(rest[0]),
    ensures
        find_text(lower_case(raw), "speaker"@) is Some ==> span_in(line) == Some(
            (trim(from), to, raw),
        ),
        find_text(lower_case(raw), "speaker"@) is None ==> span_in(line) is None,
{
    reveal_strlit(" -- ");
    let s = trim(line);
    let behind = s.skip(from.len() as int + 4);
    let tail = space + raw + rest;
    assert(s.take(from.len() as int) =~= from);
    assert(behind =~= gap + to + tail);
    assert(tail[0] == space[0]);
    assert(white_space(space[0]));
    words_end_at_white_space(gap, to, tail);
    words_end_at_white_space(space, raw, rest);
}

/// A line without the two dashes gives no span.
pub proof fn a_line_without_dashes_gives_no_span(line: Seq<char>)
    requires
        find_text(trim(line), " -- "@) is None,
    ensures
        span_in(line) is None,
{
}

/// The program is told which models to use, how many speakers there are where that is known, and
/// which audio to listen to, in this order.
pub proof fn the_program_is_told_what_is_known(
    segmentation: Seq<char>,
    embedding: Seq<char>,
    known: Option<u8>,
    wav: Seq<char>,
)
    ensures
        ({
            let call = diarize_call(segmentation, embedding, known, wav);
            &&& call.len() == 5
            &&& call[0] == "--segmentation.pyannote-model="@ + segmentation
            &&& call[1] == "--embedding.model="@ + embedding
            &&& call[2] == "--num-threads=2"@
            &&& known is Some && known->0 > 0 ==> call[3] == "--clustering.num-clusters="@
                + decimal(known->0 as nat)
            &&& known is None || known == Some(0u8) ==> call[3]
                == "--clustering.cluster-threshold=0.5"@
            &&& call[4] == wav
        }),
{
}

/// The program succeeded only where it ended with code zero; else the last four lines of its error
/// output are told. Spans are taken from both of its outputs.
pub proof fn the_program_is_heard_out(v: DiarizeRunView, event: ProcessEvent)
    ensures
        match event {
            ProcessEvent::Stdout(line) | ProcessEvent::Stderr(line) => diarize_answer(v, event)
                == DiarizeActionView::Listen(span_in(line@)),
            ProcessEvent::Error(e) => diarize_answer(v, event) == DiarizeActionView::Finish(
                Err(DiarizeErrorView::Process(e@)),
            ),
            ProcessEvent::Closed => diarize_answer(v, event) == DiarizeActionView::Finish(
                if v.exit_code == Some(0i32) {
                    Ok(())
                } else {
                    Err(DiarizeErrorView::Process(tail_text(v.last_err, 4)))
                },
            ),
            _ => diarize_answer(v, event) == DiarizeActionView::Listen(None),
        },
        ({
            let w = diarize_heard(v, event);
            &&& event matches ProcessEvent::Stderr(line) ==> w.last_err == v.last_err + line@
                + seq!['\n']
            &&& !(event is Stderr) ==> w.last_err == v.last_err
            &&& event matches ProcessEvent::Terminated(code) ==> w.exit_code == code
            &&& !(event is Terminated) ==> w.exit_code == v.exit_code
        }),
{
    if let ProcessEvent::Stderr(line) = event {
        assert(diarize_heard(v, event).last_err =~= v.last_err + line@ + seq!['\n']);
    }
}

/// The message of an error names what went wrong and carries what is known of it.
pub proof fn errors_of_the_program_carry_their_causes(e: DiarizeError)
    ensures
        match e {
            DiarizeError::Process(x) => e@ == DiarizeErrorView::Process(x@) && e@.text()
                == "sherpa-diarize falló: "@ + x@,
            DiarizeError::NoOutput => e@ is NoOutput && e@.text()
                == "sherpa-diarize no devolvió tramos de hablante parseables"@,
            DiarizeError::Tauri(x) => e@ == DiarizeErrorView::Tauri(x@) && e@.text()
                == "Error de Tauri: "@ + x@,
        },
{
}

/// A span that was found is seen with its beginning, its end and its speaker.
pub proof fn found_spans_are_seen_as_they_are(a: DiarizeAction)
    ensures
        match a {
            DiarizeAction::Listen(Some(f)) => a@ == DiarizeActionView::Listen(
                Some((f.start@, f.end@, f.raw_speaker@)),
            ),
            DiarizeAction::Listen(None) => a@ == DiarizeActionView::Listen(None),
            DiarizeAction::Finish(Ok(())) => a@ == DiarizeActionView::Finish(Ok(())),
            DiarizeAction::Finish(Err(e)) => a@ == DiarizeActionView::Finish(Err(e@)),
        },
{
}

} // verus!
