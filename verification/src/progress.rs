//! How far a job has come, how long it will take, and when to say so.
//!
//! An engine without a graphics card may take twenty minutes for one point of progress. The
//! agent says every few seconds what it knows, so that slow never looks like stuck.
use crate::config::CLOUD_PROGRESS_MAX_INTERVAL_SECS;
use crate::text::{copy_opt, decimal, decimal_of, opt_text, push_two_digits, two_digits};
use crate::types::SECOND;
use crate::whisper::{ProgressTick, TickView};
use vstd::prelude::*;
use vstd::string::*;

verus! {

// ── Times in words ──────────────────────────────────────────────────────────

/// A number of seconds in words.
pub open spec fn seconds_words(total: nat) -> Seq<char> {
    let (h, m, s) = (total / 3600, (total % 3600) / 60, total % 60);
    if h > 0 {
        decimal(h) + " h "@ + two_digits(m) + " min"@
    } else if m > 0 {
        decimal(m) + " min "@ + two_digits(s) + " s"@
    } else {
        decimal(s) + " s"@
    }
}

/// A length of time in words.
pub open spec fn duration_words(time: int) -> Seq<char> {
    if time <= 0 {
        "duración desconocida"@
    } else {
        seconds_words((time / SECOND as int) as nat)
    }
}

fn fmt_seconds(total: u64) -> (r: String)
    ensures
        r@ == seconds_words(total as nat),
{
    let (h, m, s) = (total / 3600, (total % 3600) / 60, total % 60);
    if h > 0 {
        let mut out = decimal_of(h);
        out.append(" h ");
        push_two_digits(&mut out, m);
        out.append(" min");
        out
    } else if m > 0 {
        let mut out = decimal_of(m);
        out.append(" min ");
        push_two_digits(&mut out, s);
        out.append(" s");
        out
    } else {
        let mut out = decimal_of(s);
        out.append(" s");
        out
    }
}

/// A length of time in words, for the window and the log.
pub fn fmt_duration(time: i128) -> (r: String)
    ensures
        r@ == duration_words(time as int),
{
    if time <= 0 {
        return "duración desconocida".to_string();
    }
    fmt_seconds((time / SECOND) as u64)
}

/// The time that is left, as Amautum is told.
pub open spec fn eta_words(seconds: nat) -> Seq<char> {
    let (h, m) = (seconds / 3600, (seconds % 3600) / 60);
    if h > 0 {
        decimal(h) + "h "@ + two_digits(m) + "m"@
    } else if m > 0 {
        decimal(m) + "m"@
    } else {
        decimal(seconds) + "s"@
    }
}

/// The time that is left, as Amautum is told.
pub fn fmt_eta(seconds: u64) -> (r: String)
    ensures
        r@ == eta_words(seconds as nat),
{
    let h = seconds / 3600;
    let m = (seconds % 3600) / 60;
    if h > 0 {
        let mut out = decimal_of(h);
        out.append("h ");
        push_two_digits(&mut out, m);
        out.append("m");
        out
    } else if m > 0 {
        let mut out = decimal_of(m);
        out.append("m");
        out
    } else {
        let mut out = decimal_of(seconds);
        out.append("s");
        out
    }
}

// ── Progress of a job ───────────────────────────────────────────────────────

/// How far a job has come. Times are nanoseconds of a clock that never goes back.
pub struct ProgressState {
    percent: u8,
    note: Option<String>,
    /// When the engine last said something.
    engine_seen_at: u64,
    started_at: u64,
    last_cloud_push_at: u64,
    last_cloud_percent: u8,
}

/// How far a job has come, by its texts.
#[verifier::ext_equal]
pub struct ProgressView {
    pub percent: u8,
    pub note: Option<Seq<char>>,
    pub engine_seen_at: u64,
    pub started_at: u64,
    pub last_cloud_push_at: u64,
    pub last_cloud_percent: u8,
}

impl View for ProgressState {
    type V = ProgressView;

    closed spec fn view(&self) -> ProgressView {
        ProgressView {
            percent: self.percent,
            note: opt_text(self.note),
            engine_seen_at: self.engine_seen_at,
            started_at: self.started_at,
            last_cloud_push_at: self.last_cloud_push_at,
            last_cloud_percent: self.last_cloud_percent,
        }
    }
}

/// The time since `since`; none where the clock has not got there.
pub open spec fn elapsed(since: u64, now: u64) -> int {
    if now >= since {
        now - since
    } else {
        0
    }
}

/// The seconds that are left of a job, measured and not guessed: what is left takes as long by
/// the point as what is done did. There is nothing to measure by in the first five seconds, nor
/// before the second point, nor once all is done.
pub open spec fn eta_of(percent: u8, elapsed_ns: int) -> Option<int> {
    if percent < 2 || percent >= 100 || elapsed_ns < 5_000_000_000 {
        None
    } else {
        Some(elapsed_ns * (100 - percent) / (percent * 1_000_000_000))
    }
}

/// The seconds that are left of a job.
pub open spec fn eta(v: ProgressView, now: u64) -> Option<int> {
    eta_of(v.percent, elapsed(v.started_at, now))
}

/// An optional number of seconds.
pub open spec fn opt_secs(o: Option<u64>) -> Option<int> {
    match o {
        Some(n) => Some(n as int),
        None => None,
    }
}

/// What there is to say of a job.
#[derive(Debug)]
pub struct ProgressReport {
    pub percent: u8,
    pub note: Option<String>,
    pub eta_seconds: Option<u64>,
    /// Whether Amautum has to be told too.
    pub push: bool,
}

/// What there is to say of a job, by its texts.
#[verifier::ext_equal]
pub struct ReportView {
    pub percent: u8,
    pub note: Option<Seq<char>>,
    pub eta_seconds: Option<u64>,
    pub push: bool,
}

impl View for ProgressReport {
    type V = ReportView;

    open spec fn view(&self) -> ReportView {
        ReportView {
            percent: self.percent,
            note: opt_text(self.note),
            eta_seconds: self.eta_seconds,
            push: self.push,
        }
    }
}

/// The seconds that are left, as a machine number.
pub open spec fn eta_u64(v: ProgressView, now: u64) -> Option<u64> {
    match eta(v, now) {
        Some(n) => Some(n as u64),
        None => None,
    }
}

/// Whether Amautum has heard nothing for as long as it may.
pub open spec fn cloud_overdue(v: ProgressView, now: u64) -> bool {
    elapsed(v.last_cloud_push_at, now) / 1_000_000_000 >= CLOUD_PROGRESS_MAX_INTERVAL_SECS
}

/// Five points more, as far as they fit a byte.
pub open spec fn five_more(percent: u8) -> int {
    if percent + 5 > u8::MAX {
        u8::MAX as int
    } else {
        percent + 5
    }
}

/// Whether Amautum has to be told of `percent`: it grew by five points, or the job is done, or
/// Amautum has heard nothing for as long as it may.
pub open spec fn cloud_due(v: ProgressView, percent: u8, now: u64) -> bool {
    percent >= five_more(v.last_cloud_percent) || percent == 100 || cloud_overdue(v, now)
}

/// A job that the engine begins to work on. Amautum has just been told that it began.
pub open spec fn progress_start(now: u64) -> ProgressView {
    ProgressView {
        percent: 0,
        note: None,
        engine_seen_at: now,
        started_at: now,
        last_cloud_push_at: now,
        last_cloud_percent: 0,
    }
}

/// The greater of two percentages.
pub open spec fn further(a: u8, b: u8) -> u8 {
    if a >= b {
        a
    } else {
        b
    }
}

/// The progress once the engine has spoken. It never goes back: a bar that does alarms people.
pub open spec fn ticked(v: ProgressView, tick: TickView, now: u64) -> ProgressView {
    let percent = further(tick.percent, v.percent);
    let due = cloud_due(v, percent, now);
    ProgressView {
        percent,
        note: tick.note,
        engine_seen_at: now,
        last_cloud_percent: if due {
            percent
        } else {
            v.last_cloud_percent
        },
        last_cloud_push_at: if due {
            now
        } else {
            v.last_cloud_push_at
        },
        ..v
    }
}

/// What there is to say once the engine has spoken.
pub open spec fn tick_report(v: ProgressView, tick: TickView, now: u64) -> ReportView {
    let percent = further(tick.percent, v.percent);
    ReportView {
        percent,
        note: tick.note,
        eta_seconds: eta_u64(ProgressView { percent, ..v }, now),
        push: cloud_due(v, percent, now),
    }
}

/// How long the engine may be silent before it is said, in seconds.
pub const SILENCE_WORTH_SAYING_SECS: u64 = 60;

/// What is said while the engine says nothing: how long it has said nothing, once that is worth
/// saying.
pub open spec fn silence_note(note: Option<Seq<char>>, silent_secs: int) -> Option<Seq<char>> {
    if silent_secs < SILENCE_WORTH_SAYING_SECS {
        note
    } else {
        match note {
            Some(n) => Some(
                n + " · el motor no reporta desde hace "@ + duration_words(silent_secs * SECOND),
            ),
            None => Some(
                "El motor sigue trabajando; reporta cada 5% y lleva "@ + duration_words(
                    silent_secs * SECOND,
                ) + " sin reportar"@,
            ),
        }
    }
}

/// The progress once the agent has said again what it knows.
pub open spec fn beaten(v: ProgressView, now: u64) -> ProgressView {
    if cloud_overdue(v, now) {
        ProgressView { last_cloud_push_at: now, ..v }
    } else {
        v
    }
}

/// What there is to say while the engine says nothing.
pub open spec fn beat_report(v: ProgressView, now: u64) -> ReportView {
    ReportView {
        percent: v.percent,
        note: silence_note(v.note, elapsed(v.engine_seen_at, now) / 1_000_000_000),
        eta_seconds: eta_u64(v, now),
        push: cloud_overdue(v, now),
    }
}

fn since(then: u64, now: u64) -> (r: u64)
    ensures
        r == elapsed(then, now),
{
    if now >= then {
        now - then
    } else {
        0
    }
}

/// The seconds that are left fit the machine.
proof fn lemma_eta_fits(percent: u8, elapsed_ns: int)
    requires
        0 <= elapsed_ns <= u64::MAX,
        2 <= percent < 100,
    ensures
        0 <= elapsed_ns * (100 - percent) / (percent * 1_000_000_000) <= u64::MAX,
        0 <= elapsed_ns * (100 - percent) <= u64::MAX * 100,
{
    let left = 100 - percent;
    let d = percent * 1_000_000_000;
    assert(0 <= elapsed_ns * left <= u64::MAX * 100) by (nonlinear_arith)
        requires
            0 <= elapsed_ns <= u64::MAX,
            0 <= left <= 100,
    ;
    assert(0 <= elapsed_ns * left <= elapsed_ns * d) by (nonlinear_arith)
        requires
            0 <= elapsed_ns,
            0 <= left <= d,
    ;
    assert(0 <= elapsed_ns * left / d <= elapsed_ns) by (nonlinear_arith)
        requires
            0 <= elapsed_ns * left <= elapsed_ns * d,
            d > 0,
    ;
}

impl ProgressState {
    /// The progress of a job that the engine begins to work on.
    pub fn start(now: u64) -> (r: ProgressState)
        ensures
            r@ == progress_start(now),
    {
        ProgressState {
            percent: 0,
            note: None,
            engine_seen_at: now,
            started_at: now,
            last_cloud_push_at: now,
            last_cloud_percent: 0,
        }
    }

    /// The seconds that are left of the job.
    pub fn eta_seconds(&self, now: u64) -> (r: Option<u64>)
        ensures
            opt_secs(r) == eta(self@, now),
            r == eta_u64(self@, now),
    {
        if self.percent < 2 || self.percent >= 100 {
            return None;
        }
        let elapsed_ns = since(self.started_at, now);
        if elapsed_ns < 5_000_000_000 {
            return None;
        }
        proof {
            lemma_eta_fits(self.percent, elapsed_ns as int);
        }
        let left: u128 = (elapsed_ns as u128) * ((100 - self.percent) as u128);
        let secs: u128 = left / ((self.percent as u128) * 1_000_000_000);
        Some(secs as u64)
    }

    /// Takes what the engine said, and says what there is to pass on.
    pub fn tick(&mut self, tick: &ProgressTick, now: u64) -> (r: ProgressReport)
        ensures
            final(self)@ == ticked(old(self)@, tick@, now),
            r@ == tick_report(old(self)@, tick@, now),
    {
        if tick.percent > self.percent {
            self.percent = tick.percent;
        }
        self.note = copy_opt(&tick.note);
        self.engine_seen_at = now;
        let eta_seconds = self.eta_seconds(now);
        let push = self.percent >= self.last_cloud_percent.saturating_add(5) || since(
            self.last_cloud_push_at,
            now,
        ) / 1_000_000_000 >= CLOUD_PROGRESS_MAX_INTERVAL_SECS || self.percent == 100;
        if push {
            self.last_cloud_percent = self.percent;
            self.last_cloud_push_at = now;
        }
        assert(self@ =~= ticked(old(self)@, tick@, now));
        ProgressReport { percent: self.percent, note: copy_opt(&self.note), eta_seconds, push }
    }

    /// Says again what is known, and how long the engine has said nothing.
    pub fn heartbeat(&mut self, now: u64) -> (r: ProgressReport)
        ensures
            final(self)@ == beaten(old(self)@, now),
            r@ == beat_report(old(self)@, now),
    {
        let eta_seconds = self.eta_seconds(now);
        let silent_secs = since(self.engine_seen_at, now) / 1_000_000_000;
        let push = since(self.last_cloud_push_at, now) / 1_000_000_000 >= CLOUD_PROGRESS_MAX_INTERVAL_SECS;
        if push {
            self.last_cloud_push_at = now;
        }
        let note = note_of_silence(&self.note, silent_secs);
        assert(self@ =~= beaten(old(self)@, now));
        ProgressReport { percent: self.percent, note, eta_seconds, push }
    }
}

fn note_of_silence(note: &Option<String>, silent_secs: u64) -> (r: Option<String>)
    ensures
        opt_text(r) == silence_note(opt_text(*note), silent_secs as int),
{
    if silent_secs < SILENCE_WORTH_SAYING_SECS {
        return copy_opt(note);
    }
    match note {
        Some(n) => {
            let mut out = n.clone();
            out.append(" · el motor no reporta desde hace ");
            out.append(fmt_seconds(silent_secs).as_str());
            Some(out)
        },
        None => {
            let mut out = "El motor sigue trabajando; reporta cada 5% y lleva ".to_string();
            out.append(fmt_seconds(silent_secs).as_str());
            out.append(" sin reportar");
            Some(out)
        },
    }
}

// ── Laws ────────────────────────────────────────────────────────────────────

/// The percentage of a job never goes back, whatever the engine says, and a heartbeat leaves it
/// as it is.
pub proof fn progress_never_goes_back(v: ProgressView, tick: TickView, now: u64)
    ensures
        ticked(v, tick, now).percent >= v.percent,
        ticked(v, tick, now).percent >= tick.percent,
        tick_report(v, tick, now).percent == ticked(v, tick, now).percent,
        beaten(v, now).percent == v.percent,
        beat_report(v, now).percent == v.percent,
{
}

/// Amautum never goes without news for longer than it may: once it is overdue, both the next
/// tick and the next heartbeat tell it, and the count begins anew.
pub proof fn amautum_hears_in_time(v: ProgressView, tick: TickView, now: u64)
    requires
        cloud_overdue(v, now),
    ensures
        tick_report(v, tick, now).push,
        beat_report(v, now).push,
        ticked(v, tick, now).last_cloud_push_at == now,
        beaten(v, now).last_cloud_push_at == now,
        !cloud_overdue(ticked(v, tick, now), now),
        !cloud_overdue(beaten(v, now), now),
{
}

/// The further a job has come in a given time, the less is left of it; and it takes longer in
/// the same measure as it has taken longer so far.
pub proof fn eta_follows_the_pace(p: u8, q: u8, ns: int, longer: int)
    requires
        2 <= p <= q < 100,
        5_000_000_000 <= ns <= longer,
    ensures
        eta_of(q, ns)->0 <= eta_of(p, ns)->0,
        eta_of(p, ns)->0 <= eta_of(p, longer)->0,
        eta_of(p, ns)->0 >= 0,
{
    let (pi, qi) = (p as int, q as int);
    assert(ns * (100 - qi) / (qi * 1_000_000_000) <= ns * (100 - pi) / (pi * 1_000_000_000)) by (nonlinear_arith)
        requires
            2 <= pi <= qi < 100,
            0 <= ns,
    {
        let a = ns * (100 - qi);
        let b = ns * (100 - pi);
        assert(0 <= a <= b);
        assert(a / (qi * 1_000_000_000) <= b / (qi * 1_000_000_000));
        assert(b / (qi * 1_000_000_000) <= b / (pi * 1_000_000_000));
    }
    assert(ns * (100 - pi) / (pi * 1_000_000_000) <= longer * (100 - pi) / (pi * 1_000_000_000)) by (nonlinear_arith)
        requires
            2 <= pi < 100,
            0 <= ns <= longer,
    {
        assert(ns * (100 - pi) <= longer * (100 - pi));
    }
    assert(ns * (100 - pi) / (pi * 1_000_000_000) >= 0) by (nonlinear_arith)
        requires
            2 <= pi < 100,
            0 <= ns,
    {
        assert(ns * (100 - pi) >= 0);
    }
}

/// The time that is left is what is left of the work at the pace so far, in whole seconds rounded
/// down; `ns` is the time so far. Of a job that has hardly begun or is done nothing is said.
pub proof fn the_time_left_is_extrapolated(percent: u8, ns: int)
    requires
        0 <= ns,
    ensures
        eta_of(percent, ns) is Some <==> 2 <= percent < 100 && ns >= 5_000_000_000,
        eta_of(percent, ns) matches Some(secs) ==> secs * 1_000_000_000 * percent <= ns * (100
            - percent) < (secs + 1) * 1_000_000_000 * percent,
{
    if 2 <= percent < 100 {
        let d = percent * 1_000_000_000;
        let a = ns * (100 - percent);
        assert((a / d) * d <= a < (a / d + 1) * d) by (nonlinear_arith)
            requires
                d > 0,
        ;
        let q = a / d;
        let p = percent as int;
        assert(q * d == q * 1_000_000_000 * p && (q + 1) * d == (q + 1) * 1_000_000_000 * p)
            by (nonlinear_arith)
            requires
                d == p * 1_000_000_000,
        ;
    }
}

/// Time is counted from then to now, and is none where now is before then.
pub proof fn time_is_counted_forward(then: u64, now: u64)
    ensures
        now >= then ==> elapsed(then, now) == now - then,
        now < then ==> elapsed(then, now) == 0,
{
}

/// What the engine says is taken up: its note, and its percentage where it is higher. Amautum is
/// told where the percentage has grown by five since it was told last, where all is done, and where
/// it has heard nothing for two minutes; only then is it noted what it was told, and when.
pub proof fn a_tick_is_taken_up(v: ProgressView, tick: TickView, now: u64)
    ensures
        ({
            let w = ticked(v, tick, now);
            let report = tick_report(v, tick, now);
            let percent = if tick.percent > v.percent {
                tick.percent
            } else {
                v.percent
            };
            let overdue = elapsed(v.last_cloud_push_at, now) >= 120_000_000_000;
            &&& w.percent == percent
            &&& report.percent == percent
            &&& w.note == tick.note
            &&& report.note == tick.note
            &&& w.engine_seen_at == now
            &&& w.started_at == v.started_at
            &&& v.last_cloud_percent <= 250 ==> (report.push <==> percent >= v.last_cloud_percent + 5
                || percent == 100 || overdue)
            &&& report.push ==> w.last_cloud_percent == percent && w.last_cloud_push_at == now
            &&& !report.push ==> w.last_cloud_percent == v.last_cloud_percent
                && w.last_cloud_push_at == v.last_cloud_push_at
            &&& report.eta_seconds == eta_u64(w, now)
        }),
{
}

/// A heartbeat repeats what is known and adds how long the engine has been silent, once that is a
/// minute. Amautum is told where it has heard nothing for two minutes. Nothing that the engine said
/// changes.
pub proof fn a_heartbeat_repeats_what_is_known(v: ProgressView, now: u64)
    ensures
        ({
            let w = beaten(v, now);
            let report = beat_report(v, now);
            let silent = elapsed(v.engine_seen_at, now) / 1_000_000_000;
            &&& report.push <==> elapsed(v.last_cloud_push_at, now) >= 120_000_000_000
            &&& report.percent == v.percent
            &&& report.eta_seconds == eta_u64(v, now)
            &&& silent < 60 ==> report.note == v.note
            &&& silent >= 60 && v.note is Some ==> report.note == Some(
                v.note->0 + " · el motor no reporta desde hace "@ + seconds_words(silent as nat),
            )
            &&& silent >= 60 && v.note is None ==> report.note == Some(
                "El motor sigue trabajando; reporta cada 5% y lleva "@ + seconds_words(
                    silent as nat,
                ) + " sin reportar"@,
            )
            &&& w.last_cloud_push_at == (if report.push {
                now
            } else {
                v.last_cloud_push_at
            })
            &&& w.percent == v.percent
            &&& w.note == v.note
            &&& w.engine_seen_at == v.engine_seen_at
            &&& w.started_at == v.started_at
            &&& w.last_cloud_percent == v.last_cloud_percent
        }),
{
    let silent = elapsed(v.engine_seen_at, now) / 1_000_000_000;
    assert(silent * SECOND / SECOND as int == silent);
}

/// A job that the engine begins with has come to nothing, and all its clocks start now.
pub proof fn progress_starts_now(now: u64)
    ensures
        progress_start(now).percent == 0,
        progress_start(now).note is None,
        progress_start(now).engine_seen_at == now,
        progress_start(now).started_at == now,
        progress_start(now).last_cloud_push_at == now,
        progress_start(now).last_cloud_percent == 0,
{
}

/// The time left as a machine number is the time left.
pub proof fn the_time_left_fits(v: ProgressView, now: u64)
    ensures
        eta_u64(v, now) is Some <==> eta(v, now) is Some,
        eta_u64(v, now) matches Some(n) ==> n == eta(v, now)->0,
        eta(v, now) == eta_of(v.percent, elapsed(v.started_at, now)),
{
    if 2 <= v.percent < 100 {
        lemma_eta_fits(v.percent, elapsed(v.started_at, now));
    }
}

/// A length of time in words: hours and minutes, or minutes and seconds, or seconds, whichever
/// comes first to anything; the smaller part has two digits.
pub proof fn times_are_told_in_words(h: nat, m: nat, s: nat)
    requires
        m < 60,
        s < 60,
    ensures
        ({
            let total = h * 3600 + m * 60 + s;
            &&& h > 0 ==> seconds_words(total) == decimal(h) + " h "@ + two_digits(m) + " min"@
            &&& h == 0 && m > 0 ==> seconds_words(total) == decimal(m) + " min "@ + two_digits(s)
                + " s"@
            &&& h == 0 && m == 0 ==> seconds_words(total) == decimal(s) + " s"@
            &&& h > 0 ==> eta_words(total) == decimal(h) + "h "@ + two_digits(m) + "m"@
            &&& h == 0 && m > 0 ==> eta_words(total) == decimal(m) + "m"@
            &&& h == 0 && m == 0 ==> eta_words(total) == decimal(s) + "s"@
        }),
{
    let total = h * 3600 + m * 60 + s;
    assert(total / 3600 == h);
    assert(total % 3600 == m * 60 + s);
    assert((total % 3600) / 60 == m);
    assert(total % 60 == s);
}

/// A length is told in whole seconds, rounded down, and as unknown where it is none.
pub proof fn lengths_are_told_in_whole_seconds(time: int, secs: int)
    requires
        secs * SECOND <= time < (secs + 1) * SECOND,
    ensures
        time > 0 ==> duration_words(time) == seconds_words(secs as nat),
        time <= 0 ==> duration_words(time) == "duración desconocida"@,
{
    assert(time / SECOND as int == secs);
}

} // verus!
