//! The converter that turns any audio into what the engine takes: WAV, 16 kHz, one channel.
use crate::config::{WHISPER_CHANNELS, WHISPER_SAMPLE_RATE};
use crate::process::{push_line, with_line, ProcessEvent};
use crate::text::{
    blank, chars_of, decimal, decimal_of, find_char, find_char_from, lemma_find_char,
    lemma_trim_start_skips, lines, lines_end_at_line_feeds, lines_of, prefixed, push_three_digits,
    slice_string, starts_with, starts_with_at, tail, tail_text, texts, three_digits, trim,
    trim_start, trim_start_at, trimmed,
};
use crate::types::SECOND;
use vstd::prelude::*;
use vstd::string::*;

verus! {

/// What can go wrong with the converter. A path is given as it is shown, and errors of the
/// system by their messages.
#[derive(Debug)]
pub enum FfmpegError {
    NotFound(String),
    Process(String),
    Io(String),
    Tauri(String),
}

/// An error by its texts.
pub enum FfmpegErrorView {
    NotFound(Seq<char>),
    Process(Seq<char>),
    Io(Seq<char>),
    Tauri(Seq<char>),
}

impl View for FfmpegError {
    type V = FfmpegErrorView;

    open spec fn view(&self) -> FfmpegErrorView {
        match *self {
            FfmpegError::NotFound(path) => FfmpegErrorView::NotFound(path@),
            FfmpegError::Process(e) => FfmpegErrorView::Process(e@),
            FfmpegError::Io(e) => FfmpegErrorView::Io(e@),
            FfmpegError::Tauri(e) => FfmpegErrorView::Tauri(e@),
        }
    }
}

impl FfmpegErrorView {
    /// The message of the error.
    pub open spec fn text(self) -> Seq<char> {
        match self {
            FfmpegErrorView::NotFound(path) => "El archivo de audio no existe: "@ + path,
            FfmpegErrorView::Process(e) => "Falló FFmpeg: "@ + e,
            FfmpegErrorView::Io(e) => "Error de E/S: "@ + e,
            FfmpegErrorView::Tauri(e) => "Error de Tauri: "@ + e,
        }
    }
}

impl FfmpegError {
    /// The message of the error.
    pub fn message(&self) -> (r: String)
        ensures
            r@ == self@.text(),
    {
        match self {
            FfmpegError::NotFound(path) => prefixed(
                "El archivo de audio no existe: ",
                path.as_str(),
            ),
            FfmpegError::Process(e) => prefixed("Falló FFmpeg: ", e.as_str()),
            FfmpegError::Io(e) => prefixed("Error de E/S: ", e.as_str()),
            FfmpegError::Tauri(e) => prefixed("Error de Tauri: ", e.as_str()),
        }
    }
}

/// The audio as the engine takes it.
#[derive(Debug)]
pub struct Preprocessed {
    /// Where the converted audio is.
    pub wav_path: String,
    /// How long it is; zero where the converter did not say.
    pub duration: i128,
}

// ── Calling the converter ───────────────────────────────────────────────────

/// The arguments that convert `source` into `output`.
pub open spec fn convert_call(source: Seq<char>, output: Seq<char>) -> Seq<Seq<char>> {
    seq![
        "-y"@,
        "-i"@,
        source,
        "-vn"@,
        "-ac"@,
        decimal(WHISPER_CHANNELS as nat),
        "-ar"@,
        decimal(WHISPER_SAMPLE_RATE as nat),
        "-f"@,
        "wav"@,
        "-acodec"@,
        "pcm_s16le"@,
        output,
    ]
}

/// The arguments that convert `source` into `output`: without asking, without video, one
/// channel, 16 kHz, 16 bits.
pub fn convert_args(source: &str, output: &str) -> (r: Vec<String>)
    ensures
        texts(r@) == convert_call(source@, output@),
{
    let mut args: Vec<String> = Vec::new();
    args.push("-y".to_string());
    args.push("-i".to_string());
    args.push(source.to_string());
    args.push("-vn".to_string());
    args.push("-ac".to_string());
    args.push(decimal_of(WHISPER_CHANNELS as u64));
    args.push("-ar".to_string());
    args.push(decimal_of(WHISPER_SAMPLE_RATE as u64));
    args.push("-f".to_string());
    args.push("wav".to_string());
    args.push("-acodec".to_string());
    args.push("pcm_s16le".to_string());
    args.push(output.to_string());
    assert(texts(args@) =~= convert_call(source@, output@));
    args
}

/// The thousandths of a second that lie nearest to `time`; of two that lie as near, the even one.
pub open spec fn thousandths(time: nat) -> nat {
    let below = time * 1000 / (SECOND as nat);
    let rest = time * 1000 % (SECOND as nat);
    if 2 * rest > SECOND || (2 * rest == SECOND && below % 2 == 1) {
        below + 1
    } else {
        below
    }
}

/// A time in seconds with three decimals.
pub open spec fn seconds_text(time: nat) -> Seq<char> {
    decimal(thousandths(time) / 1000) + "."@ + three_digits(thousandths(time) % 1000)
}

/// A time in seconds with three decimals.
pub fn seconds_of(time: u128) -> (r: String)
    requires
        time <= i128::MAX,
    ensures
        r@ == seconds_text(time as nat),
{
    let second = SECOND as u128;
    let whole = time / second;
    let part = (time % second) * 1000;
    let below = part / second;
    let rest = part % second;
    let up: u128 = if 2 * rest > second || (2 * rest == second && below % 2 == 1) {
        1
    } else {
        0
    };
    let ms = whole * 1000 + below + up;
    proof {
        vstd::arithmetic::div_mod::lemma_fundamental_div_mod_converse(
            time * 1000,
            SECOND as int,
            whole * 1000 + below,
            rest as int,
        );
        assert(ms == thousandths(time as nat));
    }
    let mut out = decimal_of((ms / 1000) as u64);
    out.append(".");
    push_three_digits(&mut out, (ms % 1000) as u64);
    out
}

/// The arguments that cut a piece out of `source`.
pub open spec fn chunk_call(
    source: Seq<char>,
    start: nat,
    duration: nat,
    output: Seq<char>,
) -> Seq<Seq<char>> {
    seq![
        "-y"@,
        "-ss"@,
        seconds_text(start),
        "-i"@,
        source,
        "-t"@,
        seconds_text(duration),
        "-c"@,
        "copy"@,
        output,
    ]
}

/// The arguments that cut a piece out of `source`, without encoding it again.
pub fn chunk_args(source: &str, start: u128, duration: u128, output: &str) -> (r: Vec<String>)
    requires
        start <= i128::MAX,
        duration <= i128::MAX,
    ensures
        texts(r@) == chunk_call(source@, start as nat, duration as nat, output@),
{
    let mut args: Vec<String> = Vec::new();
    args.push("-y".to_string());
    args.push("-ss".to_string());
    args.push(seconds_of(start));
    args.push("-i".to_string());
    args.push(source.to_string());
    args.push("-t".to_string());
    args.push(seconds_of(duration));
    args.push("-c".to_string());
    args.push("copy".to_string());
    args.push(output.to_string());
    assert(texts(args@) =~= chunk_call(source@, start as nat, duration as nat, output@));
    args
}

// ── Listening to the converter ──────────────────────────────────────────────

/// The last lines of what the converter wrote: it is where it says why it failed.
pub fn extract_ffmpeg_error(stderr: &str) -> (r: String)
    ensures
        r@ == tail_text(stderr@, 3),
{
    tail(stderr, 3)
}

/// What has been heard of the converter.
pub struct FfmpegRun {
    stderr: String,
    exit_code: Option<i32>,
}

/// What has been heard of the converter, by its texts.
#[verifier::ext_equal]
pub struct FfmpegRunView {
    pub stderr: Seq<char>,
    pub exit_code: Option<i32>,
}

impl View for FfmpegRun {
    type V = FfmpegRunView;

    closed spec fn view(&self) -> FfmpegRunView {
        FfmpegRunView { stderr: self.stderr@, exit_code: self.exit_code }
    }
}

/// What has been heard once `event` has.
pub open spec fn ffmpeg_heard(v: FfmpegRunView, event: ProcessEvent) -> FfmpegRunView {
    match event {
        ProcessEvent::Stderr(line) => FfmpegRunView { stderr: with_line(v.stderr, line@), ..v },
        ProcessEvent::Terminated(code) => FfmpegRunView { exit_code: code, ..v },
        _ => v,
    }
}

/// What the run comes to with `event`; nothing while it goes on.
pub open spec fn ffmpeg_verdict(v: FfmpegRunView, event: ProcessEvent) -> Option<
    Result<(), FfmpegErrorView>,
> {
    match event {
        ProcessEvent::Error(e) => Some(Err(FfmpegErrorView::Process(e@))),
        ProcessEvent::Closed => Some(
            if v.exit_code == Some(0i32) {
                Ok(())
            } else {
                Err(FfmpegErrorView::Process(tail_text(v.stderr, 3)))
            },
        ),
        _ => None,
    }
}

/// A verdict by its texts.
pub open spec fn verdict_view(r: Option<Result<(), FfmpegError>>) -> Option<
    Result<(), FfmpegErrorView>,
> {
    match r {
        Some(Ok(())) => Some(Ok(())),
        Some(Err(e)) => Some(Err(e@)),
        None => None,
    }
}

impl FfmpegRun {
    /// A run that has just begun.
    pub fn new() -> (r: FfmpegRun)
        ensures
            r@ == (FfmpegRunView { stderr: Seq::empty(), exit_code: None }),
    {
        let r = FfmpegRun { stderr: String::new(), exit_code: None };
        assert(r@ =~= (FfmpegRunView { stderr: Seq::empty(), exit_code: None }));
        r
    }

    /// Takes what was heard, and says what the run comes to once it is over.
    pub fn hear(&mut self, event: ProcessEvent) -> (r: Option<Result<(), FfmpegError>>)
        ensures
            final(self)@ == ffmpeg_heard(old(self)@, event),
            verdict_view(r) == ffmpeg_verdict(old(self)@, event),
    {
        match event {
            ProcessEvent::Stderr(line) => {
                push_line(&mut self.stderr, line.as_str());
                None
            },
            ProcessEvent::Terminated(code) => {
                self.exit_code = code;
                None
            },
            ProcessEvent::Error(e) => Some(Err(FfmpegError::Process(e))),
            ProcessEvent::Closed => {
                if let Some(code) = self.exit_code {
                    if code == 0 {
                        return Some(Ok(()));
                    }
                }
                Some(Err(FfmpegError::Process(extract_ffmpeg_error(self.stderr.as_str()))))
            },
            _ => None,
        }
    }

    /// How long the audio is, as the converter wrote it; nothing where it did not say.
    pub fn duration(&self) -> (r: Option<String>)
        ensures
            crate::text::opt_text(r) == duration_token(self@.stderr),
    {
        duration_text(self.stderr.as_str())
    }
}

/// The duration that a line reports: what stands between `Duration:` and the next comma.
pub open spec fn duration_in(line: Seq<char>) -> Option<Seq<char>> {
    let s = trim_start(line);
    if starts_with(s, "Duration:"@) {
        let rest = s.skip("Duration:"@.len() as int);
        Some(trim(rest.take(find_char(rest, ',') as int)))
    } else {
        None
    }
}

/// The duration that the first of `all` to report one reports.
pub open spec fn first_duration(all: Seq<Seq<char>>) -> Option<Seq<char>>
    decreases all.len(),
{
    if all.len() == 0 {
        None
    } else if duration_in(all[0]) is Some {
        duration_in(all[0])
    } else {
        first_duration(all.drop_first())
    }
}

/// The duration that the converter reported.
pub open spec fn duration_token(stderr: Seq<char>) -> Option<Seq<char>> {
    first_duration(lines(stderr))
}

#[verifier::spinoff_prover]
fn duration_of_line(line: &str) -> (r: Option<String>)
    ensures
        crate::text::opt_text(r) == duration_in(line@),
{
    let v = chars_of(line);
    let word = chars_of("Duration:");
    let at = trim_start_at(&v, 0, v.len());
    assert(v@.subrange(0, v@.len() as int) =~= v@);
    assert(v@.subrange(at as int, v@.len() as int) =~= v@.skip(at as int));
    let ghost s = trim_start(line@);
    assert(s =~= v@.skip(at as int));
    if !starts_with_at(&v, at, &word) {
        return None;
    }
    let from = at + word.len();
    let ghost rest = s.skip(word@.len() as int);
    assert(rest =~= v@.skip(from as int));
    let end = find_char_from(&v, from, ',');
    let part = slice_string(&v, from, end);
    assert(part@ =~= rest.take(find_char(rest, ',') as int));
    Some(trimmed(part.as_str()))
}

/// The duration that the converter reported, such as `00:42:13.50`.
pub fn duration_text(stderr: &str) -> (r: Option<String>)
    ensures
        crate::text::opt_text(r) == duration_token(stderr@),
{
    let all = lines_of(stderr);
    let ghost every = lines(stderr@);
    let mut i: usize = 0;
    assert(every.skip(0) =~= every);
    while i < all.len()
        invariant
            i <= all@.len(),
            every == texts(all@),
            every == lines(stderr@),
            first_duration(every) == first_duration(every.skip(i as int)),
        decreases all@.len() - i,
    {
        assert(every.skip(i as int).drop_first() =~= every.skip(i + 1));
        assert(every.skip(i as int)[0] == all@[i as int]@);
        let found = duration_of_line(all[i].as_str());
        if found.is_some() {
            return found;
        }
        i += 1;
    }
    assert(every.skip(i as int) =~= Seq::empty());
    None
}

// ── Laws ────────────────────────────────────────────────────────────────────

/// A time is rounded to the nearest thousandth of a second, and to the even one where two lie as
/// near; the text has three decimals.
pub proof fn times_are_rounded_to_the_nearest(time: nat)
    ensures
        ({
            let ms = thousandths(time) as int;
            &&& -(SECOND as int) <= 2 * (time * 1000 - ms * SECOND) <= SECOND
            &&& (2 * (time * 1000 - ms * SECOND) == SECOND || 2 * (time * 1000 - ms * SECOND)
                == -(SECOND as int)) ==> ms % 2 == 0
            &&& seconds_text(time) == decimal((ms / 1000) as nat) + "."@ + three_digits(
                (ms % 1000) as nat,
            )
        }),
{
    let all = (time * 1000) as int;
    let second = SECOND as int;
    let below = all / second;
    let rest = all % second;
    vstd::arithmetic::div_mod::lemma_fundamental_div_mod(all, second);
    assert(all == second * below + rest);
    assert((below + 1) * second == second * below + second) by (nonlinear_arith);
    assert(below * second == second * below) by (nonlinear_arith);
}

/// The converter is asked for one channel of sixteen thousand samples a second, without video, and
/// is given what to read and where to write.
pub proof fn the_converter_is_called_with_what_it_needs(source: Seq<char>, output: Seq<char>)
    ensures
        ({
            let call = convert_call(source, output);
            &&& call.len() == 13
            &&& call[0] == "-y"@
            &&& call[1] == "-i"@ && call[2] == source
            &&& call[3] == "-vn"@
            &&& call[4] == "-ac"@ && call[5] == "1"@
            &&& call[6] == "-ar"@ && call[7] == "16000"@
            &&& call[8] == "-f"@ && call[9] == "wav"@
            &&& call[10] == "-acodec"@ && call[11] == "pcm_s16le"@
            &&& call[12] == output
        }),
{
    reveal_strlit("1");
    reveal_strlit("16000");
    reveal_with_fuel(decimal, 5);
    assert(decimal(1) =~= "1"@);
    assert(decimal(16_000) =~= "16000"@);
}

/// A piece is cut from where it begins, for as long as it is, without encoding it again.
pub proof fn a_piece_is_cut_where_it_lies(
    source: Seq<char>,
    start: nat,
    duration: nat,
    output: Seq<char>,
)
    ensures
        ({
            let call = chunk_call(source, start, duration, output);
            &&& call.len() == 10
            &&& call[0] == "-y"@
            &&& call[1] == "-ss"@ && call[2] == seconds_text(start)
            &&& call[3] == "-i"@ && call[4] == source
            &&& call[5] == "-t"@ && call[6] == seconds_text(duration)
            &&& call[7] == "-c"@ && call[8] == "copy"@
            &&& call[9] == output
        }),
{
}

/// The converter succeeded only where it ended with code zero; else the last three lines of its
/// error output are told. Its error output is kept, in order.
pub proof fn the_converter_is_heard_out(v: FfmpegRunView, event: ProcessEvent)
    ensures
        match event {
            ProcessEvent::Error(e) => ffmpeg_verdict(v, event) == Some(
                Err::<(), FfmpegErrorView>(FfmpegErrorView::Process(e@)),
            ),
            ProcessEvent::Closed => {
                &&& v.exit_code == Some(0i32) ==> ffmpeg_verdict(v, event) == Some(
                    Ok::<(), FfmpegErrorView>(()),
                )
                &&& v.exit_code != Some(0i32) ==> ffmpeg_verdict(v, event) == Some(
                    Err::<(), FfmpegErrorView>(FfmpegErrorView::Process(tail_text(v.stderr, 3))),
                )
            },
            _ => ffmpeg_verdict(v, event) is None,
        },
        ({
            let w = ffmpeg_heard(v, event);
            &&& event matches ProcessEvent::Stderr(line) ==> w.stderr == v.stderr + line@
                + seq!['\n']
            &&& !(event is Stderr) ==> w.stderr == v.stderr
            &&& event matches ProcessEvent::Terminated(code) ==> w.exit_code == code
            &&& !(event is Terminated) ==> w.exit_code == v.exit_code
        }),
{
    if let ProcessEvent::Stderr(line) = event {
        assert(ffmpeg_heard(v, event).stderr =~= v.stderr + line@ + seq!['\n']);
    }
}

/// A line reports a duration where it begins with the word, after white space or none: what stands
/// behind the word up to the next comma, trimmed. The first line that reports one counts.
pub proof fn a_duration_stands_before_the_comma(
    before: Seq<char>,
    token: Seq<char>,
    rest: Seq<char>,
    line: Seq<char>,
    lines_behind: Seq<Seq<char>>,
)
    requires
        blank(before),
        !token.contains(','),
    ensures
        duration_in(before + "Duration:"@ + token) == Some(trim(token)),
        duration_in(before + "Duration:"@ + (token.push(',') + rest)) == Some(trim(token)),
        !starts_with(trim_start(line), "Duration:"@) ==> duration_in(line) is None,
        first_duration(Seq::empty()) is None,
        first_duration(seq![line] + lines_behind) == (if duration_in(line) is Some {
            duration_in(line)
        } else {
            first_duration(lines_behind)
        }),
{
    reveal_strlit("Duration:");
    let word = "Duration:"@;
    assert((seq![line] + lines_behind).drop_first() =~= lines_behind);
    lemma_find_char(token, ',');
    if find_char(token, ',') < token.len() {
        assert(token.contains(','));
    }
    let short = word + token;
    assert(before + word + token =~= before + short);
    lemma_trim_start_skips(before, short);
    assert(short.take(word.len() as int) =~= word);
    assert(short.skip(word.len() as int) =~= token);
    assert(token.take(token.len() as int) =~= token);
    let behind = token.push(',') + rest;
    let long = word + behind;
    assert(before + word + behind =~= before + long);
    lemma_trim_start_skips(before, long);
    assert(long.take(word.len() as int) =~= word);
    assert(long.skip(word.len() as int) =~= behind);
    lemma_find_char(behind, ',');
    let at = find_char(behind, ',');
    assert(behind[token.len() as int] == ',');
    if at < token.len() {
        assert(token[at as int] == behind[at as int]);
        assert(token.contains(','));
    }
    assert(behind.take(at as int) =~= token);
}

/// What the converter wrote is searched line by line, from the first line on: the first one that
/// reports a duration counts, whether or not a carriage return stands before its line feed.
pub proof fn the_duration_is_searched_line_by_line(line: Seq<char>, rest: Seq<char>)
    requires
        !line.contains('\n'),
        line.len() > 0 ==> line.last() != '\r',
    ensures
        duration_token(Seq::empty()) is None,
        line.len() > 0 ==> duration_token(line) == duration_in(line),
        duration_token(line.push('\n') + rest) == (if duration_in(line) is Some {
            duration_in(line)
        } else {
            duration_token(rest)
        }),
        duration_token(line.push('\r').push('\n') + rest) == duration_token(
            line.push('\n') + rest,
        ),
{
    lines_end_at_line_feeds(Seq::empty(), rest);
    lines_end_at_line_feeds(line, rest);
    let with_return = line.push('\r');
    assert(!with_return.contains('\n')) by {
        if with_return.contains('\n') {
            let i = choose|i: int| 0 <= i < with_return.len() && with_return[i] == '\n';
            assert(i < line.len());
            assert(line[i] == '\n');
        }
    }
    lines_end_at_line_feeds(with_return, rest);
    assert(with_return.drop_last() =~= line);
    reveal_with_fuel(first_duration, 2);
    assert((seq![line] + lines(rest)).drop_first() =~= lines(rest));
}

/// The message of an error names what went wrong and carries what is known of it, and a verdict is
/// seen with its error.
pub proof fn errors_of_the_converter_carry_their_causes(e: FfmpegError)
    ensures
        match e {
            FfmpegError::NotFound(x) => e@ == FfmpegErrorView::NotFound(x@) && e@.text()
                == "El archivo de audio no existe: "@ + x@,
            FfmpegError::Process(x) => e@ == FfmpegErrorView::Process(x@) && e@.text()
                == "Falló FFmpeg: "@ + x@,
            FfmpegError::Io(x) => e@ == FfmpegErrorView::Io(x@) && e@.text() == "Error de E/S: "@
                + x@,
            FfmpegError::Tauri(x) => e@ == FfmpegErrorView::Tauri(x@) && e@.text()
                == "Error de Tauri: "@ + x@,
        },
        verdict_view(Some(Err(e))) == Some(Err::<(), FfmpegErrorView>(e@)),
        verdict_view(Some(Ok(()))) == Some(Ok::<(), FfmpegErrorView>(())),
        verdict_view(None) is None,
{
}

} // verus!
