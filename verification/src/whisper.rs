//! The transcription engine: how it is called, what its output means, and how a long audio is
//! cut into pieces.
use crate::config::ENGINE_SILENCE_TIMEOUT_SECS;
use crate::ffmpeg::FfmpegError;
use crate::process::{clock_fields, clock_parts, push_line, with_line, ProcessEvent};
use crate::text::{
    ascii_digit, blank, chars_of, decimal, digits_upto, digits_value, find_char, find_char_from,
    find_text, find_text_in, is_ascii_digit, join, joined, lemma_find_char, lemma_trim_start_skips,
    lower_case, lower_chars, opt_text, prefixed, push_decimal, push_signed, push_three_digits,
    signed_decimal, tail, tail_text, texts, the_first_place_is_found, three_digits, trim,
    trim_start, trim_start_at, trimmed, white_space,
};
use crate::types::{segment_views, Segment, SegmentView, WhisperModel, SECOND};
use vstd::prelude::*;
use vstd::string::*;

verus! {

// ── Errors ──────────────────────────────────────────────────────────────────

/// What can go wrong with the engine. Paths are given as they are shown, and errors of the
/// system by their messages.
#[derive(Debug)]
pub enum WhisperError {
    ModelMissing(String),
    Process(String),
    /// The engine said nothing for too long and was stopped. It is not the audio that is bad
    /// then, so the advice is another.
    Stalled(String),
    OutputMissing(String),
    InvalidJson(String),
    Io(String),
    Tauri(String),
}

/// An error by its texts.
pub enum WhisperErrorView {
    ModelMissing(Seq<char>),
    Process(Seq<char>),
    Stalled(Seq<char>),
    OutputMissing(Seq<char>),
    InvalidJson(Seq<char>),
    Io(Seq<char>),
    Tauri(Seq<char>),
}

impl View for WhisperError {
    type V = WhisperErrorView;

    open spec fn view(&self) -> WhisperErrorView {
        match *self {
            WhisperError::ModelMissing(path) => WhisperErrorView::ModelMissing(path@),
            WhisperError::Process(e) => WhisperErrorView::Process(e@),
            WhisperError::Stalled(e) => WhisperErrorView::Stalled(e@),
            WhisperError::OutputMissing(path) => WhisperErrorView::OutputMissing(path@),
            WhisperError::InvalidJson(e) => WhisperErrorView::InvalidJson(e@),
            WhisperError::Io(e) => WhisperErrorView::Io(e@),
            WhisperError::Tauri(e) => WhisperErrorView::Tauri(e@),
        }
    }
}

impl WhisperErrorView {
    /// The message of the error.
    pub open spec fn text(self) -> Seq<char> {
        match self {
            WhisperErrorView::ModelMissing(path) => "Modelo GGML no encontrado en "@ + path,
            WhisperErrorView::Process(e) => "whisper-cli falló: "@ + e,
            WhisperErrorView::Stalled(e) => e,
            WhisperErrorView::OutputMissing(path) => "No se generó el JSON esperado en "@ + path,
            WhisperErrorView::InvalidJson(e) => "JSON de whisper inválido: "@ + e,
            WhisperErrorView::Io(e) => "Error de E/S: "@ + e,
            WhisperErrorView::Tauri(e) => "Error de Tauri: "@ + e,
        }
    }
}

impl WhisperError {
    /// The message of the error.
    pub fn message(&self) -> (r: String)
        ensures
            r@ == self@.text(),
    {
        match self {
            WhisperError::ModelMissing(path) => prefixed(
                "Modelo GGML no encontrado en ",
                path.as_str(),
            ),
            WhisperError::Process(e) => prefixed("whisper-cli falló: ", e.as_str()),
            WhisperError::Stalled(e) => e.clone(),
            WhisperError::OutputMissing(path) => prefixed(
                "No se generó el JSON esperado en ",
                path.as_str(),
            ),
            WhisperError::InvalidJson(e) => prefixed("JSON de whisper inválido: ", e.as_str()),
            WhisperError::Io(e) => prefixed("Error de E/S: ", e.as_str()),
            WhisperError::Tauri(e) => prefixed("Error de Tauri: ", e.as_str()),
        }
    }
}

// ── Progress ────────────────────────────────────────────────────────────────

/// How far the engine has come, and what is going on.
#[derive(Debug)]
pub struct ProgressTick {
    pub percent: u8,
    pub note: Option<String>,
}

/// A tick by its texts.
#[verifier::ext_equal]
pub struct TickView {
    pub percent: u8,
    pub note: Option<Seq<char>>,
}

impl View for ProgressTick {
    type V = TickView;

    open spec fn view(&self) -> TickView {
        TickView { percent: self.percent, note: opt_text(self.note) }
    }
}

/// An optional tick by its texts.
pub open spec fn opt_tick(t: Option<ProgressTick>) -> Option<TickView> {
    match t {
        Some(t) => Some(t@),
        None => None,
    }
}

impl ProgressTick {
    /// A tick without a note.
    pub fn plain(percent: u8) -> (r: ProgressTick)
        ensures
            r@ == (TickView { percent, note: None }),
    {
        ProgressTick { percent, note: None }
    }
}

/// How many decimal digits `s` begins with.
pub open spec fn digits_len(s: Seq<char>) -> nat
    decreases s.len(),
{
    if s.len() == 0 || !ascii_digit(s[0]) {
        0
    } else {
        1 + digits_len(s.drop_first())
    }
}

proof fn lemma_digits_len(s: Seq<char>, n: nat)
    requires
        n <= s.len(),
        forall|i: int| 0 <= i < n ==> ascii_digit(s[i]),
        n < s.len() ==> !ascii_digit(s[n as int]),
    ensures
        digits_len(s) == n,
    decreases s.len(),
{
    if n > 0 {
        let rest = s.drop_first();
        assert(ascii_digit(s[0]));
        assert forall|i: int| 0 <= i < n - 1 implies ascii_digit(rest[i]) by {
            assert(rest[i] == s[i + 1]);
        }
        lemma_digits_len(rest, (n - 1) as nat);
    }
}

/// The digits that `s` begins with, once the white space before them is taken off.
pub open spec fn leading_digits(s: Seq<char>) -> Seq<char> {
    trim_start(s).take(digits_len(trim_start(s)) as int)
}

/// The percentage that a line of the engine reports: the number behind the first equals sign
/// after the word `progress`, in upper or lower case. One that does not fit a byte is none, and
/// one above a hundred counts as a hundred.
pub open spec fn percent_in(line: Seq<char>) -> Option<nat> {
    match find_text(lower_case(line), "progress"@) {
        None => None,
        Some(at) => {
            let after = line.skip(at as int);
            let eq = find_char(after, '=');
            let digits = leading_digits(after.skip(eq as int + 1));
            if eq >= after.len() || digits.len() == 0 || digits_value(digits) > u8::MAX {
                None
            } else if digits_value(digits) > 100 {
                Some(100)
            } else {
                Some(digits_value(digits))
            }
        },
    }
}

/// The progress that a line of the engine reports, such as
/// `whisper_print_progress_callback: progress = 42%`; nothing where it reports none.
pub fn parse_progress_line(line: &str) -> (r: Option<ProgressTick>)
    ensures
        r is Some <==> percent_in(line@) is Some,
        r matches Some(t) ==> t@ == (TickView {
            percent: percent_in(line@)->0 as u8,
            note: None,
        }) && percent_in(line@)->0 <= 100,
{
    let v = chars_of(line);
    let lower = lower_chars(&v);
    assert(lower@ == lower_case(line@));
    let word = chars_of("progress");
    let at = match find_text_in(&lower, &word) {
        Some(i) => i,
        None => {
            return None;
        },
    };
    let ghost after = line@.skip(at as int);
    let eq = find_char_from(&v, at, '=');
    if eq == v.len() {
        return None;
    }
    let ghost rest = v@.skip(eq + 1);
    assert(rest =~= after.skip(find_char(after, '=') as int + 1));
    let start = trim_start_at(&v, eq + 1, v.len());
    assert(v@.subrange(eq + 1, v@.len() as int) =~= rest);
    assert(v@.subrange(start as int, v@.len() as int) =~= v@.skip(start as int));
    let ghost number = v@.skip(start as int);
    let mut end: usize = start;
    while end < v.len() && is_ascii_digit(v[end])
        invariant
            start <= end <= v@.len(),
            number == v@.skip(start as int),
            forall|j: int| 0 <= j < end - start ==> ascii_digit(number[j]),
        decreases v@.len() - end,
    {
        end += 1;
    }
    proof {
        lemma_digits_len(number, (end - start) as nat);
        assert(v@.subrange(start as int, end as int) =~= leading_digits(rest));
    }
    if start == end {
        return None;
    }
    match digits_upto(&v, start, end, 255) {
        Some(n) => {
            let percent: u8 = if n > 100 {
                100
            } else {
                n as u8
            };
            Some(ProgressTick::plain(percent))
        },
        None => None,
    }
}

// ── How the engine ended ────────────────────────────────────────────────────

pub const EXIT_MISSING_DLL: &'static str = "al motor de transcripción le falta una biblioteca del sistema (DLL). Instala el «Microsoft Visual C++ Redistributable (x64)» y reinstala el agente.";

pub const EXIT_OLD_PROCESSOR: &'static str = "el procesador de este equipo no soporta las instrucciones con las que se compiló el motor. Escríbenos: necesitamos publicarte una versión compatible.";

pub const EXIT_CRASH: &'static str = "el motor de transcripción se cerró de golpe. Casi siempre es falta de memoria: prueba con un modelo más pequeño (base o small) y cierra otras aplicaciones.";

pub const EXIT_NO_MEMORY: &'static str = "el sistema quedó sin memoria y cerró el motor. Usa un modelo más pequeño (base o small) o divide el audio en partes.";

pub const EXIT_NO_CODE: &'static str = "el motor se cerró sin devolver un código (lo cerró el sistema operativo o un antivirus). Autoriza «Amautum Transcriptor» en tu antivirus y reintenta.";

pub const EXIT_UNKNOWN: &'static str = " sin dejar mensaje. Reintenta; si vuelve a pasar, prueba con un modelo más pequeño y envíanos el diagnóstico desde la ventana del agente.";

/// What is known of an exit code. Windows gives its own as negative numbers.
pub open spec fn known_exit(code: Option<i32>) -> Option<Seq<char>> {
    match code {
        None => Some(EXIT_NO_CODE@),
        Some(c) => if c == -1073741515 {
            Some(EXIT_MISSING_DLL@)
        } else if c == -1073741795 {
            Some(EXIT_OLD_PROCESSOR@)
        } else if c == -1073741819 || c == -1073740791 {
            Some(EXIT_CRASH@)
        } else if c == -1073741801 || c == 137 {
            Some(EXIT_NO_MEMORY@)
        } else {
            None
        },
    }
}

/// What a person is told of an engine that ended badly.
pub open spec fn exit_text(code: Option<i32>, stderr: Seq<char>) -> Seq<char> {
    let detail = tail_text(stderr, 4);
    match known_exit(code) {
        Some(known) => if detail.len() == 0 {
            known
        } else {
            known + " (detalle técnico: "@ + detail + ")"@
        },
        None => if detail.len() == 0 {
            "el motor terminó con el código "@ + signed_decimal(code->0 as int) + EXIT_UNKNOWN@
        } else {
            detail
        },
    }
}

/// What a person is told of an engine that ended badly, by its exit code and by what it wrote.
/// Some ends leave no message at all; a person is told something all the same.
pub fn explain_exit(code: Option<i32>, stderr: &str) -> (r: String)
    ensures
        r@ == exit_text(code, stderr@),
{
    let detail = tail(stderr, 4);
    let empty = detail.as_str().unicode_len() == 0;
    let known: Option<&'static str> = match code {
        None => Some(EXIT_NO_CODE),
        Some(c) => if c == -1073741515 {
            Some(EXIT_MISSING_DLL)
        } else if c == -1073741795 {
            Some(EXIT_OLD_PROCESSOR)
        } else if c == -1073741819 || c == -1073740791 {
            Some(EXIT_CRASH)
        } else if c == -1073741801 || c == 137 {
            Some(EXIT_NO_MEMORY)
        } else {
            None
        },
    };
    match (known, code) {
        (Some(explain), _) => {
            let mut out = explain.to_string();
            if !empty {
                out.append(" (detalle técnico: ");
                out.append(detail.as_str());
                out.append(")");
            }
            out
        },
        (None, Some(c)) => {
            if !empty {
                return detail;
            }
            let mut out = "el motor terminó con el código ".to_string();
            push_signed(&mut out, c);
            out.append(EXIT_UNKNOWN);
            out
        },
        (None, None) => detail,
    }
}

/// An engine that ended badly is never left without an explanation.
pub proof fn every_exit_is_explained(code: Option<i32>, stderr: Seq<char>)
    ensures
        exit_text(code, stderr).len() > 0,
{
    reveal_strlit("al motor de transcripción le falta una biblioteca del sistema (DLL). Instala el «Microsoft Visual C++ Redistributable (x64)» y reinstala el agente.");
    reveal_strlit("el procesador de este equipo no soporta las instrucciones con las que se compiló el motor. Escríbenos: necesitamos publicarte una versión compatible.");
    reveal_strlit("el motor de transcripción se cerró de golpe. Casi siempre es falta de memoria: prueba con un modelo más pequeño (base o small) y cierra otras aplicaciones.");
    reveal_strlit("el sistema quedó sin memoria y cerró el motor. Usa un modelo más pequeño (base o small) o divide el audio en partes.");
    reveal_strlit("el motor se cerró sin devolver un código (lo cerró el sistema operativo o un antivirus). Autoriza «Amautum Transcriptor» en tu antivirus y reintenta.");
    reveal_strlit("el motor terminó con el código ");
}

// ── Calling the engine ──────────────────────────────────────────────────────

/// The file that the engine writes its result to, where it is told to write to `base`.
pub fn json_file(base: &str) -> (r: String)
    ensures
        r@ == base@ + ".json"@,
{
    prefixed(base, ".json")
}

/// The arguments that transcribe `wav` with the model in `model_path` and write the result to
/// `base` with `.json` behind it.
pub open spec fn engine_call(
    model_path: Seq<char>,
    wav: Seq<char>,
    language: Seq<char>,
    base: Seq<char>,
) -> Seq<Seq<char>> {
    seq![
        "-m"@,
        model_path,
        "-f"@,
        wav,
        "-l"@,
        language,
        "--output-json"@,
        "--output-file"@,
        base,
        "--print-progress"@,
        "--no-prints"@,
    ]
}

/// The arguments of the engine.
pub fn engine_args(model_path: &str, wav: &str, language: &str, base: &str) -> (r: Vec<String>)
    ensures
        texts(r@) == engine_call(model_path@, wav@, language@, base@),
{
    let mut args: Vec<String> = Vec::new();
    args.push("-m".to_string());
    args.push(model_path.to_string());
    args.push("-f".to_string());
    args.push(wav.to_string());
    args.push("-l".to_string());
    args.push(language.to_string());
    args.push("--output-json".to_string());
    args.push("--output-file".to_string());
    args.push(base.to_string());
    args.push("--print-progress".to_string());
    args.push("--no-prints".to_string());
    assert(texts(args@) =~= engine_call(model_path@, wav@, language@, base@));
    args
}

// ── Listening to the engine ─────────────────────────────────────────────────

pub const STALLED_BEFORE: &'static str = "El motor de transcripción dejó de responder por más de ";

pub const STALLED_AFTER: &'static str = " minutos y lo detuvimos. Suele pasar cuando el equipo se suspende a mitad del trabajo o cuando el antivirus congela el proceso. Reintenta con el equipo conectado a la corriente y la suspensión desactivada.";

pub const MUTE_BEFORE: &'static str = "El motor de transcripción arrancó pero no dio señales en ";

pub const MUTE_AFTER: &'static str = " minutos. Lo más común es que el antivirus esté inspeccionando el binario o que el modelo esté en un disco muy lento. Autoriza «Amautum Transcriptor» en tu antivirus y reintenta con un modelo más pequeño (base o small).";

/// What a person is told of an engine that went silent, whether it had said something before
/// or not.
pub open spec fn stall_text(spoke: bool) -> Seq<char> {
    let minutes = decimal((ENGINE_SILENCE_TIMEOUT_SECS / 60) as nat);
    if spoke {
        STALLED_BEFORE@ + minutes + STALLED_AFTER@
    } else {
        MUTE_BEFORE@ + minutes + MUTE_AFTER@
    }
}

fn stall_message(spoke: bool) -> (r: String)
    ensures
        r@ == stall_text(spoke),
{
    let minutes: u64 = ENGINE_SILENCE_TIMEOUT_SECS / 60;
    if spoke {
        let mut out = STALLED_BEFORE.to_string();
        push_decimal(&mut out, minutes);
        out.append(STALLED_AFTER);
        out
    } else {
        let mut out = MUTE_BEFORE.to_string();
        push_decimal(&mut out, minutes);
        out.append(MUTE_AFTER);
        out
    }
}

/// What has been heard of the engine.
pub struct EngineRun {
    last_stderr: String,
    exit_code: Option<i32>,
    saw_any_output: bool,
    alive: bool,
}

/// What has been heard of the engine, by its texts.
#[verifier::ext_equal]
pub struct EngineRunView {
    pub last_stderr: Seq<char>,
    pub exit_code: Option<i32>,
    pub saw_any_output: bool,
    /// Whether there is a process to stop.
    pub alive: bool,
}

impl View for EngineRun {
    type V = EngineRunView;

    closed spec fn view(&self) -> EngineRunView {
        EngineRunView {
            last_stderr: self.last_stderr@,
            exit_code: self.exit_code,
            saw_any_output: self.saw_any_output,
            alive: self.alive,
        }
    }
}

/// What to do next with an engine that is running.
pub enum EngineAction {
    /// Go on listening, and pass the progress on where there is some.
    Listen(Option<ProgressTick>),
    /// It failed. The process has to be stopped where `kill` says so.
    Fail { kill: bool, error: WhisperError },
    /// It is done: its result can be read.
    ReadOutput,
}

/// What to do next, by its texts.
pub enum EngineActionView {
    Listen(Option<TickView>),
    Fail { kill: bool, error: WhisperErrorView },
    ReadOutput,
}

impl View for EngineAction {
    type V = EngineActionView;

    open spec fn view(&self) -> EngineActionView {
        match *self {
            EngineAction::Listen(tick) => EngineActionView::Listen(opt_tick(tick)),
            EngineAction::Fail { kill, error } => EngineActionView::Fail { kill, error: error@ },
            EngineAction::ReadOutput => EngineActionView::ReadOutput,
        }
    }
}

/// The tick that a line of the engine gives.
pub open spec fn tick_in(line: Seq<char>) -> Option<TickView> {
    match percent_in(line) {
        Some(p) => Some(TickView { percent: p as u8, note: None }),
        None => None,
    }
}

/// What has been heard of the engine once `event` has.
pub open spec fn engine_heard(v: EngineRunView, event: ProcessEvent) -> EngineRunView {
    match event {
        ProcessEvent::Stdout(_) => EngineRunView { saw_any_output: true, ..v },
        ProcessEvent::Stderr(line) => EngineRunView {
            saw_any_output: true,
            last_stderr: with_line(v.last_stderr, line@),
            ..v
        },
        ProcessEvent::Terminated(code) => EngineRunView { exit_code: code, alive: false, ..v },
        ProcessEvent::Silence => EngineRunView { alive: false, ..v },
        _ => v,
    }
}

/// What to do with the engine once `event` has been heard.
pub open spec fn engine_answer(v: EngineRunView, event: ProcessEvent) -> EngineActionView {
    match event {
        ProcessEvent::Stdout(line) => EngineActionView::Listen(tick_in(line@)),
        ProcessEvent::Stderr(line) => EngineActionView::Listen(tick_in(line@)),
        ProcessEvent::Terminated(_) => EngineActionView::Listen(None),
        ProcessEvent::Other => EngineActionView::Listen(None),
        ProcessEvent::Error(e) => EngineActionView::Fail {
            kill: false,
            error: WhisperErrorView::Process(e@),
        },
        ProcessEvent::Silence => EngineActionView::Fail {
            kill: v.alive,
            error: WhisperErrorView::Stalled(stall_text(v.saw_any_output)),
        },
        ProcessEvent::Closed => if v.exit_code == Some(0i32) {
            EngineActionView::ReadOutput
        } else {
            EngineActionView::Fail {
                kill: false,
                error: WhisperErrorView::Process(exit_text(v.exit_code, v.last_stderr)),
            }
        },
    }
}

impl EngineRun {
    /// An engine that has just been started.
    pub fn new() -> (r: EngineRun)
        ensures
            r@ == (EngineRunView {
                last_stderr: Seq::empty(),
                exit_code: None,
                saw_any_output: false,
                alive: true,
            }),
    {
        let r = EngineRun {
            last_stderr: String::new(),
            exit_code: None,
            saw_any_output: false,
            alive: true,
        };
        assert(r@.last_stderr =~= Seq::empty());
        r
    }

    /// Takes what was heard, and says what to do next. An engine that says nothing for too long
    /// is stopped: it would never come back, and the job with it.
    pub fn hear(&mut self, event: ProcessEvent) -> (r: EngineAction)
        ensures
            final(self)@ == engine_heard(old(self)@, event),
            r@ == engine_answer(old(self)@, event),
    {
        match event {
            ProcessEvent::Stdout(line) => {
                self.saw_any_output = true;
                EngineAction::Listen(parse_progress_line(line.as_str()))
            },
            ProcessEvent::Stderr(line) => {
                self.saw_any_output = true;
                let tick = parse_progress_line(line.as_str());
                push_line(&mut self.last_stderr, line.as_str());
                EngineAction::Listen(tick)
            },
            ProcessEvent::Terminated(code) => {
                self.exit_code = code;
                self.alive = false;
                EngineAction::Listen(None)
            },
            ProcessEvent::Other => EngineAction::Listen(None),
            ProcessEvent::Error(e) => EngineAction::Fail {
                kill: false,
                error: WhisperError::Process(e),
            },
            ProcessEvent::Silence => {
                let kill = self.alive;
                self.alive = false;
                EngineAction::Fail {
                    kill,
                    error: WhisperError::Stalled(stall_message(self.saw_any_output)),
                }
            },
            ProcessEvent::Closed => {
                if let Some(code) = self.exit_code {
                    if code == 0 {
                        return EngineAction::ReadOutput;
                    }
                }
                EngineAction::Fail {
                    kill: false,
                    error: WhisperError::Process(
                        explain_exit(self.exit_code, self.last_stderr.as_str()),
                    ),
                }
            },
        }
    }
}

// ── The result of the engine ────────────────────────────────────────────────

/// What the engine heard in an audio.
#[derive(Debug)]
pub struct WhisperRun {
    pub language: String,
    pub model_used: String,
    pub segments: Vec<Segment>,
    pub full_text: String,
}

/// The result of a run by its texts.
#[verifier::ext_equal]
pub struct RunView {
    pub language: Seq<char>,
    pub model_used: Seq<char>,
    pub segments: Seq<SegmentView>,
    pub full_text: Seq<char>,
}

impl View for WhisperRun {
    type V = RunView;

    open spec fn view(&self) -> RunView {
        RunView {
            language: self.language@,
            model_used: self.model_used@,
            segments: segment_views(self.segments@),
            full_text: self.full_text@,
        }
    }
}

/// A stretch of text as the engine wrote it.
#[derive(Debug)]
pub struct RawSegment {
    pub from: i128,
    pub to: i128,
    pub text: String,
}

/// The segment that a stretch of the engine stands for: its text without the white space
/// around it, and nobody to say it.
pub open spec fn segment_of(raw: RawSegment) -> SegmentView {
    SegmentView {
        start: raw.from as int,
        end: raw.to as int,
        text: trim(raw.text@),
        speaker: None,
    }
}

/// The segments that the stretches of the engine stand for.
pub open spec fn segments_of(items: Seq<RawSegment>) -> Seq<SegmentView> {
    Seq::new(items.len(), |i: int| segment_of(items[i]))
}

/// The texts of segments.
pub open spec fn segment_texts(segments: Seq<SegmentView>) -> Seq<Seq<char>> {
    Seq::new(segments.len(), |i: int| segments[i].text)
}

/// The result of a run: the language that the engine heard or else the one that was asked for,
/// the segments, and their texts with a space between them.
pub open spec fn run_of(
    items: Seq<RawSegment>,
    detected: Option<Seq<char>>,
    language: Seq<char>,
    model: WhisperModel,
) -> RunView {
    RunView {
        language: match detected {
            Some(l) => l,
            None => language,
        },
        model_used: model.name(),
        segments: segments_of(items),
        full_text: join(segment_texts(segments_of(items)), " "@),
    }
}

/// The result of a run, out of what the engine wrote.
pub fn assemble_run(
    items: &Vec<RawSegment>,
    detected: Option<String>,
    language: &str,
    model: WhisperModel,
) -> (r: WhisperRun)
    ensures
        r@ == run_of(items@, opt_text(detected), language@, model),
        r.segments@.len() == items@.len(),
        forall|i: int|
            0 <= i < items@.len() ==> (#[trigger] r.segments@[i]).start == items@[i].from
                && r.segments@[i].end == items@[i].to && r.segments@[i].text@ == trim(
                items@[i].text@,
            ) && r.segments@[i].speaker is None,
{
    let mut segments: Vec<Segment> = Vec::new();
    let mut parts: Vec<String> = Vec::new();
    let mut i: usize = 0;
    while i < items.len()
        invariant
            i <= items@.len(),
            segment_views(segments@) == segments_of(items@).take(i as int),
            texts(parts@) == segment_texts(segments_of(items@)).take(i as int),
        decreases items@.len() - i,
    {
        let ghost before = segments@;
        let ghost parts_before = parts@;
        let text = trimmed(items[i].text.as_str());
        parts.push(text.clone());
        segments.push(
            Segment {
                start: items[i].from,
                end: items[i].to,
                text,
                speaker: None,
            },
        );
        proof {
            assert(segment_views(segments@) =~= segment_views(before).push(
                segment_of(items@[i as int]),
            ));
            assert(texts(parts@) =~= texts(parts_before).push(trim(items@[i as int].text@)));
            assert(segments_of(items@).take(i + 1) =~= segments_of(items@).take(i as int).push(
                segment_of(items@[i as int]),
            ));
            assert(segment_texts(segments_of(items@)).take(i + 1) =~= segment_texts(
                segments_of(items@),
            ).take(i as int).push(trim(items@[i as int].text@)));
        }
        i += 1;
    }
    assert(segments_of(items@).take(i as int) =~= segments_of(items@));
    assert(segment_texts(segments_of(items@)).take(i as int) =~= segment_texts(
        segments_of(items@),
    ));
    let full_text = joined(&parts, " ");
    let language = match detected {
        Some(l) => l,
        None => language.to_string(),
    };
    assert forall|i: int| 0 <= i < items@.len() implies (#[trigger] segments@[i]).start
        == items@[i].from && segments@[i].end == items@[i].to && segments@[i].text@ == trim(
        items@[i].text@,
    ) && segments@[i].speaker is None by {
        assert(segment_views(segments@)[i] == segments_of(items@)[i]);
    }
    WhisperRun { language, model_used: model.as_str().to_string(), segments, full_text }
}

/// What the engine left behind. Paths are given as they are shown, and errors by their messages.
pub enum EngineOutput {
    /// There is no file where there should be one.
    Missing(String),
    /// The file cannot be read.
    Unreadable(String),
    /// It is not what it should be.
    Invalid(String),
    /// The stretches of text, and the language that the engine heard, where it said so.
    Read(Vec<RawSegment>, Option<String>),
}

/// What a run comes to, given what the engine left behind.
pub fn engine_result(output: EngineOutput, language: &str, model: WhisperModel) -> (r: Result<
    WhisperRun,
    WhisperError,
>)
    ensures
        (match r {
            Ok(run) => Ok(run@),
            Err(e) => Err(e@),
        }) == (match output {
            EngineOutput::Missing(path) => Err(WhisperErrorView::OutputMissing(path@)),
            EngineOutput::Unreadable(e) => Err(WhisperErrorView::Io(e@)),
            EngineOutput::Invalid(e) => Err(WhisperErrorView::InvalidJson(e@)),
            EngineOutput::Read(items, detected) => Ok(
                run_of(items@, opt_text(detected), language@, model),
            ),
        }),
{
    match output {
        EngineOutput::Missing(path) => Err(WhisperError::OutputMissing(path)),
        EngineOutput::Unreadable(e) => Err(WhisperError::Io(e)),
        EngineOutput::Invalid(e) => Err(WhisperError::InvalidJson(e)),
        EngineOutput::Read(items, detected) => Ok(assemble_run(&items, detected, language, model)),
    }
}

/// `s` with a point for every comma.
pub open spec fn with_points(s: Seq<char>) -> Seq<char> {
    Seq::new(
        s.len(),
        |i: int|
            if s[i] == ',' {
                '.'
            } else {
                s[i]
            },
    )
}

/// Hours, minutes and seconds of a time such as `00:00:01,234`, by their texts, with a point
/// before the decimals.
pub fn timestamp_fields(s: &str) -> (r: Option<(String, String, String)>)
    ensures
        (match r {
            Some(t) => Some((t.0@, t.1@, t.2@)),
            None => None,
        }) == clock_parts(with_points(s@)),
{
    let v = chars_of(s);
    let mut out = String::new();
    let mut i: usize = 0;
    while i < v.len()
        invariant
            i <= v@.len(),
            v@ == s@,
            out@ == with_points(s@).take(i as int),
        decreases v@.len() - i,
    {
        let c = if v[i] == ',' {
            '.'
        } else {
            v[i]
        };
        out.push(c);
        assert(out@ =~= with_points(s@).take(i + 1));
        i += 1;
    }
    assert(out@ =~= with_points(s@));
    clock_fields(out.as_str())
}

// ── Long audios ─────────────────────────────────────────────────────────────
//
// The engine holds the whole audio in memory besides its model. So a long audio is cut into
// pieces that are transcribed one after the other, each with a little of the next, and memory
// stays bounded however long the audio is.

/// The longest audio that is transcribed in one piece.
pub const CHUNKING_THRESHOLD: i128 = 1_200 * SECOND;

/// How much audio lies between the beginnings of two pieces.
pub const CHUNK_LENGTH: i128 = 900 * SECOND;

/// How much of the next piece a piece holds, so that no phrase is lost where they are cut.
pub const CHUNK_OVERLAP: i128 = 5 * SECOND;

/// A shorter piece is left out: the one before it holds all of it. It is a tenth of a second, as
/// the double that comes nearest to it.
pub const CHUNK_MIN: i128 = 1_844_674_407_370_955_264;

/// A piece of a long audio.
#[derive(Debug, Clone, Copy, PartialEq, Eq, Structural)]
pub struct Chunk {
    pub index: u64,
    pub count: u64,
    pub start: u128,
    pub duration: u128,
}

/// How many pieces an audio of that `duration` is cut into.
pub open spec fn piece_count(duration: int) -> int {
    (duration + CHUNK_LENGTH - 1) / (CHUNK_LENGTH as int)
}

/// Where piece `i` begins.
pub open spec fn piece_start(i: int) -> int {
    i * CHUNK_LENGTH
}

/// How long piece `i` is.
pub open spec fn piece_length(duration: int, i: int) -> int {
    if duration - piece_start(i) <= CHUNK_LENGTH + CHUNK_OVERLAP {
        duration - piece_start(i)
    } else {
        CHUNK_LENGTH + CHUNK_OVERLAP
    }
}

/// The first piece at or after `i` that is long enough; the number of pieces where there is
/// none.
pub open spec fn next_piece(duration: int, i: int) -> int
    decreases piece_count(duration) - i,
{
    if i >= piece_count(duration) {
        piece_count(duration)
    } else if piece_length(duration, i) >= CHUNK_MIN {
        i
    } else {
        next_piece(duration, i + 1)
    }
}

/// Piece `i` of an audio.
pub open spec fn piece(duration: int, i: int) -> Chunk {
    Chunk {
        index: i as u64,
        count: piece_count(duration) as u64,
        start: piece_start(i) as u128,
        duration: piece_length(duration, i) as u128,
    }
}

/// The name of the file that holds piece `i` while it is transcribed.
pub open spec fn chunk_file(i: nat) -> Seq<char> {
    "chunk_"@ + three_digits(i) + ".wav"@
}

/// What is said before a piece is cut: it is where the percentage rests longest, because the
/// engine loads its model again for every piece.
pub open spec fn boundary_tick(c: Chunk) -> TickView {
    TickView {
        percent: (c.index * 100 / c.count as int) as u8,
        note: Some(
            "Preparando el tramo "@ + decimal((c.index + 1) as nat) + " de "@ + decimal(
                c.count as nat,
            ) + " (el motor recarga el modelo en cada tramo)"@,
        ),
    }
}

/// How far the whole audio has come where one of its pieces has come to `percent`.
pub open spec fn overall_percent(c: Chunk, percent: int) -> int {
    let p = (c.index * 100 + percent) / (c.count as int);
    if p > 100 {
        100
    } else {
        p
    }
}

/// What the progress of a piece means for the whole audio.
pub open spec fn piece_tick(c: Chunk, percent: u8) -> TickView {
    TickView {
        percent: overall_percent(c, percent as int) as u8,
        note: Some(
            "Transcribiendo el tramo "@ + decimal((c.index + 1) as nat) + " de "@ + decimal(
                c.count as nat,
            ) + " ("@ + decimal(percent as nat) + "% del tramo)"@,
        ),
    }
}

impl Chunk {
    /// Name of the file that holds the piece while it is transcribed.
    pub fn file_name(&self) -> (r: String)
        ensures
            r@ == chunk_file(self.index as nat),
    {
        let mut out = "chunk_".to_string();
        push_three_digits(&mut out, self.index);
        out.append(".wav");
        out
    }

    /// What is said before the piece is cut.
    pub fn boundary(&self) -> (r: ProgressTick)
        requires
            self.index < self.count,
        ensures
            r@ == boundary_tick(*self),
    {
        let mut note = "Preparando el tramo ".to_string();
        push_decimal(&mut note, self.index + 1);
        note.append(" de ");
        push_decimal(&mut note, self.count);
        note.append(" (el motor recarga el modelo en cada tramo)");
        let percent: u128 = (self.index as u128) * 100 / (self.count as u128);
        assert(percent <= 100) by (nonlinear_arith)
            requires
                self.index < self.count,
                percent == (self.index as int) * 100 / (self.count as int),
        ;
        ProgressTick { percent: percent as u8, note: Some(note) }
    }

    /// What the progress of the piece means for the whole audio.
    pub fn overall(&self, tick: &ProgressTick) -> (r: ProgressTick)
        requires
            self.index < self.count,
        ensures
            r@ == piece_tick(*self, tick.percent),
    {
        let mut note = "Transcribiendo el tramo ".to_string();
        push_decimal(&mut note, self.index + 1);
        note.append(" de ");
        push_decimal(&mut note, self.count);
        note.append(" (");
        push_decimal(&mut note, tick.percent as u64);
        note.append("% del tramo)");
        let all: u128 = ((self.index as u128) * 100 + (tick.percent as u128)) / (
        self.count as u128);
        let percent: u8 = if all > 100 {
            100
        } else {
            all as u8
        };
        ProgressTick { percent, note: Some(note) }
    }
}

/// An instant of a piece on the clock of the whole audio. What no clock can hold is the last
/// instant that one can.
pub open spec fn moved(time: int, by: int) -> int {
    if time + by > i128::MAX {
        i128::MAX as int
    } else {
        time + by
    }
}

/// A segment of a piece on the clock of the whole audio.
pub open spec fn moved_segment(s: SegmentView, by: int) -> SegmentView {
    SegmentView { start: moved(s.start, by), end: moved(s.end, by), ..s }
}

/// The segments of a piece on the clock of the whole audio.
pub open spec fn moved_segments(s: Seq<SegmentView>, by: int) -> Seq<SegmentView> {
    Seq::new(s.len(), |i: int| moved_segment(s[i], by))
}

/// The text of one more piece behind that of those before it, with a space between them.
pub open spec fn joined_text(text: Seq<char>, more: Seq<char>) -> Seq<char> {
    (if text.len() != 0 && text.last() != ' ' {
        text.push(' ')
    } else {
        text
    }) + trim(more)
}

/// A long audio that is being transcribed piece by piece.
pub struct ChunkedRun {
    duration: u128,
    /// The piece in hand.
    index: u64,
    language: String,
    model: WhisperModel,
    segments: Vec<Segment>,
    combined_text: String,
    detected_language: Option<String>,
    model_used: Option<String>,
}

/// A long audio that is being transcribed, by its texts.
#[verifier::ext_equal]
pub struct ChunkedView {
    pub duration: int,
    pub index: int,
    pub language: Seq<char>,
    pub model: WhisperModel,
    pub segments: Seq<SegmentView>,
    pub combined_text: Seq<char>,
    pub detected_language: Option<Seq<char>>,
    pub model_used: Option<Seq<char>>,
}

impl View for ChunkedRun {
    type V = ChunkedView;

    closed spec fn view(&self) -> ChunkedView {
        ChunkedView {
            duration: self.duration as int,
            index: self.index as int,
            language: self.language@,
            model: self.model,
            segments: segment_views(self.segments@),
            combined_text: self.combined_text@,
            detected_language: opt_text(self.detected_language),
            model_used: opt_text(self.model_used),
        }
    }
}

/// The audio is long, and the piece in hand is one of its pieces or what follows the last.
pub open spec fn chunked_ok(v: ChunkedView) -> bool {
    CHUNKING_THRESHOLD < v.duration <= i128::MAX && 0 <= v.index <= piece_count(v.duration)
}

/// What to do next with an audio.
pub enum ChunkAction {
    /// It is short: transcribe the whole of it.
    Whole,
    /// Tell how far it is, and cut this piece.
    Cut { tick: ProgressTick, chunk: Chunk },
    /// Transcribe the piece that was cut.
    Transcribe(Chunk),
    /// It is done.
    Finish(Result<WhisperRun, WhisperError>),
}

/// What to do next with an audio, by its texts.
pub enum ChunkActionView {
    Whole,
    Cut { tick: TickView, chunk: Chunk },
    Transcribe(Chunk),
    Finish(Result<RunView, WhisperErrorView>),
}

impl View for ChunkAction {
    type V = ChunkActionView;

    open spec fn view(&self) -> ChunkActionView {
        match *self {
            ChunkAction::Whole => ChunkActionView::Whole,
            ChunkAction::Cut { tick, chunk } => ChunkActionView::Cut { tick: tick@, chunk },
            ChunkAction::Transcribe(chunk) => ChunkActionView::Transcribe(chunk),
            ChunkAction::Finish(r) => ChunkActionView::Finish(
                match r {
                    Ok(run) => Ok(run@),
                    Err(e) => Err(e@),
                },
            ),
        }
    }
}

/// The transcript of the pieces so far. The language and the model are those of the first
/// piece; where there was none, those that were asked for.
pub open spec fn combined(v: ChunkedView) -> RunView {
    RunView {
        language: match v.detected_language {
            Some(l) => l,
            None => v.language,
        },
        model_used: match v.model_used {
            Some(m) => m,
            None => v.model.name(),
        },
        segments: v.segments,
        full_text: v.combined_text,
    }
}

/// The audio once the piece in hand has been transcribed.
pub open spec fn with_piece(v: ChunkedView, run: RunView) -> ChunkedView {
    ChunkedView {
        index: v.index + 1,
        segments: v.segments + moved_segments(run.segments, piece_start(v.index)),
        combined_text: joined_text(v.combined_text, run.full_text),
        detected_language: Some(
            match v.detected_language {
                Some(l) => l,
                None => run.language,
            },
        ),
        model_used: Some(
            match v.model_used {
                Some(m) => m,
                None => run.model_used,
            },
        ),
        ..v
    }
}

/// The audio with the next piece that is long enough in hand.
pub open spec fn seeking(v: ChunkedView) -> ChunkedView {
    ChunkedView { index: next_piece(v.duration, v.index), ..v }
}

/// What the piece in hand asks for: to be cut, or, where all are done, to be put together.
pub open spec fn chunk_answer(v: ChunkedView) -> ChunkActionView {
    if v.index < piece_count(v.duration) {
        let chunk = piece(v.duration, v.index);
        ChunkActionView::Cut { tick: boundary_tick(chunk), chunk }
    } else {
        ChunkActionView::Finish(Ok(combined(v)))
    }
}

/// An audio of which nothing has been transcribed.
pub open spec fn chunked_start(
    duration: int,
    language: Seq<char>,
    model: WhisperModel,
) -> ChunkedView {
    ChunkedView {
        duration,
        index: 0,
        language,
        model,
        segments: Seq::empty(),
        combined_text: Seq::empty(),
        detected_language: None,
        model_used: None,
    }
}

/// The pieces of a long audio fit the machine, and each has some audio of its own.
proof fn lemma_pieces_fit(duration: int)
    requires
        CHUNKING_THRESHOLD < duration <= i128::MAX,
    ensures
        2 <= piece_count(duration) < u64::MAX,
        piece_start(piece_count(duration)) >= duration,
        forall|i: int|
            0 <= i < piece_count(duration) ==> 0 <= #[trigger] piece_start(i) < duration && 0
                < piece_length(duration, i) <= CHUNK_LENGTH + CHUNK_OVERLAP,
{
}

impl ChunkedRun {
    /// Begins to transcribe an audio. A short one is transcribed as a whole, with nothing to put
    /// together afterwards.
    pub fn begin(duration: i128, language: &str, model: WhisperModel) -> (r: (
        Option<ChunkedRun>,
        ChunkAction,
    ))
        ensures
            r.0 is Some <==> duration > CHUNKING_THRESHOLD,
            r.0 is None ==> r.1@ == ChunkActionView::Whole,
            r.0 matches Some(run) ==> chunked_ok(run@) && run@ == seeking(
                chunked_start(duration as int, language@, model),
            ) && r.1@ == chunk_answer(run@),
    {
        if duration <= CHUNKING_THRESHOLD {
            return (None, ChunkAction::Whole);
        }
        let mut run = ChunkedRun {
            duration: duration as u128,
            index: 0,
            language: language.to_string(),
            model,
            segments: Vec::new(),
            combined_text: String::new(),
            detected_language: None,
            model_used: None,
        };
        proof {
            lemma_pieces_fit(duration as int);
            assert(run@ =~= chunked_start(duration as int, language@, model));
        }
        run.seek();
        let chunk = run.piece_in_hand();
        proof {
            assert(0 <= piece_start(0));
            assert(piece_length(duration as int, 0) >= CHUNK_MIN);
        }
        (Some(run), ChunkAction::Cut { tick: chunk.boundary(), chunk })
    }

    /// Takes the next piece that is long enough in hand.
    fn seek(&mut self)
        requires
            chunked_ok(old(self)@),
        ensures
            chunked_ok(final(self)@),
            final(self)@ == seeking(old(self)@),
    {
        let count = self.count();
        let length = CHUNK_LENGTH as u128;
        let ghost target = next_piece(self@.duration, self@.index);
        while self.index < count
            invariant
                chunked_ok(self@),
                count == piece_count(self@.duration),
                length == CHUNK_LENGTH,
                target == next_piece(self@.duration, self@.index),
                self@ == (ChunkedView { index: self@.index, ..old(self)@ }),
                self.duration == self@.duration,
                self.index == self@.index,
            ensures
                self@.index == target,
                chunked_ok(self@),
                self@ == (ChunkedView { index: self@.index, ..old(self)@ }),
            decreases count - self.index,
        {
            proof {
                lemma_pieces_fit(self@.duration);
                assert(0 <= piece_start(self@.index) < self@.duration);
            }
            if self.duration - (self.index as u128) * length >= CHUNK_MIN as u128 {
                break;
            }
            self.index = self.index + 1;
        }
    }

    /// How many pieces there are.
    fn count(&self) -> (r: u64)
        requires
            chunked_ok(self@),
        ensures
            r == piece_count(self@.duration),
    {
        let length = CHUNK_LENGTH as u128;
        ((self.duration + (length - 1)) / length) as u64
    }

    /// The piece in hand.
    fn piece_in_hand(&self) -> (r: Chunk)
        requires
            chunked_ok(self@),
            self@.index < piece_count(self@.duration),
        ensures
            r == piece(self@.duration, self@.index),
            r.index < r.count,
    {
        proof {
            lemma_pieces_fit(self@.duration);
            assert(0 <= piece_start(self@.index) < self@.duration);
        }
        let start = (self.index as u128) * (CHUNK_LENGTH as u128);
        let left = self.duration - start;
        let longest = (CHUNK_LENGTH as u128) + (CHUNK_OVERLAP as u128);
        Chunk {
            index: self.index,
            count: self.count(),
            start,
            duration: if left <= longest {
                left
            } else {
                longest
            },
        }
    }

    /// Goes on once the piece in hand has been cut, or could not be.
    pub fn extracted(&mut self, result: Result<(), FfmpegError>) -> (r: ChunkAction)
        requires
            chunked_ok(old(self)@),
            old(self)@.index < piece_count(old(self)@.duration),
        ensures
            final(self)@ == old(self)@,
            r@ == (match result {
                Ok(()) => ChunkActionView::Transcribe(
                    piece(old(self)@.duration, old(self)@.index),
                ),
                Err(e) => ChunkActionView::Finish(
                    Err(WhisperErrorView::Process("ffmpeg al partir el audio: "@ + e@.text())),
                ),
            }),
    {
        match result {
            Ok(()) => ChunkAction::Transcribe(self.piece_in_hand()),
            Err(e) => ChunkAction::Finish(
                Err(
                    WhisperError::Process(
                        prefixed("ffmpeg al partir el audio: ", e.message().as_str()),
                    ),
                ),
            ),
        }
    }

    /// Goes on once the piece in hand has been transcribed, or could not be.
    pub fn transcribed(&mut self, result: Result<WhisperRun, WhisperError>) -> (r: ChunkAction)
        requires
            chunked_ok(old(self)@),
            old(self)@.index < piece_count(old(self)@.duration),
        ensures
            chunked_ok(final(self)@),
            r@ == (match result {
                Ok(run) => chunk_answer(seeking(with_piece(old(self)@, run@))),
                Err(e) => ChunkActionView::Finish(Err(e@)),
            }),
            !(r is Finish) ==> (result matches Ok(run) && final(self)@ == seeking(
                with_piece(old(self)@, run@),
            )),
    {
        let run = match result {
            Ok(run) => run,
            Err(e) => {
                return ChunkAction::Finish(Err(e));
            },
        };
        self.add(run);
        self.seek();
        if self.index < self.count() {
            let chunk = self.piece_in_hand();
            return ChunkAction::Cut { tick: chunk.boundary(), chunk };
        }
        let ghost all = self@;
        let mut segments: Vec<Segment> = Vec::new();
        std::mem::swap(&mut segments, &mut self.segments);
        let language = match &self.detected_language {
            Some(l) => l.clone(),
            None => self.language.clone(),
        };
        let model_used = match &self.model_used {
            Some(m) => m.clone(),
            None => self.model.as_str().to_string(),
        };
        let full_text = self.combined_text.clone();
        ChunkAction::Finish(Ok(WhisperRun { language, model_used, segments, full_text }))
    }

    /// Adds the transcript of the piece in hand.
    fn add(&mut self, run: WhisperRun)
        requires
            chunked_ok(old(self)@),
            old(self)@.index < piece_count(old(self)@.duration),
        ensures
            chunked_ok(final(self)@),
            final(self)@ == with_piece(old(self)@, run@),
    {
        let ghost before = old(self)@;
        let ghost by = piece_start(before.index);
        let start = self.piece_in_hand().start;
        proof {
            lemma_pieces_fit(before.duration);
            assert(0 <= piece_start(before.index) < before.duration);
        }
        let mut added = run.segments;
        let n = added.len();
        let ghost all = added@;
        let mut moved_ones: Vec<Segment> = Vec::new();
        let mut i: usize = 0;
        assert(segment_views(moved_ones@) =~= moved_segments(segment_views(all), by).take(0));
        assert(all.skip(0) =~= all);
        while i < n
            invariant
                i <= n,
                n == all.len(),
                added@ == all.take(n - i),
                start == by,
                0 <= by <= i128::MAX,
                moved_ones@.len() == i,
                forall|k: int|
                    0 <= k < i ==> (#[trigger] moved_ones@[k])@ == moved_segment(
                        all[n - 1 - k]@,
                        by,
                    ),
            decreases n - i,
        {
            let ghost s = all[n - 1 - i];
            if let Some(seg) = added.pop() {
                moved_ones.push(
                    Segment {
                        start: shift(seg.start, start),
                        end: shift(seg.end, start),
                        text: seg.text,
                        speaker: seg.speaker,
                    },
                );
            }
            assert(added@ =~= all.take(n - i - 1));
            i += 1;
        }
        while i > 0
            invariant
                i <= n,
                n == all.len(),
                moved_ones@.len() == i,
                forall|k: int|
                    0 <= k < i ==> (#[trigger] moved_ones@[k])@ == moved_segment(
                        all[n - 1 - k]@,
                        by,
                    ),
                segment_views(self.segments@) == before.segments + moved_segments(
                    segment_views(all),
                    by,
                ).take(n - i),
                self.duration == old(self).duration,
                self.index == old(self).index,
                self.language == old(self).language,
                self.model == old(self).model,
                self.combined_text == old(self).combined_text,
                self.detected_language == old(self).detected_language,
                self.model_used == old(self).model_used,
            decreases i,
        {
            let ghost so_far = self.segments@;
            let ghost k = n - i;
            if let Some(seg) = moved_ones.pop() {
                self.segments.push(seg);
            }
            proof {
                let every = moved_segments(segment_views(all), by);
                assert(every.take(k + 1) =~= every.take(k).push(moved_segment(all[k]@, by)));
                assert(segment_views(self.segments@) =~= segment_views(so_far).push(
                    moved_segment(all[k]@, by),
                ));
                assert(segment_views(self.segments@) =~= before.segments + every.take(k + 1));
            }
            i -= 1;
        }
        proof {
            let every = moved_segments(segment_views(all), by);
            assert(every.take(n as int) =~= every);
        }
        let last_is_space = ends_in_space(self.combined_text.as_str());
        if self.combined_text.as_str().unicode_len() != 0 && !last_is_space {
            self.combined_text.push(' ');
        }
        self.combined_text.append(trimmed(run.full_text.as_str()).as_str());
        if self.detected_language.is_none() {
            self.detected_language = Some(run.language);
        }
        if self.model_used.is_none() {
            self.model_used = Some(run.model_used);
        }
        self.index = self.index + 1;
        assert(self@ =~= with_piece(before, run@));
    }
}

fn ends_in_space(s: &str) -> (r: bool)
    ensures
        r == (s@.len() != 0 && s@.last() == ' '),
{
    let n = s.unicode_len();
    n != 0 && s.get_char(n - 1) == ' '
}

fn shift(time: i128, by: u128) -> (r: i128)
    requires
        by <= i128::MAX,
    ensures
        r == moved(time as int, by as int),
{
    if time > i128::MAX - (by as i128) {
        i128::MAX
    } else {
        time + (by as i128)
    }
}

/// Every instant of a long audio is in a piece that is transcribed: nothing is lost where it is
/// cut, nor at its end.
pub proof fn pieces_cover_the_audio(duration: int, instant: int) -> (i: int)
    requires
        CHUNKING_THRESHOLD < duration <= i128::MAX,
        0 <= instant < duration,
    ensures
        0 <= i < piece_count(duration),
        piece_length(duration, i) >= CHUNK_MIN,
        piece_start(i) <= instant < piece_start(i) + piece_length(duration, i),
{
    let length = CHUNK_LENGTH as int;
    let i = instant / length;
    lemma_pieces_fit(duration);
    assert(0 <= i && i * length <= instant < (i + 1) * length) by (nonlinear_arith)
        requires
            i == instant / length,
            instant >= 0,
            length > 0,
    ;
    assert(piece_start(i) <= instant);
    assert(i < piece_count(duration)) by (nonlinear_arith)
        requires
            i * length <= instant < duration <= piece_count(duration) * length,
            length > 0,
    ;
    if piece_length(duration, i) >= CHUNK_MIN {
        i
    } else {
        i - 1
    }
}

/// However long an audio is, no piece of it is longer than the length of a piece and what it
/// holds of the next, and the next piece begins before it ends.
pub proof fn pieces_are_bounded(duration: int, i: int)
    requires
        CHUNKING_THRESHOLD < duration <= i128::MAX,
        0 <= i < piece_count(duration),
    ensures
        0 < piece_length(duration, i) <= CHUNK_LENGTH + CHUNK_OVERLAP,
        i + 1 < piece_count(duration) ==> piece_start(i + 1) < piece_start(i) + piece_length(
            duration,
            i,
        ),
{
    lemma_pieces_fit(duration);
    assert(0 <= piece_start(i) < duration);
}

/// The progress of a piece stands for a percentage of the whole that grows with it, that is no
/// more than a hundred, and that is reached where the last piece is.
pub proof fn overall_progress_grows(c: Chunk, p: int, q: int)
    requires
        c.index < c.count,
        0 <= p <= q <= 100,
    ensures
        0 <= overall_percent(c, p) <= overall_percent(c, q) <= 100,
        c.index + 1 == c.count ==> overall_percent(c, 100) == 100,
{
    let n = c.count as int;
    let a = c.index * 100 + p;
    let b = c.index * 100 + q;
    assert(a / n <= b / n) by (nonlinear_arith)
        requires
            0 <= a <= b,
            n > 0,
    ;
    assert(a / n >= 0) by (nonlinear_arith)
        requires
            0 <= a,
            n > 0,
    ;
    if c.index + 1 == c.count {
        assert((c.index * 100 + 100) / n == 100) by (nonlinear_arith)
            requires
                c.index + 1 == n,
                n > 0,
        ;
    }
}

/// What the engine wrote becomes the transcript one for one and in order: each stretch keeps its
/// times, and its text loses nothing but the white space around it. Nobody is named yet. The
/// language is the one that was heard, or else the one that was asked for.
pub proof fn stretches_become_segments(
    items: Seq<RawSegment>,
    detected: Option<Seq<char>>,
    language: Seq<char>,
    model: WhisperModel,
    i: int,
)
    ensures
        ({
            let run = run_of(items, detected, language, model);
            &&& run.segments.len() == items.len()
            &&& 0 <= i < items.len() ==> {
                &&& run.segments[i].start == items[i].from
                &&& run.segments[i].end == items[i].to
                &&& run.segments[i].text == trim(items[i].text@)
                &&& run.segments[i].speaker is None
            }
            &&& run.model_used == model.name()
            &&& detected matches Some(heard) ==> run.language == heard
            &&& detected is None ==> run.language == language
        }),
{
}

/// The full text grows with every stretch by its trimmed text, behind a space where something
/// stands before it.
pub proof fn the_full_text_grows_with_every_stretch(
    items: Seq<RawSegment>,
    more: RawSegment,
    detected: Option<Seq<char>>,
    language: Seq<char>,
    model: WhisperModel,
)
    ensures
        run_of(Seq::empty(), detected, language, model).full_text == Seq::<char>::empty(),
        run_of(items.push(more), detected, language, model).full_text == (if items.len() == 0 {
            trim(more.text@)
        } else {
            run_of(items, detected, language, model).full_text + seq![' '] + trim(more.text@)
        }),
{
    reveal_strlit(" ");
    assert(" "@ =~= seq![' ']);
    let before = segment_texts(segments_of(items));
    let after = segment_texts(segments_of(items.push(more)));
    assert(after =~= before.push(trim(more.text@)));
    assert(after.drop_last() =~= before);
    assert(segment_texts(segments_of(Seq::<RawSegment>::empty())).len() == 0);
}

/// A piece that has been transcribed goes behind those before it, which stay as they were. Its
/// segments keep their order, their texts and their speakers, and each of their times is later by
/// as much as the piece begins after the audio does: a quarter of an hour for every piece before
/// it. A time that the clock cannot hold becomes the last that it can.
pub proof fn pieces_are_put_together_in_order(v: ChunkedView, run: RunView, i: int)
    requires
        0 <= v.index,
    ensures
        ({
            let next = seeking(with_piece(v, run));
            let n = v.segments.len();
            let by = v.index * 900 * SECOND;
            &&& next.segments.len() == n + run.segments.len()
            &&& 0 <= i < n ==> next.segments[i] == v.segments[i]
            &&& 0 <= i < run.segments.len() ==> {
                let old = run.segments[i];
                let new = next.segments[n + i];
                &&& new.text == old.text
                &&& new.speaker == old.speaker
                &&& old.start + by <= i128::MAX ==> new.start == old.start + by
                &&& old.start + by > i128::MAX ==> new.start == i128::MAX
                &&& old.end + by <= i128::MAX ==> new.end == old.end + by
                &&& old.end + by > i128::MAX ==> new.end == i128::MAX
            }
            &&& next.index == next_piece(v.duration, v.index + 1)
            &&& next.duration == v.duration
            &&& next.language == v.language
            &&& next.model == v.model
        }),
{
    assert(v.index * 900 * SECOND == v.index * (900 * SECOND)) by (nonlinear_arith);
}

/// Segments that come one after the other within a piece do so in the whole transcript.
pub proof fn the_order_of_a_piece_is_kept(v: ChunkedView, run: RunView, i: int, k: int)
    requires
        0 <= i <= k < run.segments.len(),
        run.segments[i].start <= run.segments[k].start,
    ensures
        ({
            let next = seeking(with_piece(v, run));
            next.segments[v.segments.len() + i].start <= next.segments[v.segments.len() + k].start
        }),
{
}

/// The texts of the pieces stand one after the other, trimmed, with one space between them where
/// there is none, and the first piece decides the language and the model.
pub proof fn the_texts_of_pieces_are_put_together(v: ChunkedView, run: RunView)
    ensures
        ({
            let next = seeking(with_piece(v, run));
            let text = v.combined_text;
            &&& text.len() == 0 ==> next.combined_text == trim(run.full_text)
            &&& text.len() > 0 && text.last() == ' ' ==> next.combined_text == text + trim(
                run.full_text,
            )
            &&& text.len() > 0 && text.last() != ' ' ==> next.combined_text == text + seq![' ']
                + trim(run.full_text)
            &&& v.detected_language is None ==> next.detected_language == Some(run.language)
            &&& v.detected_language is Some ==> next.detected_language == v.detected_language
            &&& v.model_used is None ==> next.model_used == Some(run.model_used)
            &&& v.model_used is Some ==> next.model_used == v.model_used
        }),
{
    let next = seeking(with_piece(v, run));
    let text = v.combined_text;
    if text.len() == 0 {
        assert(next.combined_text =~= trim(run.full_text));
    } else if text.last() != ' ' {
        assert(next.combined_text =~= text + seq![' '] + trim(run.full_text));
    }
}

/// Once there is no piece left, the transcript is all that was put together, unchanged; as long
/// as there is one, it is the next to be cut.
pub proof fn what_was_put_together_is_the_transcript(v: ChunkedView)
    ensures
        match chunk_answer(v) {
            ChunkActionView::Finish(Ok(all)) => {
                &&& v.index >= piece_count(v.duration)
                &&& all.segments == v.segments
                &&& all.full_text == v.combined_text
                &&& v.detected_language matches Some(heard) ==> all.language == heard
                &&& v.detected_language is None ==> all.language == v.language
                &&& v.model_used matches Some(used) ==> all.model_used == used
                &&& v.model_used is None ==> all.model_used == v.model.name()
            },
            ChunkActionView::Cut { tick, chunk } => {
                &&& v.index < piece_count(v.duration)
                &&& chunk == piece(v.duration, v.index)
                &&& tick == boundary_tick(chunk)
            },
            _ => false,
        },
{
}

/// Nothing has been put together of an audio of which no piece has been transcribed.
pub proof fn a_long_audio_begins_empty(duration: int, language: Seq<char>, model: WhisperModel)
    ensures
        ({
            let v = seeking(chunked_start(duration, language, model));
            &&& v.duration == duration
            &&& v.language == language
            &&& v.model == model
            &&& v.segments.len() == 0
            &&& v.combined_text.len() == 0
            &&& v.detected_language is None
            &&& v.model_used is None
            &&& v.index == next_piece(duration, 0)
        }),
{
}

/// A piece begins every quarter of an hour as long as there is audio, and holds five seconds of
/// the next one, where there are so many.
pub proof fn pieces_lie_a_quarter_of_an_hour_apart(duration: int, i: int)
    requires
        CHUNKING_THRESHOLD < duration <= i128::MAX,
        0 <= i < piece_count(duration),
    ensures
        (piece_count(duration) - 1) * (900 * SECOND) < duration,
        duration <= piece_count(duration) * (900 * SECOND),
        ({
            let c = piece(duration, i);
            &&& c.index == i
            &&& c.count == piece_count(duration)
            &&& c.start == i * (900 * SECOND)
            &&& c.duration <= 905 * SECOND
            &&& c.start + c.duration <= duration
            &&& c.duration == 905 * SECOND || c.start + c.duration == duration
        }),
{
    lemma_pieces_fit(duration);
    assert(0 <= piece_start(i) < duration);
    let n = piece_count(duration);
    let length = CHUNK_LENGTH as int;
    assert((n - 1) * length < duration <= n * length) by (nonlinear_arith)
        requires
            n == (duration + length - 1) / length,
            length > 0,
    ;
}

/// The next piece to be cut is the first that holds a tenth of a second or more.
pub proof fn no_piece_is_passed_over(duration: int, i: int, k: int)
    requires
        0 <= i <= piece_count(duration),
    ensures
        i <= next_piece(duration, i) <= piece_count(duration),
        next_piece(duration, i) < piece_count(duration) ==> piece_length(
            duration,
            next_piece(duration, i),
        ) >= CHUNK_MIN,
        i <= k < next_piece(duration, i) ==> piece_length(duration, k) < CHUNK_MIN,
    decreases piece_count(duration) - i,
{
    if i < piece_count(duration) && piece_length(duration, i) < CHUNK_MIN {
        no_piece_is_passed_over(duration, i + 1, k);
    }
}

/// The percentage of the whole audio is the share of the pieces that are done, and of the piece in
/// hand what is done of it, rounded down.
pub proof fn pieces_count_alike(c: Chunk, percent: u8)
    requires
        c.index < c.count,
        percent <= 100,
    ensures
        ({
            let before = boundary_tick(c).percent as int;
            let now = piece_tick(c, percent).percent as int;
            &&& before * c.count <= c.index * 100 < (before + 1) * c.count
            &&& now * c.count <= c.index * 100 + percent < (now + 1) * c.count
        }),
        boundary_tick(c).note == Some(
            "Preparando el tramo "@ + decimal((c.index + 1) as nat) + " de "@ + decimal(
                c.count as nat,
            ) + " (el motor recarga el modelo en cada tramo)"@,
        ),
        piece_tick(c, percent).note == Some(
            "Transcribiendo el tramo "@ + decimal((c.index + 1) as nat) + " de "@ + decimal(
                c.count as nat,
            ) + " ("@ + decimal(percent as nat) + "% del tramo)"@,
        ),
{
    let n = c.count as int;
    let a = c.index * 100;
    let b = c.index * 100 + percent;
    assert(0 <= a / n <= 100 && (a / n) * n <= a < (a / n + 1) * n) by (nonlinear_arith)
        requires
            0 <= a <= 100 * n,
            n > 0,
    ;
    assert(0 <= b / n <= 100 && (b / n) * n <= b < (b / n + 1) * n) by (nonlinear_arith)
        requires
            0 <= b <= 100 * n,
            n > 0,
    ;
}

/// The progress in a line of the engine is the number behind the first equals sign after the
/// first `progress`, however it is written: `at` and `eq` are where these stand, and the number
/// goes from `from` up to `to`.
pub proof fn progress_is_the_number_behind_the_sign(
    line: Seq<char>,
    at: int,
    eq: int,
    from: int,
    to: int,
)
    requires
        find_text(lower_case(line), "progress"@) == Some(at as nat),
        0 <= at <= eq < line.len(),
        line[eq] == '=',
        forall|j: int| at <= j < eq ==> #[trigger] line[j] != '=',
        eq < from <= to <= line.len(),
        forall|j: int| eq < j < from ==> white_space(#[trigger] line[j]),
        from < line.len() ==> !white_space(line[from]),
        forall|j: int| from <= j < to ==> ascii_digit(#[trigger] line[j]),
        to < line.len() ==> !ascii_digit(line[to]),
    ensures
        ({
            let number = digits_value(line.subrange(from, to));
            percent_in(line) == (if from == to || number > 255 {
                None
            } else if number > 100 {
                Some(100nat)
            } else {
                Some(number)
            })
        }),
{
    let after = line.skip(at);
    lemma_find_char(after, '=');
    let found = find_char(after, '=');
    assert(after[eq - at] == '=');
    if found < eq - at {
        assert(line[at + found] == '=');
    }
    assert(found == eq - at);
    let rest = after.skip(found as int + 1);
    let blanks = line.subrange(eq + 1, from);
    let number = line.skip(from);
    assert(rest =~= blanks + number);
    if number.len() > 0 {
        assert(number[0] == line[from]);
    }
    assert(blank(blanks)) by {
        assert forall|i: int| 0 <= i < blanks.len() implies white_space(blanks[i]) by {
            assert(blanks[i] == line[eq + 1 + i]);
        }
    }
    lemma_trim_start_skips(blanks, number);
    assert forall|i: int| 0 <= i < to - from implies ascii_digit(number[i]) by {
        assert(number[i] == line[from + i]);
    }
    if to < line.len() {
        assert(number[to - from] == line[to]);
    }
    lemma_digits_len(number, (to - from) as nat);
    assert(number.take(to - from) =~= line.subrange(from, to));
}

/// A line that does not speak of progress, or has no equals sign behind the word, reports none.
pub proof fn lines_without_progress_report_none(line: Seq<char>, at: int)
    ensures
        find_text(lower_case(line), "progress"@) is None ==> percent_in(line) is None,
        find_text(lower_case(line), "progress"@) == Some(at as nat) && 0 <= at && !line.skip(
            at,
        ).contains('=') ==> percent_in(line) is None,
        lower_case(line).len() == line.len(),
{
    if 0 <= at <= line.len() {
        lemma_find_char(line.skip(at), '=');
        if find_char(line.skip(at), '=') < line.skip(at).len() {
            assert(line.skip(at).contains('='));
        }
    }
    the_first_place_is_found(lower_case(line), "progress"@);
}

/// Known exits are told in plain words, with what the engine wrote behind them in brackets. Of the
/// others, what the engine wrote is told; and where it wrote nothing, the code.
pub proof fn exits_are_told_by_their_codes(code: i32, stderr: Seq<char>)
    ensures
        ({
            let detail = tail_text(stderr, 4);
            let known = |c: Option<i32>, words: Seq<char>|
                exit_text(c, stderr) == (if detail.len() == 0 {
                    words
                } else {
                    words + " (detalle técnico: "@ + detail + ")"@
                });
            &&& known(None, EXIT_NO_CODE@)
            &&& known(Some(-1073741515i32), EXIT_MISSING_DLL@)
            &&& known(Some(-1073741795i32), EXIT_OLD_PROCESSOR@)
            &&& known(Some(-1073741819i32), EXIT_CRASH@)
            &&& known(Some(-1073740791i32), EXIT_CRASH@)
            &&& known(Some(-1073741801i32), EXIT_NO_MEMORY@)
            &&& known(Some(137i32), EXIT_NO_MEMORY@)
            &&& code != -1073741515 && code != -1073741795 && code != -1073741819 && code
                != -1073740791 && code != -1073741801 && code != 137 ==> exit_text(
                Some(code),
                stderr,
            ) == (if detail.len() > 0 {
                detail
            } else {
                "el motor terminó con el código "@ + signed_decimal(code as int) + EXIT_UNKNOWN@
            })
        }),
{
}

/// The engine succeeded only where its last word was an exit with code zero, and it is stopped
/// only where it went silent while it ran. Whatever it wrote to its error output is kept, in
/// order, and nothing else of what it wrote.
pub proof fn the_engine_is_heard_out(v: EngineRunView, event: ProcessEvent)
    ensures
        engine_answer(v, event) is ReadOutput <==> event is Closed && v.exit_code == Some(0i32),
        engine_answer(v, event) matches EngineActionView::Fail { kill, error } ==> {
            &&& event is Closed || event is Error || event is Silence
            &&& kill <==> event is Silence && v.alive
            &&& event is Silence <==> error is Stalled
            &&& event matches ProcessEvent::Error(e) ==> error == WhisperErrorView::Process(e@)
            &&& event is Closed ==> error == WhisperErrorView::Process(
                exit_text(v.exit_code, v.last_stderr),
            )
        },
        engine_answer(v, event) matches EngineActionView::Listen(tick) ==> match event {
            ProcessEvent::Stdout(line) | ProcessEvent::Stderr(line) => match percent_in(line@) {
                Some(p) => tick == Some(TickView { percent: p as u8, note: None }),
                None => tick is None,
            },
            _ => tick is None,
        },
        ({
            let w = engine_heard(v, event);
            &&& event matches ProcessEvent::Stderr(line) ==> w.last_stderr == v.last_stderr + line@
                + seq!['\n']
            &&& !(event is Stderr) ==> w.last_stderr == v.last_stderr
            &&& event matches ProcessEvent::Terminated(code) ==> w.exit_code == code
            &&& !(event is Terminated) ==> w.exit_code == v.exit_code
            &&& w.saw_any_output <==> v.saw_any_output || event is Stdout || event is Stderr
            &&& w.alive <==> v.alive && !(event is Terminated) && !(event is Silence)
        }),
{
    if let ProcessEvent::Stderr(line) = event {
        assert(engine_heard(v, event).last_stderr =~= v.last_stderr + line@ + seq!['\n']);
    }
}

/// A silent engine is told of by how long it may be silent, and by whether it had spoken before.
pub proof fn silence_is_told_by_its_length(spoke: bool)
    ensures
        stall_text(true) == STALLED_BEFORE@ + "25"@ + STALLED_AFTER@,
        stall_text(false) == MUTE_BEFORE@ + "25"@ + MUTE_AFTER@,
{
    reveal_strlit("25");
    reveal_with_fuel(decimal, 2);
    assert(decimal(25) =~= "25"@);
}

/// In a time of the engine a comma stands for a point, and nothing else changes.
pub proof fn commas_become_points(s: Seq<char>, i: int)
    ensures
        with_points(s).len() == s.len(),
        0 <= i < s.len() && s[i] == ',' ==> with_points(s)[i] == '.',
        0 <= i < s.len() && s[i] != ',' ==> with_points(s)[i] == s[i],
{
}

/// The engine is called with the model, the audio, the language and the file to write to, each
/// behind the flag that asks for it.
pub proof fn the_engine_is_called_with_what_it_needs(
    model_path: Seq<char>,
    wav: Seq<char>,
    language: Seq<char>,
    base: Seq<char>,
)
    ensures
        ({
            let call = engine_call(model_path, wav, language, base);
            &&& call.len() == 11
            &&& call[0] == "-m"@ && call[1] == model_path
            &&& call[2] == "-f"@ && call[3] == wav
            &&& call[4] == "-l"@ && call[5] == language
            &&& call[6] == "--output-json"@
            &&& call[7] == "--output-file"@ && call[8] == base
            &&& call[9] == "--print-progress"@
            &&& call[10] == "--no-prints"@
        }),
{
}

/// The file of a piece is named by its number, in three digits or more.
pub proof fn pieces_have_files_of_their_own(i: nat)
    ensures
        chunk_file(i) == "chunk_"@ + three_digits(i) + ".wav"@,
{
}

/// The message of an error names what went wrong and carries what is known of it.
pub proof fn errors_of_the_engine_carry_their_causes(e: WhisperError)
    ensures
        match e {
            WhisperError::ModelMissing(x) => e@ == WhisperErrorView::ModelMissing(x@) && e@.text()
                == "Modelo GGML no encontrado en "@ + x@,
            WhisperError::Process(x) => e@ == WhisperErrorView::Process(x@) && e@.text()
                == "whisper-cli falló: "@ + x@,
            WhisperError::Stalled(x) => e@ == WhisperErrorView::Stalled(x@) && e@.text() == x@,
            WhisperError::OutputMissing(x) => e@ == WhisperErrorView::OutputMissing(x@)
                && e@.text() == "No se generó el JSON esperado en "@ + x@,
            WhisperError::InvalidJson(x) => e@ == WhisperErrorView::InvalidJson(x@) && e@.text()
                == "JSON de whisper inválido: "@ + x@,
            WhisperError::Io(x) => e@ == WhisperErrorView::Io(x@) && e@.text() == "Error de E/S: "@
                + x@,
            WhisperError::Tauri(x) => e@ == WhisperErrorView::Tauri(x@) && e@.text()
                == "Error de Tauri: "@ + x@,
        },
{
}

/// What is to be done next is seen as it is, with what it is to be done with.
pub proof fn actions_are_seen_as_they_are(e: EngineAction, c: ChunkAction)
    ensures
        match e {
            EngineAction::Listen(Some(t)) => e@ == EngineActionView::Listen(Some(t@)),
            EngineAction::Listen(None) => e@ == EngineActionView::Listen(None),
            EngineAction::Fail { kill, error } => e@ == (EngineActionView::Fail {
                kill,
                error: error@,
            }),
            EngineAction::ReadOutput => e@ is ReadOutput,
        },
        match c {
            ChunkAction::Whole => c@ is Whole,
            ChunkAction::Cut { tick, chunk } => c@ == (ChunkActionView::Cut { tick: tick@, chunk }),
            ChunkAction::Transcribe(chunk) => c@ == ChunkActionView::Transcribe(chunk),
            ChunkAction::Finish(Ok(run)) => c@ == ChunkActionView::Finish(Ok(run@)),
            ChunkAction::Finish(Err(error)) => c@ == ChunkActionView::Finish(Err(error@)),
        },
{
}

/// What the engine heard, and how far it has come, is seen with all that it holds, each thing in
/// its place.
pub proof fn runs_are_seen_as_they_are(r: WhisperRun, t: ProgressTick, i: int)
    ensures
        r@.language == r.language@,
        r@.model_used == r.model_used@,
        r@.full_text == r.full_text@,
        r@.segments.len() == r.segments@.len(),
        0 <= i < r.segments@.len() ==> r@.segments[i] == r.segments@[i]@,
        t@.percent == t.percent,
        t.note matches Some(x) ==> t@.note == Some(x@),
        t.note is None ==> t@.note is None,
{
}

} // verus!
