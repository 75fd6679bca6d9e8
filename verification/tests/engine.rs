use amautum_transcriptor::ffmpeg::{
    chunk_args, convert_args, duration_text, extract_ffmpeg_error, seconds_of, FfmpegError,
    FfmpegRun,
};
use amautum_transcriptor::process::{clock_fields, ProcessEvent};
use amautum_transcriptor::types::{Segment, WhisperModel, SECOND};
use amautum_transcriptor::whisper::{
    assemble_run, engine_args, engine_result, explain_exit, json_file, parse_progress_line,
    timestamp_fields,
    Chunk, ChunkAction, ChunkedRun, EngineAction, EngineOutput, EngineRun, ProgressTick,
    RawSegment, WhisperError, WhisperRun, EXIT_CRASH, EXIT_MISSING_DLL, EXIT_NO_CODE, EXIT_NO_MEMORY, EXIT_OLD_PROCESSOR,
};

fn s(text: &str) -> String {
    text.to_string()
}

/// A time of so many seconds.
fn secs(seconds: f64) -> i128 {
    (seconds * SECOND as f64) as i128
}

fn percent(line: &str) -> Option<u8> {
    parse_progress_line(line).map(|t| {
        assert!(t.note.is_none());
        t.percent
    })
}

// ── Progress of the engine ──────────────────────────────────────────────────

#[test]
fn progress_lines_are_read() {
    assert_eq!(percent("whisper_print_progress_callback: progress = 42%"), Some(42));
    assert_eq!(percent("PROGRESS=  007 %"), Some(7));
    assert_eq!(percent("progress = 250%"), Some(100));
    assert_eq!(percent("progress = 256%"), None);
    assert_eq!(percent("progress = 00000000000000000005%"), Some(5));
}

#[test]
fn other_lines_report_no_progress() {
    assert_eq!(percent(""), None);
    assert_eq!(percent("= 42 progress"), None);
    assert_eq!(percent("progress 42"), None);
    assert_eq!(percent("progress = %"), None);
    assert_eq!(percent("progress = -1"), None);
    assert_eq!(percent("ñandú progress ñ = 3"), Some(3));
}

// ── Ends of the engine ──────────────────────────────────────────────────────

#[test]
fn known_exits_are_explained() {
    assert_eq!(explain_exit(Some(-1073741515), ""), EXIT_MISSING_DLL);
    assert_eq!(explain_exit(Some(-1073741795), ""), EXIT_OLD_PROCESSOR);
    assert_eq!(explain_exit(Some(-1073741819), " \n"), EXIT_CRASH);
    assert_eq!(explain_exit(Some(-1073740791), ""), EXIT_CRASH);
    assert_eq!(explain_exit(Some(-1073741801), ""), EXIT_NO_MEMORY);
    assert_eq!(explain_exit(Some(137), ""), EXIT_NO_MEMORY);
    assert_eq!(explain_exit(None, ""), EXIT_NO_CODE);
    assert_eq!(
        explain_exit(Some(137), "a\nb\n\nc\r\nd\ne\n"),
        format!("{EXIT_NO_MEMORY} (detalle técnico: b | c | d | e)")
    );
}

#[test]
fn unknown_exits_say_something_too() {
    assert_eq!(explain_exit(Some(3), "uno\ndos"), "uno | dos");
    assert_eq!(
        explain_exit(Some(-3), ""),
        "el motor terminó con el código -3 sin dejar mensaje. Reintenta; si vuelve a pasar, prueba con un modelo más pequeño y envíanos el diagnóstico desde la ventana del agente."
    );
    assert_eq!(
        explain_exit(Some(i32::MIN), "").split(" sin").next().unwrap(),
        "el motor terminó con el código -2147483648"
    );
}

// ── Listening to the engine ─────────────────────────────────────────────────

#[test]
fn a_healthy_engine_is_read_to_its_end() {
    let mut run = EngineRun::new();
    let action = run.hear(ProcessEvent::Stderr(s("progress = 10%")));
    assert!(matches!(action, EngineAction::Listen(Some(t)) if t.percent == 10));
    let action = run.hear(ProcessEvent::Stdout(s("progress = 20%")));
    assert!(matches!(action, EngineAction::Listen(Some(t)) if t.percent == 20));
    assert!(matches!(run.hear(ProcessEvent::Other), EngineAction::Listen(None)));
    let action = run.hear(ProcessEvent::Terminated(Some(0)));
    assert!(matches!(action, EngineAction::Listen(None)));
    assert!(matches!(run.hear(ProcessEvent::Closed), EngineAction::ReadOutput));
}

#[test]
fn an_engine_that_dies_is_explained() {
    let mut run = EngineRun::new();
    run.hear(ProcessEvent::Stderr(s("boom")));
    run.hear(ProcessEvent::Stdout(s("not an error")));
    run.hear(ProcessEvent::Terminated(Some(2)));
    match run.hear(ProcessEvent::Closed) {
        EngineAction::Fail { kill: false, error } => {
            assert_eq!(error.message(), "whisper-cli falló: boom")
        }
        _ => panic!("it failed"),
    }
}

#[test]
fn a_silent_engine_is_stopped() {
    let mut mute = EngineRun::new();
    match mute.hear(ProcessEvent::Silence) {
        EngineAction::Fail { kill: true, error: WhisperError::Stalled(text) } => {
            assert!(text.starts_with(
                "El motor de transcripción arrancó pero no dio señales en 25 minutos."
            ))
        }
        _ => panic!("it was stopped"),
    }
    let mut spoke = EngineRun::new();
    spoke.hear(ProcessEvent::Stdout(s("hola")));
    spoke.hear(ProcessEvent::Terminated(None));
    match spoke.hear(ProcessEvent::Silence) {
        EngineAction::Fail { kill: false, error: WhisperError::Stalled(text) } => {
            assert!(text.starts_with(
                "El motor de transcripción dejó de responder por más de 25 minutos y lo detuvimos."
            ))
        }
        _ => panic!("there was nobody to stop"),
    }
    match EngineRun::new().hear(ProcessEvent::Error(s("roto"))) {
        EngineAction::Fail { kill: false, error: WhisperError::Process(e) } => {
            assert_eq!(e, "roto")
        }
        _ => panic!("it failed"),
    }
}

#[test]
fn errors_of_the_engine_have_their_messages() {
    let x = || s("x");
    let all = [
        (WhisperError::ModelMissing(x()), "Modelo GGML no encontrado en x"),
        (WhisperError::Process(x()), "whisper-cli falló: x"),
        (WhisperError::Stalled(x()), "x"),
        (WhisperError::OutputMissing(x()), "No se generó el JSON esperado en x"),
        (WhisperError::InvalidJson(x()), "JSON de whisper inválido: x"),
        (WhisperError::Io(x()), "Error de E/S: x"),
        (WhisperError::Tauri(x()), "Error de Tauri: x"),
    ];
    for (error, text) in all {
        assert_eq!(error.message(), text);
    }
}

#[test]
fn the_engine_is_called_with_its_arguments() {
    assert_eq!(
        engine_args("/m/ggml.bin", "/t/in.wav", "es", "/t/in"),
        [
            "-m", "/m/ggml.bin", "-f", "/t/in.wav", "-l", "es", "--output-json", "--output-file",
            "/t/in", "--print-progress", "--no-prints"
        ]
    );
}

// ── Results ─────────────────────────────────────────────────────────────────

fn raw(from: i128, to: i128, text: &str) -> RawSegment {
    RawSegment { from, to, text: s(text) }
}

#[test]
fn a_result_is_put_together() {
    let items = vec![raw(0, 1500, "  Buenos días. "), raw(1500, 2000, "\u{a0}Señoría\t")];
    let run = assemble_run(&items, None, "es", WhisperModel::Small);
    assert_eq!(run.full_text, "Buenos días. Señoría");
    assert_eq!((run.language.as_str(), run.model_used.as_str()), ("es", "small"));
    assert_eq!(run.segments[1].text, "Señoría");
    assert_eq!((run.segments[1].start, run.segments[1].end), (1500, 2000));
    assert!(run.segments[0].speaker.is_none());
    let heard = assemble_run(&items, Some(s("qu")), "es", WhisperModel::Small);
    assert_eq!(heard.language, "qu");
    let empty = assemble_run(&Vec::new(), None, "es", WhisperModel::Tiny);
    assert_eq!(empty.full_text, "");
}

#[test]
fn what_the_engine_left_behind_decides() {
    let message = |output| engine_result(output, "es", WhisperModel::Tiny).unwrap_err().message();
    assert_eq!(
        message(EngineOutput::Missing(s("\"/t/a.json\""))),
        "No se generó el JSON esperado en \"/t/a.json\""
    );
    assert_eq!(message(EngineOutput::Unreadable(s("x"))), "Error de E/S: x");
    assert_eq!(message(EngineOutput::Invalid(s("x"))), "JSON de whisper inválido: x");
    let read = EngineOutput::Read(vec![raw(0, 1, " a "), raw(1, 2, "b")], Some(s("en")));
    let run = engine_result(read, "es", WhisperModel::Tiny).unwrap();
    assert_eq!((run.full_text.as_str(), run.language.as_str()), ("a b", "en"));
    assert_eq!(run.model_used, "tiny");
}

#[test]
fn times_are_split_into_their_fields() {
    assert_eq!(timestamp_fields("00:01:02,345"), Some((s("00"), s("01"), s("02.345"))));
    assert_eq!(timestamp_fields("1:2"), None);
    assert_eq!(clock_fields("00:42:13.50"), Some((s("00"), s("42"), s("13.50"))));
    assert_eq!(clock_fields("1:2:3:4"), Some((s("1"), s("2"), s("3"))));
    assert_eq!(clock_fields(""), None);
}

// ── Long audios ─────────────────────────────────────────────────────────────

fn result(text: &str, language: &str) -> WhisperRun {
    WhisperRun {
        language: s(language),
        model_used: s("base"),
        segments: vec![Segment { start: secs(0.1), end: secs(0.2), text: s(text), speaker: None }],
        full_text: s(text),
    }
}

#[test]
fn short_audios_are_transcribed_whole() {
    for duration in [-1, 0, secs(1_200.0)] {
        let (run, action) = ChunkedRun::begin(duration, "es", WhisperModel::Base);
        assert!(run.is_none());
        assert!(matches!(action, ChunkAction::Whole));
    }
    assert!(ChunkedRun::begin(secs(1_200.0) + 1, "es", WhisperModel::Base).0.is_some());
}

#[test]
fn long_audios_are_transcribed_piece_by_piece() {
    let (run, action) = ChunkedRun::begin(secs(2_000.0), "es", WhisperModel::Base);
    let mut run = run.unwrap();
    let mut action = action;
    let mut pieces = Vec::new();
    let mut notes = Vec::new();
    let texts = [" uno ", "dos", ""];
    let done = loop {
        action = match action {
            ChunkAction::Cut { tick, chunk } => {
                notes.push((tick.percent, tick.note.unwrap()));
                pieces.push((chunk.file_name(), chunk.start as i128, chunk.duration as i128));
                run.extracted(Ok(()))
            }
            ChunkAction::Transcribe(chunk) => {
                let language = if chunk.index == 0 { "es-PE" } else { "en" };
                run.transcribed(Ok(result(texts[chunk.index as usize], language)))
            }
            ChunkAction::Finish(result) => break result.unwrap(),
            ChunkAction::Whole => panic!("it is long"),
        };
    };
    assert_eq!(
        pieces,
        [
            (s("chunk_000.wav"), 0, secs(905.0)),
            (s("chunk_001.wav"), secs(900.0), secs(905.0)),
            (s("chunk_002.wav"), secs(1_800.0), secs(200.0)),
        ]
    );
    assert_eq!(
        notes[1],
        (
            33,
            s("Preparando el tramo 2 de 3 (el motor recarga el modelo en cada tramo)")
        )
    );
    assert_eq!(done.full_text, "uno dos ");
    assert_eq!((done.language.as_str(), done.model_used.as_str()), ("es-PE", "base"));
    let starts: Vec<i128> = done.segments.iter().map(|s| s.start).collect();
    let first = secs(0.1);
    assert_eq!(starts, [first, secs(900.0) + first, secs(1_800.0) + first]);
    assert_eq!(done.segments[2].end, secs(1_800.0) + secs(0.2));
}

#[test]
fn a_last_piece_too_short_is_left_out() {
    let duration = secs(1_800.099);
    let (run, _) = ChunkedRun::begin(duration, "es", WhisperModel::Base);
    let mut run = run.unwrap();
    assert!(matches!(
        run.transcribed(Ok(result("a", "es"))),
        ChunkAction::Cut { chunk, .. } if chunk.index == 1 && chunk.duration as i128 == duration - secs(900.0)
    ));
    match run.transcribed(Ok(result("b", "es"))) {
        ChunkAction::Finish(Ok(all)) => assert_eq!(all.full_text, "a b"),
        _ => panic!("the third piece is too short"),
    }
    // A tenth of a second is enough.
    let (run, _) = ChunkedRun::begin(secs(1_800.0) + secs(0.1), "es", WhisperModel::Base);
    let mut run = run.unwrap();
    run.transcribed(Ok(result("a", "es")));
    assert!(matches!(
        run.transcribed(Ok(result("b", "es"))),
        ChunkAction::Cut { chunk, .. } if chunk.index == 2 && chunk.duration as i128 == secs(0.1)
    ));
}

#[test]
fn a_piece_that_fails_ends_the_run() {
    let (run, _) = ChunkedRun::begin(secs(2_000.0), "es", WhisperModel::Base);
    let mut run = run.unwrap();
    match run.extracted(Err(FfmpegError::Process(s("x")))) {
        ChunkAction::Finish(Err(e)) => assert_eq!(
            e.message(),
            "whisper-cli falló: ffmpeg al partir el audio: Falló FFmpeg: x"
        ),
        _ => panic!("it failed"),
    }
    match run.transcribed(Err(WhisperError::InvalidJson(s("y")))) {
        ChunkAction::Finish(Err(WhisperError::InvalidJson(e))) => assert_eq!(e, "y"),
        _ => panic!("it failed"),
    }
}

#[test]
fn the_progress_of_a_piece_counts_for_the_whole() {
    let chunk = Chunk { index: 2, count: 3, start: 0, duration: 0 };
    let tick = chunk.overall(&ProgressTick::plain(50));
    assert_eq!(tick.percent, 83);
    assert_eq!(
        tick.note.as_deref(),
        Some("Transcribiendo el tramo 3 de 3 (50% del tramo)")
    );
    assert_eq!(chunk.overall(&ProgressTick::plain(100)).percent, 100);
    assert_eq!(chunk.boundary().percent, 66);
    let huge = Chunk { index: u64::MAX - 1, count: u64::MAX, start: 0, duration: 0 };
    assert_eq!(huge.overall(&ProgressTick::plain(255)).percent, 100);
    let thousandth = Chunk { index: 1000, count: 1001, start: 0, duration: 0 };
    assert_eq!(thousandth.file_name(), "chunk_1000.wav");
}

#[test]
fn an_instant_beyond_every_clock_stays_the_last() {
    let (run, _) = ChunkedRun::begin(secs(2_000.0), "es", WhisperModel::Base);
    let mut run = run.unwrap();
    run.transcribed(Ok(result("a", "es")));
    let mut last = result("b", "es");
    last.segments[0].end = i128::MAX;
    run.transcribed(Ok(last));
    match run.transcribed(Ok(result("c", "es"))) {
        ChunkAction::Finish(Ok(all)) => assert_eq!(all.segments[1].end, i128::MAX),
        _ => panic!("it is done"),
    }
}

// ── The converter ───────────────────────────────────────────────────────────

#[test]
fn the_converter_is_called_with_its_arguments() {
    assert_eq!(
        convert_args("a.mp3", "b.wav"),
        [
            "-y", "-i", "a.mp3", "-vn", "-ac", "1", "-ar", "16000", "-f", "wav", "-acodec",
            "pcm_s16le", "b.wav"
        ]
    );
    assert_eq!(
        chunk_args("b.wav", secs(900.0) as u128, secs(905.007) as u128, "c.wav"),
        ["-y", "-ss", "900.000", "-i", "b.wav", "-t", "905.007", "-c", "copy", "c.wav"]
    );
    assert_eq!(seconds_of(0), "0.000");
    let times =
        [61.05, 0.0625, 0.1875, 0.0005, 1.0005, 2.0015, 0.9996, 59.9994, 1_800.099_95, 1e9 + 0.1];
    for seconds in times {
        assert_eq!(seconds_of(secs(seconds) as u128), format!("{seconds:.3}"));
    }
}

#[test]
fn durations_are_found_in_what_the_converter_writes() {
    let text = "Input #0\n  Duration: 00:42:13.50, start: 0.0\n  Duration: 00:00:01, x\n";
    assert_eq!(duration_text(text).as_deref(), Some("00:42:13.50"));
    assert_eq!(duration_text("\tDuration: N/A").as_deref(), Some("N/A"));
    assert_eq!(duration_text("The Duration: 1"), None);
    assert_eq!(duration_text(""), None);
}

#[test]
fn the_converter_is_listened_to() {
    let mut run = FfmpegRun::new();
    assert!(run.hear(ProcessEvent::Stderr(s("Duration: 00:00:02.00, x"))).is_none());
    assert!(run.hear(ProcessEvent::Stdout(s("ignored"))).is_none());
    assert!(run.hear(ProcessEvent::Terminated(Some(0))).is_none());
    assert!(matches!(run.hear(ProcessEvent::Closed), Some(Ok(()))));
    assert_eq!(run.duration().as_deref(), Some("00:00:02.00"));
    let mut bad = FfmpegRun::new();
    for line in ["a", "", "b", "c", "d"] {
        bad.hear(ProcessEvent::Stderr(s(line)));
    }
    bad.hear(ProcessEvent::Terminated(Some(1)));
    match bad.hear(ProcessEvent::Closed) {
        Some(Err(e)) => assert_eq!(e.message(), "Falló FFmpeg: b | c | d"),
        _ => panic!("it failed"),
    }
    match FfmpegRun::new().hear(ProcessEvent::Error(s("x"))) {
        Some(Err(FfmpegError::Process(e))) => assert_eq!(e, "x"),
        _ => panic!("it failed"),
    }
    assert!(matches!(FfmpegRun::new().hear(ProcessEvent::Closed), Some(Err(_))));
    assert_eq!(extract_ffmpeg_error("1\n2\n3\n4"), "2 | 3 | 4");
}

#[test]
fn errors_of_the_converter_have_their_messages() {
    assert_eq!(FfmpegError::NotFound(s("/x")).message(), "El archivo de audio no existe: /x");
    assert_eq!(FfmpegError::Io(s("x")).message(), "Error de E/S: x");
    assert_eq!(FfmpegError::Tauri(s("x")).message(), "Error de Tauri: x");
}

#[test]
fn the_engine_writes_beside_its_base() {
    assert_eq!(json_file("/t/in"), "/t/in.json");
    assert_eq!(json_file("/t/a.b"), "/t/a.b.json");
}
