use amautum_transcriptor::diarize::{
    diarize_args, diarize_segments, dominant_speaker, human_label, parse_span_line, DiarizeAction,
    DiarizeError, DiarizeRun, SpeakerSpan,
};
use amautum_transcriptor::process::ProcessEvent;
use amautum_transcriptor::types::{Segment, SECOND};

fn s(text: &str) -> String {
    text.to_string()
}

/// A time of so many seconds.
fn secs(seconds: f64) -> i128 {
    (seconds * SECOND as f64) as i128
}

fn span(start: i128, end: i128, raw: &str) -> SpeakerSpan {
    SpeakerSpan { start, end, raw_speaker: s(raw) }
}

fn segment(start: i128, end: i128) -> Segment {
    Segment { start, end, text: s("texto"), speaker: None }
}

#[test]
fn parses_canonical_span_line() {
    let span = parse_span_line("0.038 -- 2.910 speaker_00").unwrap();
    assert_eq!(span.start.parse::<f64>().unwrap(), 0.038);
    assert_eq!(span.end.parse::<f64>().unwrap(), 2.910);
    assert_eq!(span.raw_speaker, "speaker_00");
}

#[test]
fn ignores_non_span_lines() {
    assert!(parse_span_line("Loading model from foo.onnx").is_none());
    assert!(parse_span_line("").is_none());
}

#[test]
fn odd_span_lines() {
    let span = parse_span_line("  1.5   --  2.5\tSPEAKER_1 and more\r\n").unwrap();
    assert_eq!((span.start.as_str(), span.end.as_str()), ("1.5", "2.5"));
    assert_eq!(span.raw_speaker, "SPEAKER_1");
    assert!(parse_span_line("1 -- 2 voice_1").is_none());
    assert!(parse_span_line("1 -- 2").is_none());
    assert!(parse_span_line("1--2 speaker_0").is_none());
}

#[test]
fn dominant_speaker_picks_max_overlap() {
    let spans = vec![
        span(secs(0.0), secs(5.0), "speaker_00"),
        span(secs(5.0), secs(10.0), "speaker_01"),
    ];
    // The segment from 4 to 9 shares one second with the first and four with the second.
    assert_eq!(dominant_speaker(secs(4.0), secs(9.0), &spans).as_deref(), Some("speaker_01"));
    // A segment outside every span belongs to nobody.
    assert_eq!(dominant_speaker(secs(20.0), secs(21.0), &spans), None);
}

#[test]
fn the_first_of_equals_wins() {
    let spans = vec![span(0, 10, "a"), span(10, 20, "b"), span(0, 12, "c")];
    assert_eq!(dominant_speaker(5, 15, &spans).as_deref(), Some("c"));
    assert_eq!(dominant_speaker(5, 15, &spans[..2].iter().map(|x| span(x.start, x.end, &x.raw_speaker)).collect()).as_deref(), Some("a"));
    assert_eq!(dominant_speaker(10, 10, &spans), None);
    assert_eq!(dominant_speaker(i128::MIN, i128::MAX, &vec![span(i128::MIN, i128::MAX, "z")]).as_deref(), Some("z"));
}

#[test]
fn the_finest_difference_decides() {
    let close = |at: f64| vec![span(0, secs(at), "a"), span(secs(at), secs(1.0), "b")];
    assert_eq!(dominant_speaker(0, secs(1.0), &close(0.4996)).as_deref(), Some("b"));
    assert_eq!(dominant_speaker(0, secs(1.0), &close(0.5004)).as_deref(), Some("a"));
    assert_eq!(dominant_speaker(0, secs(1.0), &close(0.5)).as_deref(), Some("a"));
    // As doubles, from 0.1 to 0.3 is a little less than from 0.3 to 0.5.
    assert!(0.3 - 0.1 < 0.5 - 0.3);
    let spans = vec![span(secs(0.1), secs(0.3), "a"), span(secs(0.3), secs(0.5), "b")];
    assert_eq!(dominant_speaker(secs(0.1), secs(0.5), &spans).as_deref(), Some("b"));
}

#[test]
fn assigns_labels_in_appearance_order() {
    // Labels go by the order in which people first speak in the text.
    assert_eq!(human_label(0), "Hablante 1");
    assert_eq!(human_label(2), "Hablante 3");
}

#[test]
fn segments_get_the_names_of_their_speakers() {
    let spans = vec![
        span(0, 1_000, "speaker_07"),
        span(1_000, 2_000, "speaker_00"),
        span(3_000, 4_000, "speaker_07"),
    ];
    let mut segments = vec![
        segment(2_200, 2_800),
        segment(1_100, 1_900),
        segment(100, 900),
        segment(3_100, 3_900),
    ];
    let result = diarize_segments(&spans, &mut segments).unwrap();
    assert_eq!(result.speakers, ["Hablante 1", "Hablante 2"]);
    assert_eq!(result.labeled_segments, 3);
    let names: Vec<Option<&str>> = segments.iter().map(|s| s.speaker.as_deref()).collect();
    assert_eq!(
        names,
        [None, Some("Hablante 1"), Some("Hablante 2"), Some("Hablante 2")]
    );
    assert_eq!(segments[0].text, "texto");
}

#[test]
fn without_spans_nobody_is_named() {
    let mut segments = vec![segment(0, 10)];
    let result = diarize_segments(&Vec::new(), &mut segments);
    assert!(matches!(result, Err(DiarizeError::NoOutput)));
    assert!(segments[0].speaker.is_none());
    let far = vec![span(100, 200, "speaker_0")];
    let result = diarize_segments(&far, &mut segments).unwrap();
    assert!(result.speakers.is_empty());
    assert_eq!(result.labeled_segments, 0);
}

#[test]
fn the_program_is_called_with_its_arguments() {
    assert_eq!(
        diarize_args("s.onnx", "e.onnx", Some(3), "a.wav"),
        [
            "--segmentation.pyannote-model=s.onnx",
            "--embedding.model=e.onnx",
            "--num-threads=2",
            "--clustering.num-clusters=3",
            "a.wav"
        ]
    );
    for n in [None, Some(0)] {
        assert_eq!(
            diarize_args("s", "e", n, "a")[3],
            "--clustering.cluster-threshold=0.5"
        );
    }
}

#[test]
fn spans_are_read_from_both_outputs() {
    let mut run = DiarizeRun::new();
    for event in [
        ProcessEvent::Stdout(s("0.1 -- 0.2 speaker_00")),
        ProcessEvent::Stderr(s("0.2 -- 0.3 speaker_01")),
    ] {
        assert!(matches!(run.hear(event), DiarizeAction::Listen(Some(_))));
    }
    assert!(matches!(
        run.hear(ProcessEvent::Stdout(s("banner"))),
        DiarizeAction::Listen(None)
    ));
    run.hear(ProcessEvent::Terminated(Some(0)));
    assert!(matches!(run.hear(ProcessEvent::Closed), DiarizeAction::Finish(Ok(()))));
}

#[test]
fn a_program_that_fails_says_why() {
    let mut run = DiarizeRun::new();
    run.hear(ProcessEvent::Stderr(s("a")));
    run.hear(ProcessEvent::Stderr(s("b")));
    run.hear(ProcessEvent::Terminated(Some(1)));
    match run.hear(ProcessEvent::Closed) {
        DiarizeAction::Finish(Err(e)) => {
            assert_eq!(e.message(), "sherpa-diarize falló: a | b")
        }
        _ => panic!("it failed"),
    }
    match DiarizeRun::new().hear(ProcessEvent::Error(s("x"))) {
        DiarizeAction::Finish(Err(DiarizeError::Process(e))) => assert_eq!(e, "x"),
        _ => panic!("it failed"),
    }
    assert_eq!(
        DiarizeError::NoOutput.message(),
        "sherpa-diarize no devolvió tramos de hablante parseables"
    );
    assert_eq!(DiarizeError::Tauri(s("x")).message(), "Error de Tauri: x");
}
