use whisper_cli::RawSegment;
use whisper_cli::RawToken;
use whisper_cli::TranscribeError;
use whisper_cli::assemble;
use whisper_cli::decode_pcm_s16le;

fn token(text: &str, start: i64, stop: i64) -> RawToken {
    RawToken { text: text.to_string(), start, stop }
}

fn segment(text: &str, start: i64, stop: i64, tokens: Vec<RawToken>) -> RawSegment {
    RawSegment { text: text.to_string(), start, stop, tokens }
}

#[test]
fn empty_segments_is_no_speech() {
    let r = assemble(Vec::new(), false, 7);
    assert!(matches!(r, Err(TranscribeError::NoSpeechDetected)));
    let r = assemble(Vec::new(), true, 7);
    assert!(matches!(r, Err(TranscribeError::NoSpeechDetected)));
}

#[test]
fn segments_map_to_trimmed_utterances_in_order() {
    let segs = vec![
        segment(" Hello there. ", 0, 150, Vec::new()),
        segment(" General Kenobi! ", 150, 420, Vec::new()),
    ];
    let t = assemble(segs, false, 12).unwrap();
    assert_eq!(t.utterances.len(), 2);
    assert_eq!(t.utterances[0].text, "Hello there.");
    assert_eq!(t.utterances[0].start, 0);
    assert_eq!(t.utterances[0].stop, 150);
    assert_eq!(t.utterances[1].text, "General Kenobi!");
    assert_eq!(t.utterances[1].start, 150);
    assert_eq!(t.utterances[1].stop, 420);
    assert_eq!(t.processing_time, 12);
}

#[test]
fn control_tokens_are_filtered_from_words() {
    let segs = vec![segment(
        "hello world",
        0,
        200,
        vec![
            token("[_TT_0]", 0, 0),
            token("hello", 0, 100),
            token("[_TT_1]", 100, 100),
            token("world", 100, 200),
        ],
    )];
    let t = assemble(segs, true, 0).unwrap();
    let words = t.word_utterances.unwrap();
    let texts: Vec<&str> = words.iter().map(|w| w.text.as_str()).collect();
    assert_eq!(texts, vec!["hello", "world"]);
    assert_eq!(words[0].start, 0);
    assert_eq!(words[0].stop, 100);
    assert_eq!(words[1].start, 100);
    assert_eq!(words[1].stop, 200);
}

#[test]
fn words_flatten_across_segments_in_order() {
    let segs = vec![
        segment("one two", 0, 100, vec![token("one", 0, 50), token("two", 50, 100)]),
        segment("three", 100, 200, vec![token("[_BEG_]", 100, 100), token("three", 100, 200)]),
    ];
    let t = assemble(segs, true, 0).unwrap();
    let words = t.word_utterances.unwrap();
    let texts: Vec<&str> = words.iter().map(|w| w.text.as_str()).collect();
    assert_eq!(texts, vec!["one", "two", "three"]);
}

#[test]
fn word_utterances_absent_when_mode_off() {
    let segs = vec![segment("hi", 0, 10, vec![token("hi", 0, 10)])];
    let t = assemble(segs, false, 0).unwrap();
    assert!(t.word_utterances.is_none());
}

#[test]
fn word_utterances_present_but_empty_when_all_tokens_special() {
    let segs = vec![segment("x", 0, 10, vec![token("[_TT_0]", 0, 0)])];
    let t = assemble(segs, true, 0).unwrap();
    let words = t.word_utterances;
    assert_eq!(words.map(|w| w.len()), Some(0));
}

#[test]
fn silent_buffer_ends_in_no_speech() {
    // A 1-second silent 16kHz mono PCM stream decodes to 16000 zero
    // samples; the engine finds no speech in it and emits zero segments,
    // so assembly must fail with NoSpeechDetected rather than produce an
    // empty transcript.
    let bytes = vec![0u8; 32000];
    let samples = decode_pcm_s16le(&bytes);
    assert_eq!(samples.len(), 16000);
    assert!(samples.iter().all(|&s| s == 0));
    let engine_segments: Vec<RawSegment> = Vec::new();
    let r = assemble(engine_segments, false, 950);
    assert!(matches!(r, Err(TranscribeError::NoSpeechDetected)));
}

#[test]
fn two_known_segments_assemble_and_render_in_order() {
    // A fixed engine result of two known segments yields a transcript with
    // exactly those two utterances, and the plain-text rendering holds both
    // texts in order.
    let segs = vec![
        segment(" first words", 0, 100, Vec::new()),
        segment(" second words", 100, 250, Vec::new()),
    ];
    let t = assemble(segs, false, 33).unwrap();
    assert_eq!(t.utterances.len(), 2);
    assert_eq!(t.utterances[0].text, "first words");
    assert_eq!(t.utterances[1].text, "second words");
    let text = t.as_text();
    let first = text.find("first words").unwrap();
    let second = text.find("second words").unwrap();
    assert!(first < second);
}
