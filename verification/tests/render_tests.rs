use whisper_cli::Transcript;
use whisper_cli::Utterance;
use whisper_cli::render::u64_dec;

fn utterance(text: &str, start: i64, stop: i64) -> Utterance {
    Utterance { text: text.to_string(), start, stop }
}

fn sample_transcript() -> Transcript {
    Transcript {
        utterances: vec![utterance("Hello there.", 0, 1500), utterance("Bye.", 1500, 366127)],
        word_utterances: None,
        processing_time: 5,
    }
}

#[test]
fn decimal_rendering() {
    assert_eq!(u64_dec(0), "0");
    assert_eq!(u64_dec(7), "7");
    assert_eq!(u64_dec(10), "10");
    assert_eq!(u64_dec(1234567890), "1234567890");
}

#[test]
fn vtt_timestamp_scale_and_padding() {
    // start=0, stop=1500 centiseconds: one centisecond is ten milliseconds,
    // so the range renders as 0 ms to 15000 ms.
    let t = Transcript {
        utterances: vec![utterance("hi", 0, 1500)],
        word_utterances: None,
        processing_time: 0,
    };
    assert_eq!(t.as_vtt(), "WEBVTT\n\n00:00:00.000 --> 00:00:15.000\nhi\n\n");
}

#[test]
fn srt_timestamp_uses_comma() {
    let t = Transcript {
        utterances: vec![utterance("hi", 0, 1500)],
        word_utterances: None,
        processing_time: 0,
    };
    assert_eq!(t.as_srt(), "1\n00:00:00,000 --> 00:00:15,000\nhi\n\n");
}

#[test]
fn exact_text_rendering() {
    let t = sample_transcript();
    assert_eq!(t.as_text(), "Hello there.\nBye.\n");
}

#[test]
fn exact_vtt_rendering() {
    // 366127 cs = 3661270 ms = 1 h, 1 min, 1 s, 270 ms.
    let t = sample_transcript();
    assert_eq!(
        t.as_vtt(),
        "WEBVTT\n\n00:00:00.000 --> 00:00:15.000\nHello there.\n\n00:00:15.000 --> 01:01:01.270\nBye.\n\n"
    );
}

#[test]
fn exact_srt_rendering() {
    let t = sample_transcript();
    assert_eq!(
        t.as_srt(),
        "1\n00:00:00,000 --> 00:00:15,000\nHello there.\n\n2\n00:00:15,000 --> 01:01:01,270\nBye.\n\n"
    );
}

#[test]
fn rendering_twice_is_byte_identical() {
    let t = sample_transcript();
    assert_eq!(t.as_text().into_bytes(), t.as_text().into_bytes());
    assert_eq!(t.as_vtt().into_bytes(), t.as_vtt().into_bytes());
    assert_eq!(t.as_srt().into_bytes(), t.as_srt().into_bytes());
}

#[test]
fn one_cue_block_per_utterance_in_order() {
    let t = Transcript {
        utterances: vec![
            utterance("alpha", 0, 100),
            utterance("beta", 100, 200),
            utterance("gamma", 200, 300),
        ],
        word_utterances: None,
        processing_time: 0,
    };
    let vtt = t.as_vtt();
    let srt = t.as_srt();
    // One timestamp-range line per utterance.
    assert_eq!(vtt.matches(" --> ").count(), 3);
    assert_eq!(srt.matches(" --> ").count(), 3);
    // Cues appear in utterance order.
    let a = vtt.find("alpha").unwrap();
    let b = vtt.find("beta").unwrap();
    let c = vtt.find("gamma").unwrap();
    assert!(a < b && b < c);
    // SRT cue indices are exactly 1..=3, each on its own line, in order.
    let blocks: Vec<&str> = srt.split("\n\n").filter(|b| !b.is_empty()).collect();
    assert_eq!(blocks.len(), 3);
    for (i, block) in blocks.iter().enumerate() {
        let index_line = block.lines().next().unwrap();
        assert_eq!(index_line, (i + 1).to_string());
    }
}

#[test]
fn hours_grow_past_two_digits() {
    // 100 hours = 36,000,000 cs.
    let t = Transcript {
        utterances: vec![utterance("late", 36000000, 36000001)],
        word_utterances: None,
        processing_time: 0,
    };
    assert_eq!(t.as_vtt(), "WEBVTT\n\n100:00:00.000 --> 100:00:00.010\nlate\n\n");
}
