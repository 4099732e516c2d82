//! The transcript model and its assembly from raw engine output.
//!
//! The recognition engine emits ordered segments, each with text, a time
//! range in centiseconds, and optionally per-token timestamps. Assembly maps
//! segments to utterances (trimming their text), optionally flattens the
//! tokens of all segments into word-level utterances while dropping reserved
//! control tokens, and rejects an empty segment sequence.

use vstd::prelude::*;

use crate::text::str_starts_with;
use crate::text::trim_of;
use crate::text::trim_str;

verus! {

/// Upper bound on timestamps (in centiseconds) that the library handles;
/// keeps the conversion to milliseconds inside machine arithmetic.
pub const MAX_TIMESTAMP: i64 = 0x7fff_ffff_ffff;

/// Failure modes of the inference and assembly stages.
#[derive(Clone, Copy, Debug, PartialEq, Eq, Structural)]
pub enum TranscribeError {
    /// Per-call inference state could not be created; the engine is unusable.
    EngineInitFailed,
    /// The engine errored during the recognition pass.
    InferenceFailed,
    /// Recognition produced zero segments (e.g. silence-only audio).
    NoSpeechDetected,
}

/// A transcribed unit of speech: its text and its time range, in the
/// engine's native unit (centiseconds).
pub struct Utterance {
    pub text: String,
    pub start: i64,
    pub stop: i64,
}

/// Mathematical model of an [`Utterance`].
pub ghost struct UtteranceView {
    pub text: Seq<char>,
    pub start: int,
    pub stop: int,
}

/// A time range that starts at or after zero, does not run backwards, and
/// stays within the bound the library handles.
pub open spec fn time_range_wf(start: int, stop: int) -> bool {
    0 <= start <= stop <= MAX_TIMESTAMP
}

impl UtteranceView {
    pub open spec fn wf(self) -> bool {
        time_range_wf(self.start, self.stop)
    }
}

impl View for Utterance {
    type V = UtteranceView;

    open spec fn view(&self) -> UtteranceView {
        UtteranceView { text: self.text@, start: self.start as int, stop: self.stop as int }
    }
}

/// One token of recognized text within a segment, with its own time range.
pub struct RawToken {
    pub text: String,
    pub start: i64,
    pub stop: i64,
}

/// Mathematical model of a [`RawToken`].
pub ghost struct RawTokenView {
    pub text: Seq<char>,
    pub start: int,
    pub stop: int,
}

impl RawTokenView {
    pub open spec fn wf(self) -> bool {
        time_range_wf(self.start, self.stop)
    }
}

impl View for RawToken {
    type V = RawTokenView;

    open spec fn view(&self) -> RawTokenView {
        RawTokenView { text: self.text@, start: self.start as int, stop: self.stop as int }
    }
}

/// One contiguous span of recognized speech as emitted by the engine.
pub struct RawSegment {
    pub text: String,
    pub start: i64,
    pub stop: i64,
    pub tokens: Vec<RawToken>,
}

/// Mathematical model of a [`RawSegment`].
pub ghost struct RawSegmentView {
    pub text: Seq<char>,
    pub start: int,
    pub stop: int,
    pub tokens: Seq<RawTokenView>,
}

impl RawSegmentView {
    pub open spec fn wf(self) -> bool {
        &&& time_range_wf(self.start, self.stop)
        &&& forall|i: int| 0 <= i < self.tokens.len() ==> (#[trigger] self.tokens[i]).wf()
    }
}

/// The views of a sequence of tokens.
pub open spec fn token_views(s: Seq<RawToken>) -> Seq<RawTokenView> {
    s.map_values(|t: RawToken| t@)
}

impl View for RawSegment {
    type V = RawSegmentView;

    open spec fn view(&self) -> RawSegmentView {
        RawSegmentView {
            text: self.text@,
            start: self.start as int,
            stop: self.stop as int,
            tokens: token_views(self.tokens@),
        }
    }
}

/// The views of a sequence of segments.
pub open spec fn seg_views(s: Seq<RawSegment>) -> Seq<RawSegmentView> {
    s.map_values(|x: RawSegment| x@)
}

/// The views of a sequence of utterances.
pub open spec fn utt_views(s: Seq<Utterance>) -> Seq<UtteranceView> {
    s.map_values(|u: Utterance| u@)
}

/// The assembled result of one transcription run. `word_utterances` is
/// present exactly when word-timestamp mode was requested;
/// `processing_time` is the elapsed wall-clock time of the inference call
/// alone, in milliseconds.
pub struct Transcript {
    pub utterances: Vec<Utterance>,
    pub word_utterances: Option<Vec<Utterance>>,
    pub processing_time: u64,
}

/// Mathematical model of a [`Transcript`].
pub ghost struct TranscriptView {
    pub utterances: Seq<UtteranceView>,
    pub word_utterances: Option<Seq<UtteranceView>>,
    pub processing_time: int,
}

impl TranscriptView {
    pub open spec fn wf(self) -> bool {
        &&& self.utterances.len() > 0
        &&& forall|i: int| 0 <= i < self.utterances.len() ==> (#[trigger] self.utterances[i]).wf()
        &&& match self.word_utterances {
            Option::Some(ws) => forall|i: int| 0 <= i < ws.len() ==> (#[trigger] ws[i]).wf(),
            Option::None => true,
        }
    }
}

impl View for Transcript {
    type V = TranscriptView;

    open spec fn view(&self) -> TranscriptView {
        TranscriptView {
            utterances: utt_views(self.utterances@),
            word_utterances: match self.word_utterances {
                Option::Some(ref ws) => Option::Some(utt_views(ws@)),
                Option::None => Option::None,
            },
            processing_time: self.processing_time as int,
        }
    }
}

impl Transcript {
    /// A transcript is well formed when it has at least one utterance and
    /// every time range (segment-level and word-level) is in order and in
    /// bounds.
    pub open spec fn wf(self) -> bool {
        self@.wf()
    }
}

/// Whether a token's text begins with the reserved control-marker prefix
/// `"[_"`; such tokens denote engine-internal markers and never appear in
/// user-facing output.
pub open spec fn is_special_token(text: Seq<char>) -> bool {
    text.len() >= 2 && text[0] == '[' && text[1] == '_'
}

/// The word-level utterance a token maps to: its text and time range, kept
/// as emitted.
pub open spec fn word_of(t: RawTokenView) -> UtteranceView {
    UtteranceView { text: t.text, start: t.start, stop: t.stop }
}

/// The word-level utterances of one segment's token sequence, in order,
/// with reserved control tokens dropped.
pub open spec fn words_of_tokens(toks: Seq<RawTokenView>) -> Seq<UtteranceView>
    decreases toks.len(),
{
    if toks.len() == 0 {
        Seq::empty()
    } else {
        let rest = words_of_tokens(toks.drop_last());
        if is_special_token(toks.last().text) {
            rest
        } else {
            rest.push(word_of(toks.last()))
        }
    }
}

/// The word-level utterances of a segment sequence: each segment's filtered
/// tokens, flattened across segment boundaries into one ordered sequence.
pub open spec fn words_of_segments(segs: Seq<RawSegmentView>) -> Seq<UtteranceView>
    decreases segs.len(),
{
    if segs.len() == 0 {
        Seq::empty()
    } else {
        words_of_segments(segs.drop_last()) + words_of_tokens(segs.last().tokens)
    }
}

proof fn lemma_words_of_tokens_not_special(toks: Seq<RawTokenView>)
    ensures
        forall|i: int|
            0 <= i < words_of_tokens(toks).len() ==> !is_special_token(
                (#[trigger] words_of_tokens(toks)[i]).text,
            ),
    decreases toks.len(),
{
    if toks.len() > 0 {
        lemma_words_of_tokens_not_special(toks.drop_last());
        let rest = words_of_tokens(toks.drop_last());
        let whole = words_of_tokens(toks);
        assert forall|i: int| 0 <= i < whole.len() implies !is_special_token(
            (#[trigger] whole[i]).text,
        ) by {
            if i < rest.len() {
                assert(whole[i] == rest[i]);
            } else {
                assert(whole[i] == word_of(toks.last()));
            }
        }
    }
}

/// Reserved control tokens never appear in word-level output: no word
/// utterance derived from a segment sequence carries the control-marker
/// prefix.
pub proof fn lemma_words_not_special(segs: Seq<RawSegmentView>)
    ensures
        forall|i: int|
            0 <= i < words_of_segments(segs).len() ==> !is_special_token(
                (#[trigger] words_of_segments(segs)[i]).text,
            ),
    decreases segs.len(),
{
    if segs.len() > 0 {
        lemma_words_not_special(segs.drop_last());
        lemma_words_of_tokens_not_special(segs.last().tokens);
        let prev = words_of_segments(segs.drop_last());
        let tail = words_of_tokens(segs.last().tokens);
        let whole = words_of_segments(segs);
        assert forall|i: int| 0 <= i < whole.len() implies !is_special_token(
            (#[trigger] whole[i]).text,
        ) by {
            if i < prev.len() {
                assert(whole[i] == prev[i]);
            } else {
                assert(whole[i] == tail[i - prev.len()]);
            }
        }
    }
}

/// The segment-level utterance a segment maps to: trimmed text, same time
/// range.
pub open spec fn utterance_of_segment(s: RawSegmentView) -> UtteranceView {
    UtteranceView { text: trim_of(s.text), start: s.start, stop: s.stop }
}

/// The segment-level utterances of a segment sequence, in order.
pub open spec fn utterances_of(segs: Seq<RawSegmentView>) -> Seq<UtteranceView> {
    segs.map_values(|s: RawSegmentView| utterance_of_segment(s))
}

/// Tests a token's text for the reserved control-marker prefix.
fn is_special_text(text: &String) -> (r: bool)
    ensures
        r == is_special_token(text@),
{
    let r = str_starts_with(text.as_str(), "[_");
    proof {
        reveal_strlit("[_");
        let t = text@;
        if t.len() >= 2 {
            if t[0] == '[' && t[1] == '_' {
                assert(t.subrange(0, 2) =~= "[_"@);
            }
            if t.subrange(0, 2) == "[_"@ {
                assert(t[0] == t.subrange(0, 2)[0]);
                assert(t[1] == t.subrange(0, 2)[1]);
            }
        }
    }
    r
}

/// Assembles the engine's raw segment output into a transcript.
///
/// Fails with `NoSpeechDetected` exactly when the segment sequence is
/// empty. Otherwise maps every segment, in order, to an utterance with
/// trimmed text; when `want_words` is set it also flattens all segments'
/// tokens, minus reserved control tokens, into word-level utterances, and
/// otherwise leaves `word_utterances` absent. `elapsed_ms` is recorded as
/// the processing time.
pub fn assemble(segments: Vec<RawSegment>, want_words: bool, elapsed_ms: u64) -> (r: Result<
    Transcript,
    TranscribeError,
>)
    requires
        forall|i: int| 0 <= i < segments@.len() ==> (#[trigger] segments@[i])@.wf(),
    ensures
        r is Err <==> segments@.len() == 0,
        r is Err ==> r == Result::<Transcript, TranscribeError>::Err(
            TranscribeError::NoSpeechDetected,
        ),
        r matches Ok(t) ==> {
            &&& t@.utterances.len() == segments@.len()
            &&& t@.utterances == utterances_of(seg_views(segments@))
            &&& t@.word_utterances == (if want_words {
                Option::Some(words_of_segments(seg_views(segments@)))
            } else {
                Option::<Seq<UtteranceView>>::None
            })
            &&& t@.processing_time == elapsed_ms as int
            &&& t@.wf()
        },
{
    if segments.len() == 0 {
        return Err(TranscribeError::NoSpeechDetected);
    }
    let ghost sv = seg_views(segments@);
    let n = segments.len();
    let mut utterances: Vec<Utterance> = Vec::new();
    let mut words: Vec<Utterance> = Vec::new();
    let mut k: usize = 0;
    while k < n
        invariant
            n == segments@.len(),
            k <= n,
            sv == seg_views(segments@),
            forall|i: int| 0 <= i < segments@.len() ==> (#[trigger] segments@[i])@.wf(),
            utt_views(utterances@) == utterances_of(sv.subrange(0, k as int)),
            want_words ==> utt_views(words@) == words_of_segments(sv.subrange(0, k as int)),
            !want_words ==> words@.len() == 0,
            forall|i: int| 0 <= i < utterances@.len() ==> (#[trigger] utterances@[i])@.wf(),
            forall|i: int| 0 <= i < words@.len() ==> (#[trigger] words@[i])@.wf(),
        decreases n - k,
    {
        let seg = &segments[k];
        let text = trim_str(seg.text.as_str());
        let ghost old_utts = utterances@;
        utterances.push(Utterance { text, start: seg.start, stop: seg.stop });
        proof {
            assert(utt_views(old_utts.push(utterances@.last())) =~= utt_views(old_utts).push(
                utterances@.last()@,
            ));
            assert(sv.subrange(0, k + 1).drop_last() =~= sv.subrange(0, k as int));
            assert(utterances_of(sv.subrange(0, k + 1)) =~= utterances_of(
                sv.subrange(0, k as int),
            ).push(utterance_of_segment(sv[k as int])));
        }
        if want_words {
            let toks = &seg.tokens;
            let m = toks.len();
            let mut j: usize = 0;
            while j < m
                invariant
                    n == segments@.len(),
                    k < n,
                    sv == seg_views(segments@),
                    forall|i: int| 0 <= i < segments@.len() ==> (#[trigger] segments@[i])@.wf(),
                    toks == &segments@[k as int].tokens,
                    m == toks@.len(),
                    j <= m,
                    utt_views(words@) == words_of_segments(sv.subrange(0, k as int))
                        + words_of_tokens(token_views(toks@).subrange(0, j as int)),
                    forall|i: int| 0 <= i < words@.len() ==> (#[trigger] words@[i])@.wf(),
                decreases m - j,
            {
                let tok = &toks[j];
                let special = is_special_text(&tok.text);
                proof {
                    assert(token_views(toks@).subrange(0, j + 1).drop_last() =~= token_views(
                        toks@,
                    ).subrange(0, j as int));
                    assert(token_views(toks@)[j as int] == toks@[j as int]@);
                    assert(sv[k as int] == segments@[k as int]@);
                    assert(segments@[k as int]@.tokens[j as int].wf());
                }
                if !special {
                    let ghost old_words = words@;
                    words.push(Utterance { text: tok.text.clone(), start: tok.start, stop: tok.stop });
                    proof {
                        assert(utt_views(old_words.push(words@.last())) =~= utt_views(
                            old_words,
                        ).push(words@.last()@));
                    }
                }
                j = j + 1;
            }
            proof {
                assert(token_views(toks@).subrange(0, m as int) =~= token_views(toks@));
                assert(sv[k as int].tokens == token_views(toks@));
                assert(sv.subrange(0, k + 1).drop_last() =~= sv.subrange(0, k as int));
                assert(sv.subrange(0, k + 1).last() == sv[k as int]);
            }
        }
        k = k + 1;
    }
    proof {
        assert(sv.subrange(0, n as int) =~= sv);
    }
    let t = Transcript {
        utterances,
        word_utterances: if want_words {
            Option::Some(words)
        } else {
            Option::None
        },
        processing_time: elapsed_ms,
    };
    proof {
        assert(t@.utterances == utterances_of(sv));
        assert(t@.utterances.len() == sv.len());
    }
    Ok(t)
}

} // verus!
