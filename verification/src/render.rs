//! Rendering a transcript as plain text, WebVTT and SubRip.
//!
//! All three renderings are pure functions of the transcript: each is
//! specified exactly, character for character, over the transcript's model.
//! Timestamps arrive in the engine's native unit (centiseconds) and are
//! converted to milliseconds (one centisecond is ten milliseconds) before
//! being split into hours, minutes, seconds and milliseconds.

use vstd::prelude::*;

use crate::text::digit_char;
use crate::text::digit_str;
use crate::transcript::MAX_TIMESTAMP;
use crate::transcript::Transcript;
use crate::transcript::TranscriptView;
use crate::transcript::Utterance;
use crate::transcript::UtteranceView;

verus! {

/// The decimal digits of `n` (for `n >= 0`), most significant first.
pub open spec fn dec_seq(n: int) -> Seq<char>
    decreases n,
{
    if n < 10 {
        seq![digit_char(n)]
    } else {
        dec_seq(n / 10).push(digit_char(n % 10))
    }
}

/// The decimal digits of `n`, zero-padded on the left to at least 2 digits.
pub open spec fn pad2(n: int) -> Seq<char> {
    if n < 10 {
        seq!['0'] + dec_seq(n)
    } else {
        dec_seq(n)
    }
}

/// The decimal digits of `n`, zero-padded on the left to at least 3 digits.
pub open spec fn pad3(n: int) -> Seq<char> {
    if n < 100 {
        seq!['0'] + pad2(n)
    } else {
        dec_seq(n)
    }
}

/// A timestamp of `cs` centiseconds formatted as `HH:MM:SS<sep>mmm`: hours
/// zero-padded to at least 2 digits, minutes and seconds to 2, milliseconds
/// to 3, with `sep` between seconds and milliseconds.
pub open spec fn timestamp_seq(cs: int, sep: Seq<char>) -> Seq<char> {
    let ms = cs * 10;
    pad2(ms / 3600000) + seq![':'] + pad2((ms / 60000) % 60) + seq![':'] + pad2((ms / 1000) % 60)
        + sep + pad3(ms % 1000)
}

/// A cue's timestamp-range line (without the line break):
/// `<start> --> <stop>`, both formatted by [`timestamp_seq`].
pub open spec fn ts_line(start: int, stop: int, sep: Seq<char>) -> Seq<char> {
    timestamp_seq(start, sep) + " --> "@ + timestamp_seq(stop, sep)
}

/// One WebVTT cue block: the timestamp-range line (with a period before the
/// milliseconds), the utterance text, and a closing blank line.
pub open spec fn vtt_cue(u: UtteranceView) -> Seq<char> {
    ts_line(u.start, u.stop, "."@) + "\n"@ + u.text + "\n"@ + "\n"@
}

/// The concatenation of the WebVTT cue blocks of `utts`, in order.
pub open spec fn vtt_cues(utts: Seq<UtteranceView>) -> Seq<char>
    decreases utts.len(),
{
    if utts.len() == 0 {
        Seq::empty()
    } else {
        vtt_cues(utts.drop_last()) + vtt_cue(utts.last())
    }
}

/// The complete WebVTT rendering: the `WEBVTT` header line, a blank line,
/// then one cue block per utterance, in order.
pub open spec fn vtt_spec(t: TranscriptView) -> Seq<char> {
    "WEBVTT\n\n"@ + vtt_cues(t.utterances)
}

/// One SubRip cue block: the 1-based cue index on its own line, the
/// timestamp-range line (with a comma before the milliseconds), the
/// utterance text, and a closing blank line.
pub open spec fn srt_cue(idx: int, u: UtteranceView) -> Seq<char> {
    dec_seq(idx) + "\n"@ + ts_line(u.start, u.stop, ","@) + "\n"@ + u.text + "\n"@ + "\n"@
}

/// The concatenation of the SubRip cue blocks of `utts`, in order, the cue
/// at position `i` carrying index `i + 1`.
pub open spec fn srt_cues(utts: Seq<UtteranceView>) -> Seq<char>
    decreases utts.len(),
{
    if utts.len() == 0 {
        Seq::empty()
    } else {
        srt_cues(utts.drop_last()) + srt_cue(utts.len() as int, utts.last())
    }
}

/// The complete SubRip rendering: one indexed cue block per utterance, in
/// order, with indices running from 1 to the number of utterances.
pub open spec fn srt_spec(t: TranscriptView) -> Seq<char> {
    srt_cues(t.utterances)
}

/// The plain-text rendering of `utts`: each utterance's text on a line of
/// its own, in order, without timestamps.
pub open spec fn text_lines(utts: Seq<UtteranceView>) -> Seq<char>
    decreases utts.len(),
{
    if utts.len() == 0 {
        Seq::empty()
    } else {
        text_lines(utts.drop_last()) + utts.last().text + "\n"@
    }
}

/// The complete plain-text rendering of a transcript.
pub open spec fn text_spec(t: TranscriptView) -> Seq<char> {
    text_lines(t.utterances)
}

/// Whether every timestamp of `utts` lies within the range the renderers
/// handle; implied by transcript well-formedness.
pub open spec fn timestamps_bounded(utts: Seq<UtteranceView>) -> bool {
    forall|i: int|
        0 <= i < utts.len() ==> 0 <= (#[trigger] utts[i]).start <= MAX_TIMESTAMP && 0
            <= utts[i].stop <= MAX_TIMESTAMP
}

/// The decimal rendering of `n`.
pub fn u64_dec(n: u64) -> (r: String)
    ensures
        r@ == dec_seq(n as int),
    decreases n,
{
    if n < 10 {
        let s = String::from_str(digit_str(n));
        proof {
            assert(s@ =~= dec_seq(n as int));
        }
        s
    } else {
        let mut s = u64_dec(n / 10);
        s.append(digit_str(n % 10));
        proof {
            assert(s@ =~= dec_seq(n as int));
        }
        s
    }
}

/// The decimal rendering of `n`, zero-padded to at least 2 digits.
fn pad2_str(n: u64) -> (r: String)
    ensures
        r@ == pad2(n as int),
{
    if n < 10 {
        let mut s = String::from_str("0");
        s.append(digit_str(n));
        proof {
            reveal_strlit("0");
            assert(s@ =~= pad2(n as int));
        }
        s
    } else {
        u64_dec(n)
    }
}

/// The decimal rendering of `n`, zero-padded to at least 3 digits.
fn pad3_str(n: u64) -> (r: String)
    ensures
        r@ == pad3(n as int),
{
    if n < 100 {
        let mut s = String::from_str("0");
        let rest = pad2_str(n);
        s.append(rest.as_str());
        proof {
            reveal_strlit("0");
            assert(s@ =~= pad3(n as int));
        }
        s
    } else {
        u64_dec(n)
    }
}

/// Formats `cs` centiseconds as `HH:MM:SS<sep>mmm`.
fn timestamp_str(cs: i64, sep: &str) -> (r: String)
    requires
        0 <= cs <= MAX_TIMESTAMP,
    ensures
        r@ == timestamp_seq(cs as int, sep@),
{
    let ms: u64 = (cs as u64) * 10;
    let h: u64 = ms / 3600000;
    let m: u64 = (ms / 60000) % 60;
    let s: u64 = (ms / 1000) % 60;
    let f: u64 = ms % 1000;
    let mut out = pad2_str(h);
    out.append(":");
    let part = pad2_str(m);
    out.append(part.as_str());
    out.append(":");
    let part = pad2_str(s);
    out.append(part.as_str());
    out.append(sep);
    let part = pad3_str(f);
    out.append(part.as_str());
    proof {
        reveal_strlit(":");
        assert(out@ =~= timestamp_seq(cs as int, sep@));
    }
    out
}

/// Formats a cue's timestamp-range line (without the line break).
fn ts_line_str(start: i64, stop: i64, sep: &str) -> (r: String)
    requires
        0 <= start <= MAX_TIMESTAMP,
        0 <= stop <= MAX_TIMESTAMP,
    ensures
        r@ == ts_line(start as int, stop as int, sep@),
{
    let mut out = timestamp_str(start, sep);
    out.append(" --> ");
    let second = timestamp_str(stop, sep);
    out.append(second.as_str());
    proof {
        assert(out@ =~= ts_line(start as int, stop as int, sep@));
    }
    out
}

/// Renders one WebVTT cue block.
fn vtt_cue_str(u: &Utterance) -> (r: String)
    requires
        0 <= u@.start <= MAX_TIMESTAMP,
        0 <= u@.stop <= MAX_TIMESTAMP,
    ensures
        r@ == vtt_cue(u@),
{
    let mut out = ts_line_str(u.start, u.stop, ".");
    out.append("\n");
    out.append(u.text.as_str());
    out.append("\n");
    out.append("\n");
    proof {
        assert(out@ =~= vtt_cue(u@));
    }
    out
}

/// Renders one SubRip cue block with 1-based index `idx`.
fn srt_cue_str(idx: u64, u: &Utterance) -> (r: String)
    requires
        0 <= u@.start <= MAX_TIMESTAMP,
        0 <= u@.stop <= MAX_TIMESTAMP,
    ensures
        r@ == srt_cue(idx as int, u@),
{
    let mut out = u64_dec(idx);
    out.append("\n");
    let line = ts_line_str(u.start, u.stop, ",");
    out.append(line.as_str());
    out.append("\n");
    out.append(u.text.as_str());
    out.append("\n");
    out.append("\n");
    proof {
        assert(out@ =~= srt_cue(idx as int, u@));
    }
    out
}

impl Transcript {
    /// The plain-text rendering: every utterance's text, in order, one per
    /// line.
    pub fn as_text(&self) -> (r: String)
        ensures
            r@ == text_spec(self@),
    {
        let mut out = String::new();
        let n = self.utterances.len();
        let mut k: usize = 0;
        while k < n
            invariant
                n == self.utterances@.len(),
                k <= n,
                out@ == text_lines(self@.utterances.subrange(0, k as int)),
            decreases n - k,
        {
            let u = &self.utterances[k];
            out.append(u.text.as_str());
            out.append("\n");
            proof {
                assert(self@.utterances.subrange(0, k + 1).drop_last() =~= self@.utterances
                    .subrange(0, k as int));
                assert(self@.utterances[k as int] == self.utterances@[k as int]@);
                assert(out@ =~= text_lines(self@.utterances.subrange(0, k + 1)));
            }
            k = k + 1;
        }
        proof {
            assert(self@.utterances.subrange(0, n as int) =~= self@.utterances);
        }
        out
    }

    /// The WebVTT rendering: the `WEBVTT` header, a blank line, then one cue
    /// block per utterance, in order.
    pub fn as_vtt(&self) -> (r: String)
        requires
            timestamps_bounded(self@.utterances),
        ensures
            r@ == vtt_spec(self@),
    {
        let mut out = String::from_str("WEBVTT\n\n");
        let n = self.utterances.len();
        let mut k: usize = 0;
        while k < n
            invariant
                n == self.utterances@.len(),
                k <= n,
                timestamps_bounded(self@.utterances),
                out@ == "WEBVTT\n\n"@ + vtt_cues(self@.utterances.subrange(0, k as int)),
            decreases n - k,
        {
            let u = &self.utterances[k];
            proof {
                assert(self@.utterances[k as int] == self.utterances@[k as int]@);
            }
            let cue = vtt_cue_str(u);
            out.append(cue.as_str());
            proof {
                assert(self@.utterances.subrange(0, k + 1).drop_last() =~= self@.utterances
                    .subrange(0, k as int));
                assert(out@ =~= "WEBVTT\n\n"@ + vtt_cues(self@.utterances.subrange(0, k + 1)));
            }
            k = k + 1;
        }
        proof {
            assert(self@.utterances.subrange(0, n as int) =~= self@.utterances);
        }
        out
    }

    /// The SubRip rendering: one cue block per utterance, in order, with
    /// 1-based sequential cue indices.
    pub fn as_srt(&self) -> (r: String)
        requires
            timestamps_bounded(self@.utterances),
        ensures
            r@ == srt_spec(self@),
    {
        let mut out = String::new();
        let n = self.utterances.len();
        let mut k: usize = 0;
        while k < n
            invariant
                n == self.utterances@.len(),
                k <= n,
                timestamps_bounded(self@.utterances),
                out@ == srt_cues(self@.utterances.subrange(0, k as int)),
            decreases n - k,
        {
            let u = &self.utterances[k];
            proof {
                assert(self@.utterances[k as int] == self.utterances@[k as int]@);
            }
            let cue = srt_cue_str((k as u64) + 1, u);
            out.append(cue.as_str());
            proof {
                assert(self@.utterances.subrange(0, k + 1).drop_last() =~= self@.utterances
                    .subrange(0, k as int));
                assert(self@.utterances.subrange(0, k + 1).len() == k + 1);
                assert(out@ =~= srt_cues(self@.utterances.subrange(0, k + 1)));
            }
            k = k + 1;
        }
        proof {
            assert(self@.utterances.subrange(0, n as int) =~= self@.utterances);
        }
        out
    }
}

/// A well-formed transcript always renders: its timestamps lie within the
/// range the renderers accept.
pub proof fn lemma_wf_transcript_is_renderable(t: TranscriptView)
    requires
        t.wf(),
    ensures
        timestamps_bounded(t.utterances),
{
}

/// Rendering is deterministic and pure: transcripts with the same model
/// render to identical text in all three formats.
pub proof fn lemma_render_deterministic(t1: TranscriptView, t2: TranscriptView)
    requires
        t1 == t2,
    ensures
        text_spec(t1) == text_spec(t2),
        vtt_spec(t1) == vtt_spec(t2),
        srt_spec(t1) == srt_spec(t2),
{
}

/// The WebVTT cue area is exactly one cue block per utterance, in the same
/// order as the utterances.
pub proof fn lemma_vtt_one_cue_per_utterance(utts: Seq<UtteranceView>)
    ensures
        vtt_cues(utts) == Seq::new(utts.len(), |i: int| vtt_cue(utts[i])).flatten(),
    decreases utts.len(),
{
    let blocks = Seq::new(utts.len(), |i: int| vtt_cue(utts[i]));
    if utts.len() == 0 {
        assert(vtt_cues(utts) =~= blocks.flatten());
    } else {
        lemma_vtt_one_cue_per_utterance(utts.drop_last());
        let prev = Seq::new(utts.drop_last().len(), |i: int| vtt_cue(utts.drop_last()[i]));
        assert(blocks.drop_last() =~= prev);
        blocks.lemma_flatten_and_flatten_alt_are_equivalent();
        blocks.drop_last().lemma_flatten_and_flatten_alt_are_equivalent();
        assert(blocks.flatten_alt() == blocks.drop_last().flatten_alt() + blocks.last());
        assert(vtt_cues(utts) =~= blocks.flatten());
    }
}

/// The SubRip rendering is exactly one cue block per utterance, in the same
/// order as the utterances, the cue at position `i` carrying index `i + 1`:
/// the indices are exactly 1 through the number of utterances, with no gaps.
pub proof fn lemma_srt_one_cue_per_utterance(utts: Seq<UtteranceView>)
    ensures
        srt_cues(utts) == Seq::new(utts.len(), |i: int| srt_cue(i + 1, utts[i])).flatten(),
    decreases utts.len(),
{
    let blocks = Seq::new(utts.len(), |i: int| srt_cue(i + 1, utts[i]));
    if utts.len() == 0 {
        assert(srt_cues(utts) =~= blocks.flatten());
    } else {
        lemma_srt_one_cue_per_utterance(utts.drop_last());
        let prev = Seq::new(
            utts.drop_last().len(),
            |i: int| srt_cue(i + 1, utts.drop_last()[i]),
        );
        assert(blocks.drop_last() =~= prev);
        blocks.lemma_flatten_and_flatten_alt_are_equivalent();
        blocks.drop_last().lemma_flatten_and_flatten_alt_are_equivalent();
        assert(blocks.flatten_alt() == blocks.drop_last().flatten_alt() + blocks.last());
        assert(srt_cues(utts) =~= blocks.flatten());
    }
}

} // verus!
