//! Local transcription settings and the clean-up of the text that the
//! speech model returns.
use vstd::prelude::*;

use crate::text::string_views;
use crate::text::{
    all_words, append_chars, chars_equal_str, from_chars, is_word, join, lemma_words_are_words,
    lemma_words_of_join, split_words, to_chars, trim_chars, trimmed, vec_views, words,
};

verus! {

/// Sample rate, in Hz, that recordings must have.
pub const REQUIRED_SAMPLE_RATE: u32 = 16000;

/// Fewest mono frames a recording needs (a quarter of a second).
pub const MIN_AUDIO_SAMPLES: usize = 4000;

/// Where the speech model is and which language it is told to expect.
pub struct WhisperService {
    model_path: String,
    language: Option<String>,
}

impl WhisperService {
    /// The model file this service reads.
    pub closed spec fn model_path_view(&self) -> Seq<char> {
        self.model_path@
    }

    /// The language hint, if any.
    pub closed spec fn language_view(&self) -> Option<Seq<char>> {
        match self.language {
            Some(l) => Some(l@),
            None => None,
        }
    }

    pub fn new(model_path: String, language: Option<String>) -> (r: Self)
        ensures
            r.model_path_view() == model_path@,
            r.language_view() == (match language {
                Some(l) => Some(l@),
                None => None,
            }),
    {
        WhisperService { model_path, language }
    }

    /// The model file this service reads.
    pub fn model_path(&self) -> (r: &str)
        ensures
            r@ == self.model_path_view(),
    {
        self.model_path.as_str()
    }

    /// The language hint, if any.
    pub fn language(&self) -> (r: Option<&str>)
        ensures
            match r {
                Some(l) => self.language_view() == Some(l@),
                None => self.language_view() is None,
            },
    {
        match &self.language {
            Some(l) => Some(l.as_str()),
            None => None,
        }
    }
}

/// Tags the speech model emits for stretches without speech.
pub open spec fn is_marker(w: Seq<char>) -> bool {
    ||| w == "[BLANK_AUDIO]"@
    ||| w == "[MUSIC]"@
    ||| w == "[NOISE]"@
    ||| w == "[LAUGHTER]"@
    ||| w == "[SILENCE]"@
    ||| w == "[INAUDIBLE]"@
}

/// The elements of `ws` that are not non-speech tags, in order.
pub open spec fn speech_words(ws: Seq<Seq<char>>) -> Seq<Seq<char>>
    decreases ws.len(),
{
    if ws.len() == 0 {
        ws
    } else {
        let p = speech_words(ws.drop_last());
        if is_marker(ws.last()) {
            p
        } else {
            p.push(ws.last())
        }
    }
}

/// The words of `s` other than non-speech tags, separated by single spaces.
pub open spec fn normalized(s: Seq<char>) -> Seq<char> {
    join(speech_words(words(s)), seq![' '])
}

/// Whether the word `token` is a non-speech tag.
fn is_non_speech_marker(token: &Vec<char>) -> (r: bool)
    ensures
        r == is_marker(token@),
{
    chars_equal_str(token, "[BLANK_AUDIO]") || chars_equal_str(token, "[MUSIC]")
        || chars_equal_str(token, "[NOISE]") || chars_equal_str(token, "[LAUGHTER]")
        || chars_equal_str(token, "[SILENCE]") || chars_equal_str(token, "[INAUDIBLE]")
}

/// Joining with one more part at the end.
proof fn lemma_join_push(p: Seq<Seq<char>>, w: Seq<char>, sep: Seq<char>)
    ensures
        join(p.push(w), sep) == if p.len() == 0 {
            w
        } else {
            join(p, sep) + sep + w
        },
{
    assert(p.push(w).drop_last() =~= p);
}

/// The words of `input` without non-speech tags, separated by single spaces.
pub fn normalize_transcript(input: &str) -> (r: String)
    ensures
        r@ == normalized(input@),
{
    let v = to_chars(input);
    let ws = split_words(&v);
    let ghost all = vec_views(ws@);
    let n = ws.len();
    let mut out: Vec<char> = Vec::new();
    let mut any = false;
    let sp = vec![' '];
    assert(all.take(0) =~= Seq::<Seq<char>>::empty());
    for i in 0..n
        invariant
            n == ws.len(),
            all == vec_views(ws@),
            all == words(v@),
            v@ == input@,
            sp@ == seq![' '],
            out@ == join(speech_words(all.take(i as int)), seq![' ']),
            any == (speech_words(all.take(i as int)).len() > 0),
    {
        let ghost pre = all.take(i as int);
        let ghost cur = all.take(i + 1);
        assert(cur.drop_last() =~= pre);
        assert(cur.last() == ws@[i as int]@);
        if !is_non_speech_marker(&ws[i]) {
            proof {
                lemma_join_push(speech_words(pre), ws@[i as int]@, seq![' ']);
            }
            if any {
                append_chars(&mut out, &sp);
            }
            append_chars(&mut out, &ws[i]);
            any = true;
        }
    }
    assert(all.take(n as int) =~= all);
    from_chars(&out)
}

/// `speech_words` keeps only words, and never a tag.
proof fn lemma_speech_words(ws: Seq<Seq<char>>)
    requires
        all_words(ws),
    ensures
        all_words(speech_words(ws)),
        forall|i: int|
            0 <= i < speech_words(ws).len() ==> !is_marker(#[trigger] speech_words(ws)[i]),
    decreases ws.len(),
{
    if ws.len() > 0 {
        let init = ws.drop_last();
        assert forall|i: int| 0 <= i < init.len() implies is_word(#[trigger] init[i]) by {
            assert(init[i] == ws[i]);
        }
        lemma_speech_words(init);
        assert(is_word(ws[ws.len() - 1]));
        let p = speech_words(init);
        if !is_marker(ws.last()) {
            assert forall|i: int| 0 <= i < p.push(ws.last()).len() implies is_word(
                #[trigger] p.push(ws.last())[i],
            ) by {
                if i < p.len() {
                    assert(p.push(ws.last())[i] == p[i]);
                }
            }
            assert forall|i: int| 0 <= i < p.push(ws.last()).len() implies !is_marker(
                #[trigger] p.push(ws.last())[i],
            ) by {
                if i < p.len() {
                    assert(p.push(ws.last())[i] == p[i]);
                }
            }
        }
    }
}

/// A sequence without tags is left as it is.
proof fn lemma_speech_words_fixed(ws: Seq<Seq<char>>)
    requires
        forall|i: int| 0 <= i < ws.len() ==> !is_marker(#[trigger] ws[i]),
    ensures
        speech_words(ws) == ws,
    decreases ws.len(),
{
    if ws.len() > 0 {
        let init = ws.drop_last();
        assert forall|i: int| 0 <= i < init.len() implies !is_marker(#[trigger] init[i]) by {
            assert(init[i] == ws[i]);
        }
        lemma_speech_words_fixed(init);
        assert(!is_marker(ws[ws.len() - 1]));
        assert(init.push(ws.last()) =~= ws);
    }
}

/// Cleaning a transcript that was already cleaned changes nothing.
pub proof fn lemma_normalize_idempotent(s: Seq<char>)
    ensures
        normalized(normalized(s)) == normalized(s),
{
    let f = speech_words(words(s));
    lemma_words_are_words(s);
    lemma_speech_words(words(s));
    lemma_words_of_join(f);
    lemma_speech_words_fixed(f);
}

/// The tags `[BLANK_AUDIO]`, `[MUSIC]`, `[NOISE]`, `[LAUGHTER]`, `[SILENCE]`
/// and `[INAUDIBLE]` are words.
proof fn lemma_tags_are_words()
    ensures
        is_word("[BLANK_AUDIO]"@),
        is_word("[MUSIC]"@),
        is_word("[NOISE]"@),
        is_word("[LAUGHTER]"@),
        is_word("[SILENCE]"@),
        is_word("[INAUDIBLE]"@),
{
    reveal_strlit("[BLANK_AUDIO]");
    reveal_strlit("[MUSIC]");
    reveal_strlit("[NOISE]");
    reveal_strlit("[LAUGHTER]");
    reveal_strlit("[SILENCE]");
    reveal_strlit("[INAUDIBLE]");
    let t = "[BLANK_AUDIO]"@;
    assert forall|i: int| 0 <= i < t.len() implies !crate::text::is_ws(#[trigger] t[i]) by {}
    let t = "[MUSIC]"@;
    assert forall|i: int| 0 <= i < t.len() implies !crate::text::is_ws(#[trigger] t[i]) by {}
    let t = "[NOISE]"@;
    assert forall|i: int| 0 <= i < t.len() implies !crate::text::is_ws(#[trigger] t[i]) by {}
    let t = "[LAUGHTER]"@;
    assert forall|i: int| 0 <= i < t.len() implies !crate::text::is_ws(#[trigger] t[i]) by {}
    let t = "[SILENCE]"@;
    assert forall|i: int| 0 <= i < t.len() implies !crate::text::is_ws(#[trigger] t[i]) by {}
    let t = "[INAUDIBLE]"@;
    assert forall|i: int| 0 <= i < t.len() implies !crate::text::is_ws(#[trigger] t[i]) by {}
}

/// Each of the six non-speech tags (`[BLANK_AUDIO]`, `[MUSIC]`, `[NOISE]`,
/// `[LAUGHTER]`, `[SILENCE]`, `[INAUDIBLE]`) is removed from the words
/// around it, and every other word is kept: for any earlier words `ws`,
/// adding a tag leaves the kept words as they were, and adding another word
/// keeps it at the end.
pub proof fn lemma_tags_removed(ws: Seq<Seq<char>>, w: Seq<char>)
    ensures
        speech_words(ws.push("[BLANK_AUDIO]"@)) == speech_words(ws),
        speech_words(ws.push("[MUSIC]"@)) == speech_words(ws),
        speech_words(ws.push("[NOISE]"@)) == speech_words(ws),
        speech_words(ws.push("[LAUGHTER]"@)) == speech_words(ws),
        speech_words(ws.push("[SILENCE]"@)) == speech_words(ws),
        speech_words(ws.push("[INAUDIBLE]"@)) == speech_words(ws),
        (w != "[BLANK_AUDIO]"@ && w != "[MUSIC]"@ && w != "[NOISE]"@ && w != "[LAUGHTER]"@ && w
            != "[SILENCE]"@ && w != "[INAUDIBLE]"@) ==> speech_words(ws.push(w)) == speech_words(
            ws,
        ).push(w),
{
    assert(ws.push("[BLANK_AUDIO]"@).drop_last() =~= ws);
    assert(ws.push("[MUSIC]"@).drop_last() =~= ws);
    assert(ws.push("[NOISE]"@).drop_last() =~= ws);
    assert(ws.push("[LAUGHTER]"@).drop_last() =~= ws);
    assert(ws.push("[SILENCE]"@).drop_last() =~= ws);
    assert(ws.push("[INAUDIBLE]"@).drop_last() =~= ws);
    assert(ws.push(w).drop_last() =~= ws);
}

/// A transcript made of one of the six non-speech tags and a spoken word,
/// in either order, is cleaned to the word alone.
pub proof fn lemma_tag_and_word(tag: Seq<char>, w: Seq<char>)
    requires
        tag == "[BLANK_AUDIO]"@ || tag == "[MUSIC]"@ || tag == "[NOISE]"@ || tag == "[LAUGHTER]"@
            || tag == "[SILENCE]"@ || tag == "[INAUDIBLE]"@,
        is_word(w),
        w != "[BLANK_AUDIO]"@ && w != "[MUSIC]"@ && w != "[NOISE]"@ && w != "[LAUGHTER]"@ && w
            != "[SILENCE]"@ && w != "[INAUDIBLE]"@,
    ensures
        normalized(tag + seq![' '] + w) == w,
        normalized(w + seq![' '] + tag) == w,
{
    lemma_tags_are_words();
    let sp = seq![' '];
    let a = seq![tag, w];
    let b = seq![w, tag];
    assert(all_words(a));
    assert(all_words(b));
    assert(a.drop_last() =~= seq![tag]);
    assert(b.drop_last() =~= seq![w]);
    assert(join(seq![tag], sp) == tag);
    assert(join(seq![w], sp) == w);
    assert(join(a, sp) == join(a.drop_last(), sp) + sp + a.last());
    assert(join(b, sp) == join(b.drop_last(), sp) + sp + b.last());
    lemma_words_of_join(a);
    lemma_words_of_join(b);
    let e = Seq::<Seq<char>>::empty();
    lemma_tags_removed(e, w);
    lemma_tags_removed(e, tag);
    assert(e.push(tag) =~= seq![tag]);
    assert(e.push(w) =~= seq![w]);
    lemma_tags_removed(seq![tag], w);
    lemma_tags_removed(seq![w], tag);
    assert(seq![tag].push(w) =~= a);
    assert(seq![w].push(tag) =~= b);
    assert(speech_words(e) == e);
    assert(speech_words(a) =~= seq![w]);
    assert(speech_words(b) =~= seq![w]);
}

/// A cleaned transcript holds no non-speech tag among its words, and no
/// whitespace at either end.
pub proof fn lemma_normalized_shape(s: Seq<char>)
    ensures
        forall|i: int|
            0 <= i < words(normalized(s)).len() ==> !is_marker(#[trigger] words(normalized(s))[i]),
        trimmed(normalized(s)) == normalized(s),
{
    let f = speech_words(words(s));
    lemma_words_are_words(s);
    lemma_speech_words(words(s));
    lemma_words_of_join(f);
    lemma_join_ends(f);
    crate::text::lemma_trim_fixed(normalized(s));
}

/// Words joined by spaces start and end with a non-whitespace character.
proof fn lemma_join_ends(ws: Seq<Seq<char>>)
    requires
        all_words(ws),
    ensures
        join(ws, seq![' ']).len() > 0 ==> !crate::text::is_ws(join(ws, seq![' '])[0])
            && !crate::text::is_ws(join(ws, seq![' ']).last()),
        ws.len() > 0 ==> join(ws, seq![' ']).len() > 0 && join(ws, seq![' '])[0] == ws[0][0],
    decreases ws.len(),
{
    lemma_words_of_join(ws);
    if ws.len() == 1 {
        assert(is_word(ws[0]));
    } else if ws.len() > 1 {
        let init = ws.drop_last();
        assert forall|i: int| 0 <= i < init.len() implies is_word(#[trigger] init[i]) by {
            assert(init[i] == ws[i]);
        }
        lemma_join_ends(init);
        assert(init[0] == ws[0]);
        assert(is_word(ws[0]));
        let j = join(init, seq![' ']) + seq![' '] + ws.last();
        assert(j[0] == join(init, seq![' '])[0]);
    }
}

/// The text the model produced, given its segments: each segment trimmed and
/// followed by a space.
pub open spec fn segments_text(segs: Seq<Seq<char>>) -> Seq<char>
    decreases segs.len(),
{
    if segs.len() == 0 {
        Seq::empty()
    } else {
        segments_text(segs.drop_last()) + trimmed(segs.last()) + seq![' ']
    }
}

/// The cleaned transcript of the model's segments.
pub fn transcript_from_segments(segments: &Vec<String>) -> (r: String)
    ensures
        r@ == normalized(segments_text(string_views(segments@))),
{
    let n = segments.len();
    let ghost segs = string_views(segments@);
    let mut all: Vec<char> = Vec::new();
    let sp = vec![' '];
    assert(segs.take(0) =~= Seq::<Seq<char>>::empty());
    for i in 0..n
        invariant
            n == segments.len(),
            segs == string_views(segments@),
            sp@ == seq![' '],
            all@ == segments_text(segs.take(i as int)),
    {
        let v = to_chars(segments[i].as_str());
        let t = trim_chars(&v);
        append_chars(&mut all, &t);
        append_chars(&mut all, &sp);
        assert(segs.take(i + 1).drop_last() =~= segs.take(i as int));
        assert(segs.take(i + 1).last() == segments@[i as int]@);
    }
    assert(segs.take(n as int) =~= segs);
    let text = from_chars(&all);
    normalize_transcript(text.as_str())
}

/// Why a recording cannot be transcribed.
#[derive(Debug, Clone, Copy, PartialEq, Eq, Structural)]
pub enum WavError {
    /// The file's sample rate is not the required one; it holds the found rate.
    SampleRate(u32),
    /// The file declares no channel.
    ZeroChannels,
    /// The recording holds fewer frames than required.
    TooShort,
}

impl WavError {
    /// The message shown for this error.
    pub open spec fn message_spec(self) -> Seq<char> {
        match self {
            WavError::SampleRate(r) => "invalid wav sample rate: expected 16000Hz, got "@
                + crate::text::decimal(r as nat) + "Hz"@,
            WavError::ZeroChannels => "invalid wav file: zero channels"@,
            WavError::TooShort => "recording too short: need at least 250ms of audio"@,
        }
    }

    pub fn message(&self) -> (r: String)
        ensures
            r@ == self.message_spec(),
    {
        match self {
            WavError::SampleRate(rate) => {
                let mut v = to_chars("invalid wav sample rate: expected 16000Hz, got ");
                crate::text::push_decimal(&mut v, *rate as u128);
                crate::text::append_str(&mut v, "Hz");
                from_chars(&v)
            },
            WavError::ZeroChannels => String::from_str("invalid wav file: zero channels"),
            WavError::TooShort => String::from_str("recording too short: need at least 250ms of audio"),
        }
    }
}

/// Checks a recording's sample rate before its samples are read.
pub fn check_wav_sample_rate(sample_rate: u32) -> (r: Result<(), WavError>)
    ensures
        r is Ok <==> sample_rate == REQUIRED_SAMPLE_RATE,
        r is Err ==> r == Err::<(), WavError>(WavError::SampleRate(sample_rate)),
{
    if sample_rate != REQUIRED_SAMPLE_RATE {
        Err(WavError::SampleRate(sample_rate))
    } else {
        Ok(())
    }
}

/// The number of mono frames that `sample_count` interleaved samples over
/// `channels` channels make (a last, partial frame counts as one).
pub open spec fn frame_count(channels: nat, sample_count: nat) -> nat {
    if channels == 0 {
        0
    } else {
        sample_count / channels + if sample_count % channels == 0 {
            0nat
        } else {
            1nat
        }
    }
}

/// Checks the channel layout and length of a recording whose samples have
/// been read; gives the number of mono frames it makes.
pub fn check_wav_frames(channels: u16, sample_count: usize) -> (r: Result<usize, WavError>)
    ensures
        channels == 0 ==> r == Err::<usize, WavError>(WavError::ZeroChannels),
        channels > 0 && frame_count(channels as nat, sample_count as nat) < MIN_AUDIO_SAMPLES
            ==> r == Err::<usize, WavError>(WavError::TooShort),
        channels > 0 && frame_count(channels as nat, sample_count as nat) >= MIN_AUDIO_SAMPLES
            ==> r == Ok::<usize, WavError>(frame_count(channels as nat, sample_count as nat) as usize),
{
    if channels == 0 {
        return Err(WavError::ZeroChannels);
    }
    let c = channels as usize;
    let q = sample_count / c;
    let frames = if sample_count % c == 0 {
        q
    } else {
        assert(c >= 2);
        assert(q < usize::MAX) by (nonlinear_arith)
            requires
                c >= 2,
                q == sample_count / c,
                sample_count <= usize::MAX,
        ;
        q + 1
    };
    if frames < MIN_AUDIO_SAMPLES {
        Err(WavError::TooShort)
    } else {
        Ok(frames)
    }
}

} // verus!
