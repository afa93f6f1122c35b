//! The recorder and the rules about recording files: which temporary files
//! are recordings of this application, when one is complete, and when a
//! leftover one is stale.
use vstd::prelude::*;

use crate::text::{
    ends_with_chars, file_name, file_name_of, has_prefix, has_suffix, starts_with_chars, to_chars,
};

verus! {

/// Sample rate, in Hz, that recordings are made at.
pub const REQUIRED_SAMPLE_RATE: u32 = 16000;

/// Fewest samples a finished recording must hold.
pub const MIN_AUDIO_SAMPLES: u32 = 4000;

/// Starts recordings (through the `pw-record` program).
pub struct Recorder;

impl Recorder {
    pub fn new() -> (r: Self) {
        Recorder
    }
}

/// Whether a file name is that of one of this application's recordings.
pub open spec fn is_recording_name(name: Seq<char>) -> bool {
    has_prefix(name, "vdora-"@) && has_suffix(name, ".wav"@)
}

/// Every name made of `vdora-`, anything, and `.wav` is a recording's name,
/// and no name shorter than `vdora-.wav` is one.
pub proof fn lemma_recording_names(m: Seq<char>, n: Seq<char>)
    ensures
        is_recording_name("vdora-"@ + m + ".wav"@),
        n.len() < 10 ==> !is_recording_name(n),
{
    reveal_strlit("vdora-");
    reveal_strlit(".wav");
    let s = "vdora-"@ + m + ".wav"@;
    assert(s.subrange(0, 6) =~= "vdora-"@);
    assert(s.subrange(s.len() - 4, s.len() as int) =~= ".wav"@);
    if n.len() < 10 && is_recording_name(n) {
        let k = n.len() - 4;
        assert(n.subrange(0, 6)[k] == "vdora-"@[k]);
        assert(n.subrange(k, n.len() as int)[0] == ".wav"@[0]);
    }
}

/// Whether `path` names a temporary recording of this application: its final
/// component starts with `vdora-` and ends with `.wav`.
pub fn is_vdora_recording_path(path: &str) -> (r: bool)
    ensures
        r == (match file_name(path@) {
            Some(n) => is_recording_name(n),
            None => false,
        }),
{
    match file_name_of(path) {
        Some(name) => {
            let p = to_chars("vdora-");
            let s = to_chars(".wav");
            starts_with_chars(&name, &p) && ends_with_chars(&name, &s)
        },
        None => false,
    }
}

/// Whether a recording with this layout is usable: one channel, the required
/// rate, and at least the minimum number of samples.
pub fn recording_file_ready(channels: u16, sample_rate: u32, duration: u32) -> (r: bool)
    ensures
        r == (channels == 1 && sample_rate == REQUIRED_SAMPLE_RATE && duration
            >= MIN_AUDIO_SAMPLES),
{
    channels == 1 && sample_rate == REQUIRED_SAMPLE_RATE && duration >= MIN_AUDIO_SAMPLES
}

/// Whether a file left in the temporary directory is to be removed: it is a
/// recording of this application, its age is known (its modification time
/// could be read and lies in the past), and that age, in nanoseconds, is at
/// least `max_age_nanos`.
pub fn is_stale_recording(path: &str, age_nanos: Option<u128>, max_age_nanos: u128) -> (r: bool)
    ensures
        r == ((match file_name(path@) {
            Some(n) => is_recording_name(n),
            None => false,
        }) && match age_nanos {
            Some(a) => a >= max_age_nanos,
            None => false,
        }),
{
    if !is_vdora_recording_path(path) {
        return false;
    }
    match age_nanos {
        Some(a) => a >= max_age_nanos,
        None => false,
    }
}

} // verus!
