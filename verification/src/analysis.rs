//! The audio analysis loop around its transform: how often it runs, which
//! bins make a band, and the window of samples it looks at.

use vstd::prelude::*;

verus! {

/// Samples in one transform.
pub const FFT_SIZE: usize = 2048;

/// Perceptual bands of a spectrum.
pub const NUM_BANDS: usize = 21;

/// Width of the audio texture: bins of the linear spectrum.
pub const AUDIO_TEX_W: usize = 512;

/// Bytes of the audio texture: a spectrum row and a waveform row.
pub const AUDIO_TEX_LEN: usize = 1024;

/// Samples between two analyses.
pub open spec fn hop_of(sample_rate: int) -> int {
    if sample_rate / 60 < 64 {
        64
    } else {
        sample_rate / 60
    }
}

/// How many samples come in between two analyses: a sixtieth of a second's
/// worth, 64 at least.
pub fn hop(sample_rate: u32) -> (r: usize)
    ensures
        r == hop_of(sample_rate as int),
{
    let n: u32 = sample_rate / 60;
    if n < 64 {
        64
    } else {
        n as usize
    }
}

/// The bins of a band, from the bins nearest to its two edge frequencies.
pub open spec fn band_of(lo: int, hi: int) -> (int, int) {
    let end = if hi < lo + 1 {
        lo + 1
    } else {
        hi
    };
    (
        if lo < 1 {
            1
        } else {
            lo
        },
        if end > FFT_SIZE / 2 {
            (FFT_SIZE / 2) as int
        } else {
            end
        },
    )
}

/// The bins of a band: never the constant component, one bin at least, and
/// none past half the transform.
pub fn band(lo: usize, hi: usize) -> (r: (usize, usize))
    requires
        lo < usize::MAX,
    ensures
        (r.0 as int, r.1 as int) == band_of(lo as int, hi as int),
{
    let end: usize = if hi < lo + 1 {
        lo + 1
    } else {
        hi
    };
    let first: usize = if lo < 1 {
        1
    } else {
        lo
    };
    if end > FFT_SIZE / 2 {
        (first, FFT_SIZE / 2)
    } else {
        (first, end)
    }
}

/// By how many bins a band's sum is divided. A band past the end of the
/// transform has no bins and counts as one.
pub open spec fn width_of(lo: int, hi: int) -> int {
    if hi <= lo {
        1
    } else {
        hi - lo
    }
}

/// By how many bins a band's sum is divided.
pub fn band_width(lo: usize, hi: usize) -> (r: usize)
    ensures
        r == width_of(lo as int, hi as int),
{
    if hi <= lo {
        1
    } else {
        hi - lo
    }
}

/// A band below half the transform holds bins, and all of them exist.
pub proof fn bands_hold_bins(lo: int, hi: int)
    requires
        0 <= lo < FFT_SIZE / 2,
    ensures
        1 <= band_of(lo, hi).0,
        band_of(lo, hi).1 <= FFT_SIZE / 2,
        lo >= 1 || hi >= 2 ==> band_of(lo, hi).0 < band_of(lo, hi).1,
{
}

/// What the analysis loop does next.
#[derive(Clone, Copy, Debug, PartialEq, Eq, Structural)]
pub enum AnalysisStep {
    /// No source yet: look again in 20 ms.
    AwaitSource,
    /// Not enough samples yet: look again in 2 ms.
    AwaitSamples,
    Analyse,
}

/// What to do next, given how many samples of the source are waiting.
pub open spec fn step_with(waiting: Option<usize>, hop: usize) -> AnalysisStep {
    match waiting {
        None => AnalysisStep::AwaitSource,
        Some(n) => if n < hop {
            AnalysisStep::AwaitSamples
        } else {
            AnalysisStep::Analyse
        },
    }
}

/// What to do next, given how many samples of the source are waiting.
pub fn analysis_step(waiting: Option<usize>, hop: usize) -> (r: AnalysisStep)
    ensures
        r == step_with(waiting, hop),
{
    match waiting {
        None => AnalysisStep::AwaitSource,
        Some(n) => {
            if n < hop {
                AnalysisStep::AwaitSamples
            } else {
                AnalysisStep::Analyse
            }
        },
    }
}

/// The window over the samples once fresh ones came in at the back and the oldest
/// left at the front.
pub open spec fn slid<T>(window: Seq<T>, fresh: Seq<T>) -> Seq<T> {
    window.skip(fresh.len() as int) + fresh
}

/// Moves the window over the samples on: the oldest leave at the front, the
/// fresh ones come in at the back.
pub fn slide<T: Copy>(window: &mut Vec<T>, fresh: &Vec<T>)
    requires
        fresh@.len() <= old(window)@.len(),
    ensures
        final(window)@ == slid(old(window)@, fresh@),
{
    let n: usize = window.len();
    let k: usize = fresh.len();
    let ghost before = window@;
    let mut i: usize = 0;
    while i < n - k
        invariant
            k <= n,
            n == before.len(),
            window@.len() == n,
            i <= n - k,
            forall|j: int| 0 <= j < i ==> #[trigger] window@[j] == before[j + k],
            forall|j: int| i <= j < n ==> #[trigger] window@[j] == before[j],
        decreases n - k - i,
    {
        let x = window[i + k];
        window[i] = x;
        i += 1;
    }
    let ghost moved = window@;
    i = 0;
    while i < k
        invariant
            k <= n,
            n == before.len(),
            k == fresh@.len(),
            moved.len() == n,
            window@.len() == n,
            i <= k,
            forall|j: int| 0 <= j < n - k ==> #[trigger] window@[j] == moved[j],
            forall|j: int| 0 <= j < i ==> #[trigger] window@[n - k + j] == fresh@[j],
        decreases k - i,
    {
        window[n - k + i] = fresh[i];
        i += 1;
    }
    proof {
        let want = before.skip(k as int) + fresh@;
        assert forall|j: int| 0 <= j < n implies #[trigger] window@[j] == want[j] by {
            if j < n - k {
                assert(window@[j] == moved[j]);
            } else {
                assert(window@[n - k + (j - (n - k))] == fresh@[j - (n - k)]);
            }
        }
        assert(window@ =~= want);
    }
}

} // verus!
