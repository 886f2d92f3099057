//! Integer core of the RGB / luminance histograms shown beside the viewport.
//! Luminance of a pixel is a floating-point weighting computed by the caller;
//! here every bin is counted, the display peak found and clipped pixels tallied.

use vstd::prelude::*;

verus! {

/// Number of bins of every histogram channel.
pub const HISTOGRAM_BINS: usize = 256;

/// Number of pixels among the first `n` whose sample at `offset` within a
/// pixel of `channels` samples equals `v`.
pub open spec fn count_samples(s: Seq<u8>, channels: nat, offset: nat, n: nat, v: u8) -> nat
    decreases n,
{
    if n == 0 {
        0
    } else {
        count_samples(s, channels, offset, (n - 1) as nat, v) + if s[(n - 1) * channels + offset]
            == v {
            1nat
        } else {
            0nat
        }
    }
}

/// Number of the first `n` entries of `s` that satisfy `lo <= s[i] <= hi`.
pub open spec fn count_in_range(s: Seq<u8>, n: nat, lo: u8, hi: u8) -> nat
    decreases n,
{
    if n == 0 {
        0
    } else {
        count_in_range(s, (n - 1) as nat, lo, hi) + if lo <= s[n - 1] <= hi {
            1nat
        } else {
            0nat
        }
    }
}

/// Sum of the first `n` bins.
pub open spec fn bins_sum(bins: Seq<u32>, n: nat) -> int
    decreases n,
{
    if n == 0 {
        0
    } else {
        bins_sum(bins, (n - 1) as nat) + bins[n - 1]
    }
}

/// The display peak: the largest count of any channel over the bins 1..=254
/// (the saturated end bins are left out so that spikes there do not flatten
/// the plot), and at least 1.
pub open spec fn is_display_peak(
    peak: u32,
    red: Seq<u32>,
    green: Seq<u32>,
    blue: Seq<u32>,
    luma: Seq<u32>,
) -> bool {
    &&& peak >= 1
    &&& forall|i: int|
        1 <= i < 255 ==> red[i] <= peak && green[i] <= peak && blue[i] <= peak && luma[i] <= peak
    &&& peak == 1 || exists|i: int|
        1 <= i < 255 && (red[i] == peak || green[i] == peak || blue[i] == peak || luma[i] == peak)
}

/// Counts of one image.
pub struct HistogramCounts {
    pub red: Vec<u32>,
    pub green: Vec<u32>,
    pub blue: Vec<u32>,
    pub luma: Vec<u32>,
    /// Display peak, see `is_display_peak`.
    pub max_count: u32,
    /// Pixels whose luminance is 0 or 1.
    pub shadow_clips: u32,
    /// Pixels whose luminance is 254 or 255.
    pub highlight_clips: u32,
    /// Pixels counted.
    pub total_pixels: usize,
}

proof fn lemma_count_samples_bound(s: Seq<u8>, channels: nat, offset: nat, n: nat, v: u8)
    ensures
        count_samples(s, channels, offset, n, v) <= n,
    decreases n,
{
    if n > 0 {
        lemma_count_samples_bound(s, channels, offset, (n - 1) as nat, v);
    }
}

proof fn lemma_bins_sum_bump(bins: Seq<u32>, n: nat, k: int, x: u32)
    requires
        0 <= k < bins.len(),
        n <= bins.len(),
        x == bins[k] + 1,
    ensures
        bins_sum(bins.update(k, x), n) == bins_sum(bins, n) + if k < n {
            1int
        } else {
            0int
        },
    decreases n,
{
    if n > 0 {
        lemma_bins_sum_bump(bins, (n - 1) as nat, k, x);
    }
}

/// Adds one pixel's value `v` to a channel histogram.
fn bump(bins: &mut Vec<u32>, v: u8, Ghost(s): Ghost<Seq<u8>>, Ghost(channels): Ghost<nat>, Ghost(offset): Ghost<nat>, Ghost(i): Ghost<nat>)
    requires
        old(bins)@.len() == HISTOGRAM_BINS,
        i < u32::MAX,
        
        s[(i * channels + offset) as int] == v,
        forall|w: u8| #[trigger] old(bins)@[w as int] == count_samples(s, channels, offset, i, w),
        bins_sum(old(bins)@, 256) == i,
    ensures
        final(bins)@.len() == HISTOGRAM_BINS,
        forall|w: u8| #[trigger] final(bins)@[w as int] == count_samples(s, channels, offset, i + 1, w),
        bins_sum(final(bins)@, 256) == i + 1,
{
    proof {
        lemma_count_samples_bound(s, channels, offset, i, v);
        assert(old(bins)@[v as int] == count_samples(s, channels, offset, i, v));
    }
    let x = bins[v as usize] + 1;
    proof {
        lemma_bins_sum_bump(old(bins)@, 256, v as int, x);
    }
    bins.set(v as usize, x);
    proof {
        assert forall|w: u8| #[trigger] bins@[w as int] == count_samples(s, channels, offset, i + 1, w) by {
            assert(old(bins)@[w as int] == count_samples(s, channels, offset, i, w));
        }
    }
}

/// Counts every channel of the first `rgb.len() / channels` pixels of an
/// interleaved 8-bit buffer (red, green and blue are the first three samples
/// of a pixel), together with the luminance `lumas[i]` of each pixel. A
/// buffer shorter than one pixel holds no pixel, whatever the channel count.
pub fn accumulate_histogram(rgb: &[u8], lumas: &[u8], channels: usize) -> (r: HistogramCounts)
    requires
        channels >= 3 || (channels > 0 && rgb@.len() < channels),
        lumas@.len() == rgb@.len() / (channels as nat),
        rgb@.len() / (channels as nat) <= u32::MAX,
    ensures
        r.total_pixels == rgb@.len() / (channels as nat),
        r.red@.len() == HISTOGRAM_BINS && r.green@.len() == HISTOGRAM_BINS && r.blue@.len()
            == HISTOGRAM_BINS && r.luma@.len() == HISTOGRAM_BINS,
        forall|v: u8| #[trigger] r.red@[v as int] == count_samples(rgb@, channels as nat, 0, r.total_pixels as nat, v),
        forall|v: u8| #[trigger] r.green@[v as int] == count_samples(rgb@, channels as nat, 1, r.total_pixels as nat, v),
        forall|v: u8| #[trigger] r.blue@[v as int] == count_samples(rgb@, channels as nat, 2, r.total_pixels as nat, v),
        forall|v: u8| #[trigger] r.luma@[v as int] == count_samples(lumas@, 1, 0, r.total_pixels as nat, v),
        r.shadow_clips == count_in_range(lumas@, r.total_pixels as nat, 0, 1),
        r.highlight_clips == count_in_range(lumas@, r.total_pixels as nat, 254, 255),
        is_display_peak(r.max_count, r.red@, r.green@, r.blue@, r.luma@),
        bins_sum(r.red@, 256) == r.total_pixels && bins_sum(r.green@, 256) == r.total_pixels
            && bins_sum(r.blue@, 256) == r.total_pixels && bins_sum(r.luma@, 256) == r.total_pixels,
{
    let n = rgb.len() / channels;
    proof {
        if channels < 3 {
            assert(rgb@.len() / (channels as nat) == 0) by (nonlinear_arith)
                requires
                    rgb@.len() < channels,
                    channels > 0,
            ;
        }
    }
    let mut red: Vec<u32> = vec![0u32; HISTOGRAM_BINS];
    let mut green: Vec<u32> = vec![0u32; HISTOGRAM_BINS];
    let mut blue: Vec<u32> = vec![0u32; HISTOGRAM_BINS];
    let mut luma: Vec<u32> = vec![0u32; HISTOGRAM_BINS];
    let mut shadow_clips: u32 = 0;
    let mut highlight_clips: u32 = 0;
    proof {
        lemma_zero_bins_sum(red@, 256);
        lemma_zero_bins_sum(green@, 256);
        lemma_zero_bins_sum(blue@, 256);
        lemma_zero_bins_sum(luma@, 256);
    }
    let len = rgb.len();
    let mut i: usize = 0;
    while i < n
        invariant
            n == rgb@.len() / (channels as nat),
            len == rgb@.len(),
            channels >= 3 || n == 0,
            n <= u32::MAX,
            lumas@.len() == n,
            i <= n,
            red@.len() == HISTOGRAM_BINS && green@.len() == HISTOGRAM_BINS && blue@.len() == HISTOGRAM_BINS
                && luma@.len() == HISTOGRAM_BINS,
            forall|v: u8| #[trigger] red@[v as int] == count_samples(rgb@, channels as nat, 0, i as nat, v),
            forall|v: u8| #[trigger] green@[v as int] == count_samples(rgb@, channels as nat, 1, i as nat, v),
            forall|v: u8| #[trigger] blue@[v as int] == count_samples(rgb@, channels as nat, 2, i as nat, v),
            forall|v: u8| #[trigger] luma@[v as int] == count_samples(lumas@, 1, 0, i as nat, v),
            bins_sum(red@, 256) == i && bins_sum(green@, 256) == i && bins_sum(blue@, 256) == i
                && bins_sum(luma@, 256) == i,
            shadow_clips == count_in_range(lumas@, i as nat, 0, 1),
            highlight_clips == count_in_range(lumas@, i as nat, 254, 255),
            shadow_clips <= i && highlight_clips <= i,
        decreases n - i,
    {
        proof {
            assert(channels >= 3);
            assert((i + 1) * channels <= n * channels) by (nonlinear_arith)
                requires i < n;
            assert(n * channels <= rgb@.len()) by (nonlinear_arith)
                requires n == rgb@.len() / (channels as nat), channels >= 3;
            assert(i * channels + 2 < (i + 1) * channels) by (nonlinear_arith)
                requires channels >= 3;
            assert(i * channels + 2 < len);
        }
        let base = i * channels;
        let r = rgb[base];
        let g = rgb[base + 1];
        let b = rgb[base + 2];
        let y = lumas[i];
        bump(&mut red, r, Ghost(rgb@), Ghost(channels as nat), Ghost(0), Ghost(i as nat));
        bump(&mut green, g, Ghost(rgb@), Ghost(channels as nat), Ghost(1), Ghost(i as nat));
        bump(&mut blue, b, Ghost(rgb@), Ghost(channels as nat), Ghost(2), Ghost(i as nat));
        proof {
            assert(lumas@[(i * 1 + 0) as int] == y);
        }
        bump(&mut luma, y, Ghost(lumas@), Ghost(1), Ghost(0), Ghost(i as nat));
        if y <= 1 {
            shadow_clips = shadow_clips + 1;
        } else if y >= 254 {
            highlight_clips = highlight_clips + 1;
        }
        i = i + 1;
    }
    let max_count = display_peak(&red, &green, &blue, &luma);
    HistogramCounts { red, green, blue, luma, max_count, shadow_clips, highlight_clips, total_pixels: n }
}

proof fn lemma_zero_bins_sum(bins: Seq<u32>, k: nat)
    requires
        k <= bins.len(),
        forall|j: int| 0 <= j < bins.len() ==> bins[j] == 0,
    ensures
        bins_sum(bins, k) == 0,
    decreases k,
{
    if k > 0 {
        lemma_zero_bins_sum(bins, (k - 1) as nat);
    }
}

/// The display peak of four channel histograms; see `is_display_peak`.
pub fn display_peak(red: &Vec<u32>, green: &Vec<u32>, blue: &Vec<u32>, luma: &Vec<u32>) -> (r: u32)
    requires
        red@.len() == HISTOGRAM_BINS && green@.len() == HISTOGRAM_BINS && blue@.len() == HISTOGRAM_BINS
            && luma@.len() == HISTOGRAM_BINS,
    ensures
        is_display_peak(r, red@, green@, blue@, luma@),
{
    let mut peak: u32 = 1;
    let mut i: usize = 1;
    while i < 255
        invariant
            1 <= i <= 255,
            red@.len() == HISTOGRAM_BINS && green@.len() == HISTOGRAM_BINS && blue@.len() == HISTOGRAM_BINS
                && luma@.len() == HISTOGRAM_BINS,
            peak >= 1,
            forall|j: int|
                1 <= j < i ==> red@[j] <= peak && green@[j] <= peak && blue@[j] <= peak && luma@[j] <= peak,
            peak == 1 || exists|j: int|
                1 <= j < i && (red@[j] == peak || green@[j] == peak || blue@[j] == peak || luma@[j]
                    == peak),
        decreases 255 - i,
    {
        if red[i] > peak {
            peak = red[i];
        }
        if green[i] > peak {
            peak = green[i];
        }
        if blue[i] > peak {
            peak = blue[i];
        }
        if luma[i] > peak {
            peak = luma[i];
        }
        i = i + 1;
    }
    peak
}

/// The top eight bits of every 16-bit sample, used to histogram 16-bit buffers.
pub fn high_bytes(samples: &[u16]) -> (r: Vec<u8>)
    ensures
        r@.len() == samples@.len(),
        forall|i: int| 0 <= i < samples@.len() ==> #[trigger] r@[i] == samples@[i] / 256,
{
    let mut out: Vec<u8> = Vec::new();
    let mut i: usize = 0;
    while i < samples.len()
        invariant
            i <= samples@.len(),
            out@.len() == i,
            forall|j: int| 0 <= j < i ==> #[trigger] out@[j] == samples@[j] / 256,
        decreases samples.len() - i,
    {
        let v = samples[i];
        let hi = (v / 256) as u8;
        out.push(hi);
        i = i + 1;
    }
    out
}

} // verus!
