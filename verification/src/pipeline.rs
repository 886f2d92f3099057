//! Buffer assembly around the floating-point colour pipeline: the
//! before / after split comparison shown in the viewport.

use vstd::prelude::*;
use vstd::arithmetic::div_mod::lemma_fundamental_div_mod_converse;

verus! {

/// Sample `c` of a pixel in column `x` of a split view: the original left of
/// the split, a white divider two columns wide (its samples past the colour
/// and alpha ones stay 0), the processed image right of it.
pub open spec fn split_value(before: u8, after: u8, x: int, c: int, channels: int, split_x: int) -> u8 {
    if x < split_x {
        before
    } else if x == split_x || x == split_x + 1 {
        if c < 3 || (c == 3 && channels == 4) {
            255
        } else {
            0
        }
    } else {
        after
    }
}

/// The split view's three regions: left of the split every sample is the
/// "before" one, on the two divider columns the colour samples are white,
/// right of the divider every sample is the "after" one.
pub proof fn split_view_regions(before: u8, after: u8, x: int, c: int, channels: int, split_x: int)
    ensures
        x < split_x ==> split_value(before, after, x, c, channels, split_x) == before,
        (x == split_x || x == split_x + 1) && 0 <= c < 3 ==> split_value(before, after, x, c, channels, split_x) == 255,
        x > split_x + 1 ==> split_value(before, after, x, c, channels, split_x) == after,
{
}

/// A 16-bit original is shown left of the split by the high byte of each
/// colour sample, whatever its value: a dark sample below 256 shows as 0.
pub proof fn narrowed_colour_is_high_byte(v: u16, c: int, channels: int)
    requires
        0 <= c < 3,
    ensures
        narrowed(v, c, channels) == (v / 256) as u8,
        v < 256 ==> narrowed(v, c, channels) == 0,
{
}

/// Column of sample `i` of an interleaved buffer.
pub open spec fn column_of(i: int, width: int, channels: int) -> int {
    (i / channels) % width
}

/// An 8-bit sample shown for a 16-bit original: its high byte for the colour
/// samples (and alpha of 4-channel pixels), 0 for any further sample.
pub open spec fn narrowed(v: u16, c: int, channels: int) -> u8 {
    if c < 3 || (c == 3 && channels == 4) {
        (v / 256) as u8
    } else {
        0
    }
}

proof fn lemma_position(i: int, q: int, c: int, row: int, x: int, width: int, channels: int)
    requires
        width > 0,
        channels > 0,
        i == q * channels + c,
        0 <= c < channels,
        q == row * width + x,
        0 <= x < width,
        row >= 0,
    ensures
        i / channels == q,
        i % channels == c,
        column_of(i, width, channels) == x,
{
    assert(i == q * channels + c);
    lemma_fundamental_div_mod_converse(i, channels, q, c);
    lemma_fundamental_div_mod_converse(q, width, row, x);
}

/// The split view of an 8-bit image: `original` left of column `split_x`,
/// `processed` right of the divider.
pub fn compose_split(
    original: &[u8],
    processed: &[u8],
    width: u32,
    height: u32,
    channels: u32,
    split_x: usize,
) -> (r: Vec<u8>)
    requires
        channels >= 3,
        width > 0,
        width as int * height as int * channels as int <= usize::MAX,
        original@.len() == width as int * height as int * channels as int,
        processed@.len() == original@.len(),
    ensures
        r@.len() == original@.len(),
        forall|i: int|
            0 <= i < r@.len() && (i / (channels as int)) % (width as int) < split_x ==> #[trigger] r@[i]
                == original@[i],
        forall|i: int|
            0 <= i < r@.len() && (i / (channels as int)) % (width as int) > split_x + 1 ==> #[trigger] r@[i]
                == processed@[i],
        forall|i: int|
            0 <= i < r@.len() && ((i / (channels as int)) % (width as int) == split_x || (i / (channels as int))
                % (width as int) == split_x + 1) && i % (channels as int) < 3 ==> #[trigger] r@[i] == 255,
        forall|i: int|
            0 <= i < r@.len() ==> #[trigger] r@[i] == split_value(
                original@[i],
                processed@[i],
                column_of(i, width as int, channels as int),
                i % channels as int,
                channels as int,
                split_x as int,
            ),
{
    let ch = channels as usize;
    let w = width as usize;
    let n = original.len();
    let mut out: Vec<u8> = Vec::new();
    let mut i: usize = 0;
    let mut c: usize = 0;
    let mut x: usize = 0;
    let ghost mut q: int = 0;
    let ghost mut row: int = 0;
    while i < n
        invariant
            n == original@.len(),
            processed@.len() == n,
            ch == channels && ch >= 3,
            w == width && w > 0,
            i <= n,
            out@.len() == i,
            i == q * ch + c,
            0 <= c < ch,
            q == row * w + x,
            0 <= x < w,
            row >= 0,
            forall|j: int|
                0 <= j < i ==> #[trigger] out@[j] == split_value(
                    original@[j],
                    processed@[j],
                    column_of(j, width as int, channels as int),
                    j % channels as int,
                    channels as int,
                    split_x as int,
                ),
        decreases n - i,
    {
        proof {
            lemma_position(i as int, q, c as int, row, x as int, w as int, ch as int);
        }
        let v: u8 = if x < split_x {
            original[i]
        } else if x == split_x || (split_x < usize::MAX && x == split_x + 1) {
            if c < 3 || (c == 3 && ch == 4) {
                255
            } else {
                0
            }
        } else {
            processed[i]
        };
        out.push(v);
        i = i + 1;
        if c + 1 < ch {
            c = c + 1;
        } else {
            c = 0;
            proof {
                q = q + 1;
            }
            if x + 1 < w {
                x = x + 1;
            } else {
                x = 0;
                proof {
                    row = row + 1;
                }
            }
        }
        proof {
            assert(q * ch == (q - 1) * ch + ch) by (nonlinear_arith);
            assert(row * w == (row - 1) * w + w) by (nonlinear_arith);
        }
    }
    out
}

/// The split view of a 16-bit image shown as 8 bits: the high bytes of the
/// original (see `narrowed`) left of column `split_x`, the 8-bit `processed`
/// image right of the divider.
pub fn compose_split_16_to_8(
    original: &[u16],
    processed: &[u8],
    width: u32,
    height: u32,
    channels: u32,
    split_x: usize,
) -> (r: Vec<u8>)
    requires
        channels >= 3,
        width > 0,
        width as int * height as int * channels as int <= usize::MAX,
        original@.len() >= width as int * height as int * channels as int,
        processed@.len() == width as int * height as int * channels as int,
    ensures
        r@.len() == processed@.len(),
        forall|i: int|
            0 <= i < r@.len() && (i / (channels as int)) % (width as int) < split_x && i % (channels as int)
                < 3 ==> #[trigger] r@[i] == (original@[i] / 256) as u8,
        forall|i: int|
            0 <= i < r@.len() && (i / (channels as int)) % (width as int) > split_x + 1 ==> #[trigger] r@[i]
                == processed@[i],
        forall|i: int|
            0 <= i < r@.len() && ((i / (channels as int)) % (width as int) == split_x || (i / (channels as int))
                % (width as int) == split_x + 1) && i % (channels as int) < 3 ==> #[trigger] r@[i] == 255,
        forall|i: int|
            0 <= i < r@.len() ==> #[trigger] r@[i] == split_value(
                narrowed(original@[i], i % channels as int, channels as int),
                processed@[i],
                column_of(i, width as int, channels as int),
                i % channels as int,
                channels as int,
                split_x as int,
            ),
{
    let ch = channels as usize;
    let w = width as usize;
    let n = processed.len();
    let mut out: Vec<u8> = Vec::new();
    let mut i: usize = 0;
    let mut c: usize = 0;
    let mut x: usize = 0;
    let ghost mut q: int = 0;
    let ghost mut row: int = 0;
    while i < n
        invariant
            n == processed@.len(),
            original@.len() >= n,
            ch == channels && ch >= 3,
            w == width && w > 0,
            i <= n,
            out@.len() == i,
            i == q * ch + c,
            0 <= c < ch,
            q == row * w + x,
            0 <= x < w,
            row >= 0,
            forall|j: int|
                0 <= j < i ==> #[trigger] out@[j] == split_value(
                    narrowed(original@[j], j % channels as int, channels as int),
                    processed@[j],
                    column_of(j, width as int, channels as int),
                    j % channels as int,
                    channels as int,
                    split_x as int,
                ),
        decreases n - i,
    {
        proof {
            lemma_position(i as int, q, c as int, row, x as int, w as int, ch as int);
        }
        let v: u8 = if x < split_x {
            if c < 3 || (c == 3 && ch == 4) {
                (original[i] / 256) as u8
            } else {
                0
            }
        } else if x == split_x || (split_x < usize::MAX && x == split_x + 1) {
            if c < 3 || (c == 3 && ch == 4) {
                255
            } else {
                0
            }
        } else {
            processed[i]
        };
        out.push(v);
        i = i + 1;
        if c + 1 < ch {
            c = c + 1;
        } else {
            c = 0;
            proof {
                q = q + 1;
            }
            if x + 1 < w {
                x = x + 1;
            } else {
                x = 0;
                proof {
                    row = row + 1;
                }
            }
        }
        proof {
            assert(q * ch == (q - 1) * ch + ch) by (nonlinear_arith);
            assert(row * w == (row - 1) * w + w) by (nonlinear_arith);
        }
    }
    out
}

} // verus!
