//! Decoded image buffers as the colour pipeline consumes them, and the
//! decisions taken on what the RAW decoding shim reports.

pub mod standard;
pub mod metadata;

use vstd::prelude::*;

verus! {

/// Little-endian reading of the first `n` pairs of bytes of `b` as 16-bit samples.
pub open spec fn le_samples(b: Seq<u8>, n: nat) -> Seq<u16> {
    Seq::new(n, |i: int| (b[2 * i] + 256 * b[2 * i + 1]) as u16)
}

/// Little-endian bytes of 16-bit samples: low byte first.
pub open spec fn le_bytes(s: Seq<u16>) -> Seq<u8> {
    Seq::new(2 * s.len(), |k: int| if k % 2 == 0 { (s[k / 2] % 256) as u8 } else { (s[k / 2] / 256) as u8 })
}

/// Reading back the little-endian bytes of samples gives the samples.
pub proof fn le_bytes_roundtrip(s: Seq<u16>)
    ensures
        le_samples(le_bytes(s), s.len()) == s,
{
    let b = le_bytes(s);
    assert forall|i: int| 0 <= i < s.len() implies #[trigger] le_samples(b, s.len())[i] == s[i] by {
        assert(b[2 * i] == (s[i] % 256) as u8);
        assert((2 * i + 1) / 2 == i);
        assert((2 * i + 1) % 2 == 1);
        assert(b[2 * i + 1] == (s[i] / 256) as u8);
    }
    assert(le_samples(b, s.len()) =~= s);
}

/// An interleaved pixel buffer with its geometry. Samples of 16-bit buffers
/// are stored little-endian.
pub struct ProcessedBuffer {
    /// The owned bytes; only the first `data_size` of them are exposed.
    pub data: Vec<u8>,
    pub width: u32,
    pub height: u32,
    pub channels: u32,
    pub bits_per_sample: u32,
    pub data_size: usize,
}

impl View for ProcessedBuffer {
    type V = Seq<u8>;

    /// The bytes the buffer owns.
    open spec fn view(&self) -> Seq<u8> {
        self.data@
    }
}

/// Number of bytes a buffer exposes: `data_size`, within the bytes it owns.
pub open spec fn exposed_len(data_size: usize, owned: nat) -> nat {
    if data_size as nat <= owned {
        data_size as nat
    } else {
        owned
    }
}

impl ProcessedBuffer {
    /// A buffer owning `data`, whose size is the length of `data`.
    pub fn from_owned(data: Vec<u8>, width: u32, height: u32, channels: u32, bits_per_sample: u32) -> (r: Self)
        ensures
            r@ == data@,
            r.data_size == data@.len(),
            r.width == width && r.height == height && r.channels == channels
                && r.bits_per_sample == bits_per_sample,
    {
        let data_size = data.len();
        ProcessedBuffer { data, width, height, channels, bits_per_sample, data_size }
    }

    /// A 3-channel 16-bit buffer holding `samples`, each stored little-endian.
    pub fn from_rgb16(samples: &[u16], width: u32, height: u32) -> (r: Self)
        ensures
            r@ == le_bytes(samples@),
            r.data_size == 2 * samples@.len(),
            r.width == width && r.height == height && r.channels == 3 && r.bits_per_sample == 16,
    {
        let mut bytes: Vec<u8> = Vec::new();
        let mut i: usize = 0;
        while i < samples.len()
            invariant
                i <= samples@.len(),
                bytes@ =~= le_bytes(samples@.subrange(0, i as int)),
            decreases samples.len() - i,
        {
            let v = samples[i];
            bytes.push((v % 256) as u8);
            bytes.push((v / 256) as u8);
            i = i + 1;
            proof {
                let s = samples@.subrange(0, i as int);
                assert forall|k: int| 0 <= k < bytes@.len() implies #[trigger] bytes@[k] == le_bytes(s)[k] by {
                    if k < 2 * (i - 1) {
                        assert(s[k / 2] == samples@.subrange(0, i - 1)[k / 2]);
                    }
                }
                assert(bytes@ =~= le_bytes(s));
            }
        }
        assert(samples@.subrange(0, samples@.len() as int) =~= samples@);
        Self::from_owned(bytes, width, height, 3, 16)
    }

    /// The exposed bytes: the first `data_size` bytes (all owned bytes when
    /// `data_size` is larger), empty when `data_size` is 0.
    pub fn as_slice(&self) -> (r: &[u8])
        ensures
            r@ == self@.subrange(0, exposed_len(self.data_size, self@.len()) as int),
    {
        let n = if self.data_size <= self.data.len() {
            self.data_size
        } else {
            self.data.len()
        };
        &self.data.as_slice()[0..n]
    }

    /// A copy of the exposed bytes.
    pub fn to_vec(&self) -> (r: Vec<u8>)
        ensures
            r@ == self@.subrange(0, exposed_len(self.data_size, self@.len()) as int),
    {
        let s = self.as_slice();
        let mut out: Vec<u8> = Vec::new();
        let mut i: usize = 0;
        while i < s.len()
            invariant
                i <= s@.len(),
                out@ == s@.subrange(0, i as int),
            decreases s.len() - i,
        {
            out.push(s[i]);
            i = i + 1;
        }
        assert(s@.subrange(0, s@.len() as int) =~= s@);
        out
    }

    /// The exposed bytes read as 16-bit samples, low byte first, the order
    /// every 16-bit buffer stores them in on any machine (see `from_rgb16`);
    /// a trailing odd byte is left out. The result is a copy.
    pub fn to_vec_u16(&self) -> (r: Vec<u16>)
        ensures
            r@ == le_samples(self@, exposed_len(self.data_size, self@.len()) / 2),
            self.data_size <= self@.len() ==> r@.len() == self.data_size / 2,
            forall|k: int| 0 <= k < r@.len() ==> #[trigger] r@[k] == self@[2 * k] + 256 * self@[2 * k + 1],
    {
        let s = self.as_slice();
        let n = s.len() / 2;
        let mut out: Vec<u16> = Vec::new();
        let mut i: usize = 0;
        while i < n
            invariant
                n == s@.len() / 2,
                s@ == self@.subrange(0, exposed_len(self.data_size, self@.len()) as int),
                i <= n,
                out@ =~= le_samples(self@, i as nat),
            decreases n - i,
        {
            let lo = s[2 * i] as u16;
            let hi = s[2 * i + 1] as u16;
            out.push(lo + 256 * hi);
            i = i + 1;
            proof {
                assert(out@ =~= le_samples(self@, i as nat));
            }
        }
        out
    }
}

/// Geometry of a buffer the RAW shim produced.
#[derive(PartialEq, Eq, Structural, Clone, Copy, Debug)]
pub struct BufferShape {
    pub width: u32,
    pub height: u32,
    pub channels: u32,
    pub bits_per_sample: u32,
    pub data_size: usize,
}

/// A dimension reported as a C `int`, with negative values read as 0.
pub open spec fn clamp_dimension(v: i32) -> u32 {
    if v < 0 {
        0
    } else {
        v as u32
    }
}

/// A dimension reported as a C `int`, negative values clamped to 0.
pub fn nonnegative_dimension(v: i32) -> (r: u32)
    ensures
        r == clamp_dimension(v),
{
    if v < 0 {
        0
    } else {
        v as u32
    }
}

/// Interprets what the shim's processing call reported: no buffer, or an
/// empty one, is a failure; otherwise the geometry with negative values
/// clamped to 0, and 16 bits per sample exactly when 16 were asked for
/// (8 otherwise).
pub fn shim_output_shape(
    buffer_missing: bool,
    out_w: i32,
    out_h: i32,
    out_colors: i32,
    out_size: i32,
    requested_bps: i32,
) -> (r: Result<BufferShape, String>)
    ensures
        buffer_missing || out_size <= 0 ==> (r matches Err(e) && e@ == "Failed to process RAW image"@),
        !buffer_missing && out_size > 0 ==> r == Ok::<BufferShape, String>(
            BufferShape {
                width: clamp_dimension(out_w),
                height: clamp_dimension(out_h),
                channels: clamp_dimension(out_colors),
                bits_per_sample: if requested_bps == 16 {
                    16
                } else {
                    8
                },
                data_size: out_size as usize,
            },
        ),
{
    if buffer_missing || out_size <= 0 {
        return Err(String::from_str("Failed to process RAW image"));
    }
    Ok(
        BufferShape {
            width: nonnegative_dimension(out_w),
            height: nonnegative_dimension(out_h),
            channels: nonnegative_dimension(out_colors),
            bits_per_sample: if requested_bps == 16 {
                16
            } else {
                8
            },
            data_size: out_size as usize,
        },
    )
}

} // verus!
