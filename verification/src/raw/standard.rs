//! Plain photo formats (JPEG, TIFF) decoded through the `image` crate into the
//! same `ProcessedBuffer` shape as RAW files, and the EXIF timestamp parser.

use vstd::prelude::*;
use crate::raw::{le_bytes, ProcessedBuffer};
use crate::text::{lowercase, str_eq, unicode_lowercase, is_ascii_text, ascii_lowercase};
use vstd::string::StringSliceAdditionalSpecFns;

verus! {

/// Lowercase extensions decoded by this module.
pub open spec fn standard_lowercase_ext(e: Seq<char>) -> bool {
    e == "jpg"@ || e == "jpeg"@ || e == "tif"@ || e == "tiff"@
}

/// Whether an already lowercase extension is one this module decodes.
pub fn is_standard_lowercase_ext(e: &str) -> (r: bool)
    ensures
        r == standard_lowercase_ext(e@),
{
    str_eq(e, "jpg") || str_eq(e, "jpeg") || str_eq(e, "tif") || str_eq(e, "tiff")
}

/// Whether a file extension, in any letter case, is JPEG or TIFF.
pub fn is_standard_ext(ext: &str) -> (r: bool)
    ensures
        r == standard_lowercase_ext(unicode_lowercase(ext@)),
        is_ascii_text(ext@) ==> r == standard_lowercase_ext(ascii_lowercase(ext@)),
{
    let lower = lowercase(ext);
    is_standard_lowercase_ext(lower.as_str())
}

/// `b` is an ASCII decimal digit.
pub open spec fn is_ascii_digit(b: u8) -> bool {
    48 <= b <= 57
}

/// Value of a run of decimal digits.
pub open spec fn digits_value(s: Seq<u8>) -> int
    decreases s.len(),
{
    if s.len() == 0 {
        0
    } else {
        10 * digits_value(s.drop_last()) + (s.last() - 48)
    }
}

/// A non-empty run of ASCII decimal digits.
pub open spec fn all_digits(s: Seq<u8>) -> bool {
    s.len() > 0 && forall|i: int| 0 <= i < s.len() ==> is_ascii_digit(#[trigger] s[i])
}

/// The integer a field spells the way `i64::from_str` reads it: an optional
/// `+` or `-` followed by at least one ASCII digit, nothing else.
pub open spec fn parse_decimal(s: Seq<u8>) -> Option<int> {
    if s.len() > 0 && s[0] == 45 {
        if all_digits(s.drop_first()) {
            Some(-digits_value(s.drop_first()))
        } else {
            None
        }
    } else if s.len() > 0 && s[0] == 43 {
        if all_digits(s.drop_first()) {
            Some(digits_value(s.drop_first()))
        } else {
            None
        }
    } else if all_digits(s) {
        Some(digits_value(s))
    } else {
        None
    }
}

proof fn lemma_digits_value_bound(s: Seq<u8>)
    requires
        forall|i: int| 0 <= i < s.len() ==> is_ascii_digit(#[trigger] s[i]),
        s.len() <= 4,
    ensures
        0 <= digits_value(s) < 10000,
        s.len() <= 2 ==> digits_value(s) < 100,
        s.len() <= 1 ==> digits_value(s) < 10,
        s.len() <= 3 ==> digits_value(s) < 1000,
    decreases s.len(),
{
    if s.len() > 0 {
        assert(is_ascii_digit(s[s.len() - 1]));
        lemma_digits_value_bound(s.drop_last());
    }
}

/// Parses a field of at most four bytes as `i64::from_str` would.
fn parse_field(b: &[u8]) -> (r: Option<i64>)
    requires
        b@.len() <= 4,
    ensures
        r matches Some(v) ==> parse_decimal(b@) == Some(v as int),
        r is None ==> parse_decimal(b@) is None,
        r matches Some(v) ==> -1000 < v < 10000,
        r matches Some(v) ==> b@.len() <= 2 ==> -10 < v < 100,
{
    if b.len() == 0 {
        return None;
    }
    let negative = b[0] == 45u8;
    let start: usize = if b[0] == 45u8 || b[0] == 43u8 { 1 } else { 0 };
    if start >= b.len() {
        assert(b@.len() == 1);
        assert(b@[0] == 45 || b@[0] == 43);
        assert(b@.drop_first().len() == 0);
        assert(!all_digits(b@.drop_first()));
        assert(parse_decimal(b@) is None);
        return None;
    }
    let ghost digits = b@.subrange(start as int, b@.len() as int);
    let mut value: i64 = 0;
    let mut i: usize = start;
    while i < b.len()
        invariant
            b@.len() <= 4,
            b@.len() > 0,
            start == (if b@[0] == 45 || b@[0] == 43 { 1usize } else { 0usize }),
            start <= i <= b@.len(),
            digits == b@.subrange(start as int, b@.len() as int),
            forall|j: int| start <= j < i ==> is_ascii_digit(#[trigger] b@[j]),
            value == digits_value(b@.subrange(start as int, i as int)),
            0 <= value < 10000,
        decreases b.len() - i,
    {
        let c = b[i];
        if c < 48u8 || c > 57u8 {
            proof {
                assert(digits[i - start] == c);
                assert(!all_digits(digits));
                if start == 1 {
                    assert(digits =~= b@.drop_first());
                } else {
                    assert(digits =~= b@);
                }
            }
            return None;
        }
        proof {
            assert(b@.subrange(start as int, i + 1).drop_last() =~= b@.subrange(start as int, i as int));
            lemma_digits_value_bound(b@.subrange(start as int, i + 1));
        }
        value = 10 * value + (c - 48u8) as i64;
        i = i + 1;
    }
    proof {
        assert(b@.subrange(start as int, b@.len() as int) =~= digits);
        assert forall|j: int| 0 <= j < digits.len() implies is_ascii_digit(#[trigger] digits[j]) by {
            assert(digits[j] == b@[start + j]);
        }
        lemma_digits_value_bound(digits);
        if start == 1 {
            assert(digits =~= b@.drop_first());
        } else {
            assert(digits =~= b@);
        }
    }
    if negative {
        Some(-value)
    } else {
        Some(value)
    }
}

/// Days from 1970-01-01 to the given civil date of the proleptic Gregorian
/// calendar (Howard Hinnant's `days_from_civil`), with months counted from
/// March so that the leap day ends a year. Applied as written to any field
/// values, including out-of-range ones.
pub open spec fn days_from_civil(year: int, month: int, day: int) -> int {
    let y = if month <= 2 {
        year - 1
    } else {
        year
    };
    let era = y / 400;
    let yoe = y - era * 400;
    let mp = (month + 9) % 12;
    let doy = (153 * mp + 2) / 5 + day - 1;
    let doe = yoe * 365 + yoe / 4 - yoe / 100 + doy;
    era * 146097 + doe - 719468
}

/// Seconds since the epoch of a date and time of day, read as UTC.
pub open spec fn epoch_seconds(year: int, month: int, day: int, hour: int, min: int, sec: int) -> int {
    days_from_civil(year, month, day) * 86400 + hour * 3600 + min * 60 + sec
}

/// The timestamp an EXIF `"YYYY:MM:DD HH:MM:SS"` text denotes: its first 19
/// bytes hold six numeric fields at fixed places (the separators are not
/// checked); any field that does not parse makes it absent.
pub open spec fn exif_timestamp(b: Seq<u8>) -> Option<int> {
    if b.len() < 19 {
        None
    } else {
        match (
            parse_decimal(b.subrange(0, 4)),
            parse_decimal(b.subrange(5, 7)),
            parse_decimal(b.subrange(8, 10)),
            parse_decimal(b.subrange(11, 13)),
            parse_decimal(b.subrange(14, 16)),
            parse_decimal(b.subrange(17, 19)),
        ) {
            (Some(year), Some(month), Some(day), Some(hour), Some(min), Some(sec)) => Some(
                epoch_seconds(year, month, day, hour, min, sec),
            ),
            _ => None,
        }
    }
}

/// Converts an EXIF date-time text to Unix seconds.
pub fn chrono_naive_to_epoch(s: &str) -> (r: Result<i64, ()>)
    ensures
        r matches Ok(v) ==> exif_timestamp(s.spec_bytes()) == Some(v as int),
        r is Err ==> exif_timestamp(s.spec_bytes()) is None,
{
    let bytes = s.as_bytes();
    if bytes.len() < 19 {
        return Err(());
    }
    let year = match parse_field(&bytes[0..4]) {
        Some(v) => v,
        None => return Err(()),
    };
    let month = match parse_field(&bytes[5..7]) {
        Some(v) => v,
        None => return Err(()),
    };
    let day = match parse_field(&bytes[8..10]) {
        Some(v) => v,
        None => return Err(()),
    };
    let hour = match parse_field(&bytes[11..13]) {
        Some(v) => v,
        None => return Err(()),
    };
    let min = match parse_field(&bytes[14..16]) {
        Some(v) => v,
        None => return Err(()),
    };
    let sec = match parse_field(&bytes[17..19]) {
        Some(v) => v,
        None => return Err(()),
    };
    let y: i64 = if month <= 2 {
        year - 1
    } else {
        year
    };
    let era: i64 = if y >= 0 {
        y / 400
    } else {
        -((399 - y) / 400)
    };
    proof {
        if y < 0 {
            let q = (399 - y) / 400;
            let rem = (399 - y) % 400;
            vstd::arithmetic::div_mod::lemma_fundamental_div_mod(399 - y, 400);
            vstd::arithmetic::div_mod::lemma_fundamental_div_mod_converse(y as int, 400, -q, 399 - rem);
        }
    }
    let yoe: i64 = y - era * 400;
    let mp: i64 = (month + 9) % 12;
    let doy: i64 = (153 * mp + 2) / 5 + day - 1;
    let doe: i64 = yoe * 365 + yoe / 4 - yoe / 100 + doy;
    let days: i64 = era * 146097 + doe - 719468;
    Ok(days * 86400 + hour * 3600 + min * 60 + sec)
}

#[verifier::external_type_specification]
#[verifier::external_body]
pub struct ExImageError(image::ImageError);

/// Whether the bytes decode as an image in the format that
/// `image::ImageFormat::from_extension` picks for `ext`, as
/// `image::load_from_memory_with_format` decodes them (there is no image
/// when no format is picked). This is how `image::open` decodes a file
/// with that extension.
pub uninterp spec fn image_decodes(bytes: Seq<u8>, ext: Seq<char>) -> bool;

/// Width and height of the image so decoded.
pub uninterp spec fn decoded_size(bytes: Seq<u8>, ext: Seq<char>) -> (u32, u32);

/// Width, height and interleaved samples of `DynamicImage::to_rgb8` of the
/// image so decoded.
pub uninterp spec fn decoded_rgb8(bytes: Seq<u8>, ext: Seq<char>) -> (u32, u32, Seq<u8>);

/// Width, height and interleaved samples of `DynamicImage::to_rgb16` of the
/// image so decoded.
pub uninterp spec fn decoded_rgb16(bytes: Seq<u8>, ext: Seq<char>) -> (u32, u32, Seq<u16>);

/// Whether the image so decoded has 8-bit red, green and blue samples,
/// with or without alpha (`DynamicImage::ImageRgb8` or `ImageRgba8`).
pub uninterp spec fn decodes_to_rgb8_samples(bytes: Seq<u8>, ext: Seq<char>) -> bool;

/// `wide` is `narrow` with every 8-bit sample `v` widened to 16 bits as
/// `v << 8 | v`, that is `257 * v`.
pub open spec fn widened(narrow: Seq<u8>, wide: Seq<u16>) -> bool {
    wide.len() == narrow.len() && forall|i: int| 0 <= i < wide.len() ==> #[trigger] wide[i] == 257 * narrow[i]
}

/// Width, height and samples of `to_rgb8` of the image so decoded after
/// `DynamicImage::resize(width, height, FilterType::Triangle)`.
pub uninterp spec fn fitted_rgb8(bytes: Seq<u8>, ext: Seq<char>, width: u32, height: u32) -> (u32, u32, Seq<u8>);

/// Width, height and samples of `to_rgb16` of the image so decoded after
/// `DynamicImage::resize(width, height, FilterType::Triangle)`.
pub uninterp spec fn fitted_rgb16(bytes: Seq<u8>, ext: Seq<char>, width: u32, height: u32) -> (u32, u32, Seq<u16>);

/// Width, height and samples of `to_rgb8` of the image so decoded after
/// `DynamicImage::thumbnail(width, height)`.
pub uninterp spec fn thumbnail_rgb8_of(bytes: Seq<u8>, ext: Seq<char>, width: u32, height: u32) -> (u32, u32, Seq<u8>);

/// The size `image::ImageReader::into_dimensions` reads from the header of
/// the bytes in the format picked for `ext`, when it reads one.
pub uninterp spec fn header_size(bytes: Seq<u8>, ext: Seq<char>) -> Option<(u32, u32)>;

/// Decodes with `image::load_from_memory_with_format` in the format of
/// `ImageFormat::from_extension(ext)` (an unsupported-format error when
/// there is none) and reads `width` and `height` of the image.
#[verifier::external_body]
fn decode_size(bytes: &[u8], ext: &str) -> (r: Result<(u32, u32), image::ImageError>)
    ensures
        r is Ok == image_decodes(bytes@, ext@),
        r matches Ok(d) ==> d == decoded_size(bytes@, ext@),
{
    image::ImageFormat::from_extension(ext)
        .ok_or(image::ImageError::Unsupported(image::error::ImageFormatHint::PathExtension(ext.into()).into()))
        .and_then(|f| image::load_from_memory_with_format(bytes, f))
        .map(|img| (img.width(), img.height()))
}

/// Decodes as `decode_size` does and converts with `DynamicImage::to_rgb8`.
/// The conversion keeps the size, and the buffers the decoders and the
/// conversion allocate hold exactly three samples per pixel.
#[verifier::external_body]
fn decode_rgb8(bytes: &[u8], ext: &str) -> (r: Result<(u32, u32, Vec<u8>), image::ImageError>)
    ensures
        r is Ok == image_decodes(bytes@, ext@),
        r matches Ok((w, h, px)) ==> (w, h, px@) == decoded_rgb8(bytes@, ext@) && (w, h)
            == decoded_size(bytes@, ext@) && px@.len() == 3 * w * h,
{
    image::ImageFormat::from_extension(ext)
        .ok_or(image::ImageError::Unsupported(image::error::ImageFormatHint::PathExtension(ext.into()).into()))
        .and_then(|f| image::load_from_memory_with_format(bytes, f))
        .map(|img| img.to_rgb8())
        .map(|rgb| (rgb.width(), rgb.height(), rgb.into_raw()))
}

/// Decodes as `decode_size` does and converts with `DynamicImage::to_rgb16`;
/// as for `decode_rgb8`, the size is kept and there are three samples per
/// pixel. Of an image with 8-bit RGB(A) samples, `to_rgb16` keeps the
/// channels and widens each sample with `FromPrimitive<u8> for u16`
/// (`v << 8 | v`), where `to_rgb8` keeps them as they are.
#[verifier::external_body]
fn decode_rgb16(bytes: &[u8], ext: &str) -> (r: Result<(u32, u32, Vec<u16>), image::ImageError>)
    ensures
        r is Ok == image_decodes(bytes@, ext@),
        r matches Ok((w, h, px)) ==> (w, h, px@) == decoded_rgb16(bytes@, ext@) && (w, h)
            == decoded_size(bytes@, ext@) && px@.len() == 3 * w * h,
        decodes_to_rgb8_samples(bytes@, ext@) ==> (r matches Ok((w, h, px)) ==> widened(
            decoded_rgb8(bytes@, ext@).2,
            px@,
        )),
{
    image::ImageFormat::from_extension(ext)
        .ok_or(image::ImageError::Unsupported(image::error::ImageFormatHint::PathExtension(ext.into()).into()))
        .and_then(|f| image::load_from_memory_with_format(bytes, f))
        .map(|img| img.to_rgb16())
        .map(|rgb| (rgb.width(), rgb.height(), rgb.into_raw()))
}

/// Decodes as `decode_size` does, fits the image into `width` x `height`
/// with `DynamicImage::resize` and the triangle filter (the aspect ratio is
/// kept), and converts with `to_rgb8`: three samples per pixel.
#[verifier::external_body]
fn decode_fitted_rgb8(bytes: &[u8], ext: &str, width: u32, height: u32) -> (r: Result<(u32, u32, Vec<u8>), image::ImageError>)
    ensures
        r is Ok == image_decodes(bytes@, ext@),
        r matches Ok((w, h, px)) ==> (w, h, px@) == fitted_rgb8(bytes@, ext@, width, height)
            && px@.len() == 3 * w * h,
{
    image::ImageFormat::from_extension(ext)
        .ok_or(image::ImageError::Unsupported(image::error::ImageFormatHint::PathExtension(ext.into()).into()))
        .and_then(|f| image::load_from_memory_with_format(bytes, f))
        .map(|img| img.resize(width, height, image::imageops::FilterType::Triangle).to_rgb8())
        .map(|rgb| (rgb.width(), rgb.height(), rgb.into_raw()))
}

/// As `decode_fitted_rgb8`, converting with `to_rgb16`. Resizing keeps the
/// kind of image, so of an image with 8-bit RGB(A) samples the result is
/// the 8-bit one widened as in `decode_rgb16`.
#[verifier::external_body]
fn decode_fitted_rgb16(bytes: &[u8], ext: &str, width: u32, height: u32) -> (r: Result<(u32, u32, Vec<u16>), image::ImageError>)
    ensures
        r is Ok == image_decodes(bytes@, ext@),
        r matches Ok((w, h, px)) ==> (w, h, px@) == fitted_rgb16(bytes@, ext@, width, height)
            && px@.len() == 3 * w * h,
        decodes_to_rgb8_samples(bytes@, ext@) ==> (r matches Ok((w, h, px)) ==> w == fitted_rgb8(
            bytes@,
            ext@,
            width,
            height,
        ).0 && h == fitted_rgb8(bytes@, ext@, width, height).1 && widened(
            fitted_rgb8(bytes@, ext@, width, height).2,
            px@,
        )),
{
    image::ImageFormat::from_extension(ext)
        .ok_or(image::ImageError::Unsupported(image::error::ImageFormatHint::PathExtension(ext.into()).into()))
        .and_then(|f| image::load_from_memory_with_format(bytes, f))
        .map(|img| img.resize(width, height, image::imageops::FilterType::Triangle).to_rgb16())
        .map(|rgb| (rgb.width(), rgb.height(), rgb.into_raw()))
}

/// Decodes as `decode_size` does, scales the image to fit `width` x
/// `height` with `DynamicImage::thumbnail` (up or down, keeping the aspect
/// ratio) and converts with `to_rgb8`:
/// three samples per pixel.
#[verifier::external_body]
fn decode_thumbnail_rgb8(bytes: &[u8], ext: &str, width: u32, height: u32) -> (r: Result<(u32, u32, Vec<u8>), image::ImageError>)
    ensures
        r is Ok == image_decodes(bytes@, ext@),
        r matches Ok((w, h, px)) ==> (w, h, px@) == thumbnail_rgb8_of(bytes@, ext@, width, height)
            && px@.len() == 3 * w * h,
{
    image::ImageFormat::from_extension(ext)
        .ok_or(image::ImageError::Unsupported(image::error::ImageFormatHint::PathExtension(ext.into()).into()))
        .and_then(|f| image::load_from_memory_with_format(bytes, f))
        .map(|img| img.thumbnail(width, height).to_rgb8())
        .map(|rgb| (rgb.width(), rgb.height(), rgb.into_raw()))
}

/// Reads the image size from the header with
/// `image::ImageReader::with_format(..).into_dimensions()`, in the format of
/// `ImageFormat::from_extension(ext)` (an unsupported-format error when there is none).
#[verifier::external_body]
pub(crate) fn read_header_size(bytes: &[u8], ext: &str) -> (r: Result<(u32, u32), image::ImageError>)
    ensures
        match r {
            Ok(d) => header_size(bytes@, ext@) == Some(d),
            Err(_) => header_size(bytes@, ext@) is None,
        },
{
    image::ImageFormat::from_extension(ext)
        .ok_or(image::ImageError::Unsupported(image::error::ImageFormatHint::PathExtension(ext.into()).into()))
        .and_then(|f| image::ImageReader::with_format(std::io::Cursor::new(bytes), f).into_dimensions())
}

/// The `Display` text of an `image::ImageError`.
#[verifier::external_body]
pub(crate) fn image_error_text(e: &image::ImageError) -> String {
    e.to_string()
}

/// Half of an image side for a half-size preview, the side counted as at least 2.
pub open spec fn half_side(v: u32) -> u32 {
    ((if v < 2 { 2 } else { v }) / 2) as u32
}

/// The bounds a half-size preview is fitted into: half of each side, each
/// side counted as at least 2.
pub fn half_size_dims(width: u32, height: u32) -> (r: (u32, u32))
    ensures
        r.0 == half_side(width),
        r.1 == half_side(height),
{
    let w = if width < 2 { 2 } else { width };
    let h = if height < 2 { 2 } else { height };
    (w / 2, h / 2)
}

/// The 8-bit pixels of a preview decode: the whole image, or with
/// `half` the image fitted into half its size.
pub open spec fn preview_rgb8(bytes: Seq<u8>, ext: Seq<char>, half: bool) -> (u32, u32, Seq<u8>) {
    if half {
        let (w, h) = decoded_size(bytes, ext);
        fitted_rgb8(bytes, ext, half_side(w), half_side(h))
    } else {
        decoded_rgb8(bytes, ext)
    }
}

/// The 16-bit pixels of a preview decode; see `preview_rgb8`.
pub open spec fn preview_rgb16(bytes: Seq<u8>, ext: Seq<char>, half: bool) -> (u32, u32, Seq<u16>) {
    if half {
        let (w, h) = decoded_size(bytes, ext);
        fitted_rgb16(bytes, ext, half_side(w), half_side(h))
    } else {
        decoded_rgb16(bytes, ext)
    }
}

/// `b` holds the 8-bit RGB pixels `px` (width, height, samples), all of them exposed.
pub open spec fn holds_rgb8(b: ProcessedBuffer, px: (u32, u32, Seq<u8>)) -> bool {
    &&& b.width == px.0 && b.height == px.1
    &&& b.channels == 3 && b.bits_per_sample == 8
    &&& b@ == px.2
    &&& b.data_size == b@.len()
    &&& b.data_size == 3 * b.width * b.height
}

/// `b` holds the 16-bit RGB pixels `px`, each sample little-endian, all of them exposed.
pub open spec fn holds_rgb16(b: ProcessedBuffer, px: (u32, u32, Seq<u16>)) -> bool {
    &&& b.width == px.0 && b.height == px.1
    &&& b.channels == 3 && b.bits_per_sample == 16
    &&& b@ == le_bytes(px.2)
    &&& b.data_size == b@.len()
    &&& b.data_size == 6 * b.width * b.height
}

/// Decodes a JPEG or TIFF file's bytes (`ext` is the file's extension,
/// which picks the format) into an 8-bit RGB buffer; with `half_size` the
/// image is fitted into half its size. Fails with the decoder's message
/// exactly when the bytes do not decode.
pub fn process_preview(bytes: &[u8], ext: &str, half_size: bool) -> (r: Result<ProcessedBuffer, String>)
    ensures
        r is Ok == image_decodes(bytes@, ext@),
        r matches Ok(b) ==> holds_rgb8(b, preview_rgb8(bytes@, ext@, half_size)),
{
    let decoded = if half_size {
        let (w0, h0) = match decode_size(bytes, ext) {
            Ok(d) => d,
            Err(e) => return Err(image_error_text(&e)),
        };
        let (hw, hh) = half_size_dims(w0, h0);
        decode_fitted_rgb8(bytes, ext, hw, hh)
    } else {
        decode_rgb8(bytes, ext)
    };
    match decoded {
        Ok((w, h, px)) => Ok(ProcessedBuffer::from_owned(px, w, h, 3, 8)),
        Err(e) => Err(image_error_text(&e)),
    }
}

/// Decodes a JPEG or TIFF file's bytes into a 16-bit RGB buffer with
/// little-endian samples (8-bit sources are widened by the decoder); see
/// `process_preview`.
pub fn process_preview_16(bytes: &[u8], ext: &str, half_size: bool) -> (r: Result<ProcessedBuffer, String>)
    ensures
        r is Ok == image_decodes(bytes@, ext@),
        r matches Ok(b) ==> holds_rgb16(b, preview_rgb16(bytes@, ext@, half_size)),
        r is Ok && decodes_to_rgb8_samples(bytes@, ext@) ==> widened(
            preview_rgb8(bytes@, ext@, half_size).2,
            preview_rgb16(bytes@, ext@, half_size).2,
        ),
{
    let decoded = if half_size {
        let (w0, h0) = match decode_size(bytes, ext) {
            Ok(d) => d,
            Err(e) => return Err(image_error_text(&e)),
        };
        let (hw, hh) = half_size_dims(w0, h0);
        decode_fitted_rgb16(bytes, ext, hw, hh)
    } else {
        decode_rgb16(bytes, ext)
    };
    match decoded {
        Ok((w, h, px)) => {
            let b = ProcessedBuffer::from_rgb16(px.as_slice(), w, h);
            assert(px@.len() == 3 * w * h);
            assert(2 * px@.len() == 6 * w * h) by (nonlinear_arith)
                requires
                    px@.len() == 3 * w * h,
            ;
            Ok(b)
        },
        Err(e) => Err(image_error_text(&e)),
    }
}

/// Full-resolution 8-bit decode: the preview decode without halving; the
/// quality setting of RAW demosaicing does not apply to these formats.
pub fn process_full(bytes: &[u8], ext: &str, _quality: i32) -> (r: Result<ProcessedBuffer, String>)
    ensures
        r is Ok == image_decodes(bytes@, ext@),
        r matches Ok(b) ==> holds_rgb8(b, decoded_rgb8(bytes@, ext@)),
{
    process_preview(bytes, ext, false)
}

/// Full-resolution 16-bit decode: the preview decode without halving; the
/// quality setting does not apply.
pub fn process_full_16(bytes: &[u8], ext: &str, _quality: i32) -> (r: Result<ProcessedBuffer, String>)
    ensures
        r is Ok == image_decodes(bytes@, ext@),
        r matches Ok(b) ==> holds_rgb16(b, decoded_rgb16(bytes@, ext@)),
        r is Ok && decodes_to_rgb8_samples(bytes@, ext@) ==> widened(
            decoded_rgb8(bytes@, ext@).2,
            decoded_rgb16(bytes@, ext@).2,
        ),
{
    process_preview_16(bytes, ext, false)
}

/// Decodes an image file's bytes and scales it to fit a 512 x 512 box
/// for the thumbnail cache, as 8-bit RGB pixels (width, height, samples).
/// Fails with the decoder's message exactly when the bytes do not decode.
pub fn thumbnail_rgb8(bytes: &[u8], ext: &str) -> (r: Result<(u32, u32, Vec<u8>), String>)
    ensures
        r is Ok == image_decodes(bytes@, ext@),
        r matches Ok((w, h, px)) ==> (w, h, px@) == thumbnail_rgb8_of(bytes@, ext@, 512, 512)
            && px@.len() == 3 * w * h,
{
    match decode_thumbnail_rgb8(bytes, ext, 512, 512) {
        Ok(t) => Ok(t),
        Err(e) => Err(image_error_text(&e)),
    }
}

/// Whether `y` is a leap year of the Gregorian calendar.
pub open spec fn is_leap_year(y: int) -> bool {
    y % 4 == 0 && (y % 100 != 0 || y % 400 == 0)
}

/// Number of days of month `m` (1 to 12) of year `y`.
pub open spec fn days_in_month(y: int, m: int) -> int {
    if m == 2 {
        if is_leap_year(y) {
            29
        } else {
            28
        }
    } else if m == 4 || m == 6 || m == 9 || m == 11 {
        30
    } else {
        31
    }
}

/// Days from the start of era 0 to the March 1st that begins year `y` of
/// the March-based count used by `days_from_civil`.
spec fn march_year_start(y: int) -> int {
    let era = y / 400;
    let yoe = y - era * 400;
    era * 146097 + yoe * 365 + yoe / 4 - yoe / 100
}

proof fn lemma_march_year_length(y: int)
    ensures
        march_year_start(y) - march_year_start(y - 1) == 365 + if is_leap_year(y) { 1int } else { 0int },
{
    let e = y / 400;
    let r = y % 400;
    vstd::arithmetic::div_mod::lemma_fundamental_div_mod(y, 400);
    assert(y == 400 * e + r && 0 <= r < 400);
    if r > 0 {
        vstd::arithmetic::div_mod::lemma_fundamental_div_mod_converse(y - 1, 400, e, r - 1);
        vstd::arithmetic::div_mod::lemma_fundamental_div_mod_converse(y, 4, 100 * e + r / 4, r % 4);
        vstd::arithmetic::div_mod::lemma_fundamental_div_mod_converse(y, 100, 4 * e + r / 100, r % 100);
        assert(r / 4 - (r - 1) / 4 == if r % 4 == 0 { 1int } else { 0int });
        assert(r / 100 - (r - 1) / 100 == if r % 100 == 0 { 1int } else { 0int });
        assert(y - e * 400 == r);
        assert((y - 1) - e * 400 == r - 1);
    } else {
        vstd::arithmetic::div_mod::lemma_fundamental_div_mod_converse(y - 1, 400, e - 1, 399);
        vstd::arithmetic::div_mod::lemma_fundamental_div_mod_converse(y, 4, 100 * e, 0);
        vstd::arithmetic::div_mod::lemma_fundamental_div_mod_converse(y, 100, 4 * e, 0);
        assert(y - e * 400 == 0);
        assert((y - 1) - (e - 1) * 400 == 399);
    }
}

/// The Unix epoch, 1970-01-01 00:00:00, is second 0.
pub proof fn epoch_origin_is_zero()
    ensures
        epoch_seconds(1970, 1, 1, 0, 0, 0) == 0,
{
    assert(1969int / 400 == 4);
    assert((1 + 9) % 12 == 10int);
    assert((153 * 10 + 2) / 5 == 306int);
    assert(369int / 4 == 92);
    assert(369int / 100 == 3);
}

/// The next day of a month is one day later.
pub proof fn next_day_is_one_day_later(y: int, m: int, d: int)
    ensures
        days_from_civil(y, m, d + 1) == days_from_civil(y, m, d) + 1,
{
}

/// From the first of a month (1 to 12) to the first of the next one there
/// are exactly as many days as the month has, leap years included.
pub proof fn months_have_calendar_lengths(y: int, m: int)
    requires
        1 <= m <= 12,
    ensures
        days_from_civil(if m == 12 { y + 1 } else { y }, if m == 12 { 1 } else { m + 1 }, 1)
            - days_from_civil(y, m, 1) == days_in_month(y, m),
{
    if m == 2 {
        lemma_march_year_length(y);
        assert(days_from_civil(y, 3, 1) == march_year_start(y) - 719468);
        assert((2 + 9) % 12 == 11int);
        assert((153 * 11 + 2) / 5 == 337int);
        assert(days_from_civil(y, 2, 1) == march_year_start(y - 1) + 337 - 719468);
    } else if m == 12 {
        assert((1 + 9) % 12 == 10int);
        assert((12 + 9) % 12 == 9int);
        assert((153 * 10 + 2) / 5 == 306int);
        assert((153 * 9 + 2) / 5 == 275int);
    } else if m == 1 {
        assert((1 + 9) % 12 == 10int);
        assert((2 + 9) % 12 == 11int);
        assert((153 * 10 + 2) / 5 == 306int);
        assert((153 * 11 + 2) / 5 == 337int);
    } else {
        assert((m + 9) % 12 == m - 3);
        assert((m + 1 + 9) % 12 == m - 2);
        assert((153 * 0 + 2) / 5 == 0int);
        assert((153 * 1 + 2) / 5 == 31int);
        assert((153 * 2 + 2) / 5 == 61int);
        assert((153 * 3 + 2) / 5 == 92int);
        assert((153 * 4 + 2) / 5 == 122int);
        assert((153 * 5 + 2) / 5 == 153int);
        assert((153 * 6 + 2) / 5 == 184int);
        assert((153 * 7 + 2) / 5 == 214int);
        assert((153 * 8 + 2) / 5 == 245int);
        assert((153 * 9 + 2) / 5 == 275int);
    }
}

} // verus!
