//! Camera metadata of plain photo files: the image size from the header
//! and the EXIF fields the catalogue shows, read with `kamadak-exif` from
//! the file's own container (JPEG, TIFF, PNG, WebP, HEIF). Numeric fields
//! are handed out as stored; turning them into decimals is the caller's part.

use vstd::prelude::*;
use crate::raw::standard::{chrono_naive_to_epoch, exif_timestamp, header_size, read_header_size, image_error_text};
use crate::theme::{strip_trailing_char, trim, trim_ws};
use vstd::utf8::encode_utf8;
use exif::{Context, In, Reader, Tag, Value};

verus! {

/// The image file directory a tag is looked up in.
#[derive(PartialEq, Eq, Structural, Clone, Copy, Debug)]
pub enum ExifIfd {
    /// The TIFF attributes of the primary image (`Make`, `Model`, `DateTime`).
    Tiff,
    /// The Exif attributes (exposure, lens, original date).
    Exif,
}

/// The first element of a numeric EXIF field, as stored.
#[derive(PartialEq, Eq, Structural, Clone, Copy, Debug)]
pub enum ExifNumber {
    /// An unsigned `RATIONAL`: numerator and denominator.
    Ratio(u32, u32),
    /// A signed `SRATIONAL`: numerator and denominator.
    SignedRatio(i32, i32),
    /// A `SHORT`.
    Short(u16),
    /// A `LONG`.
    Long(u32),
}

/// The strings of the ASCII field `number` of `ifd` in the primary image,
/// each decoded with `String::from_utf8_lossy`, when
/// `exif::Reader::read_from_container` reads EXIF data from `bytes` and the
/// field is there with an ASCII value; `None` otherwise.
pub uninterp spec fn exif_strings(bytes: Seq<u8>, ifd: ExifIfd, number: u16) -> Option<Seq<Seq<char>>>;

/// The value of the field `number` of `ifd` in the primary image, when
/// EXIF data is read from `bytes` and the field is there.
pub uninterp spec fn exif_value(bytes: Seq<u8>, ifd: ExifIfd, number: u16) -> Option<ExifValueView>;

/// A numeric EXIF value as stored, every element kept.
pub enum ExifValue {
    Ratios(Vec<(u32, u32)>),
    SignedRatios(Vec<(i32, i32)>),
    Shorts(Vec<u16>),
    Longs(Vec<u32>),
    /// A value of any other type (text, bytes, signed integers, floats).
    Other,
}

/// The elements of an `ExifValue`.
pub enum ExifValueView {
    Ratios(Seq<(u32, u32)>),
    SignedRatios(Seq<(i32, i32)>),
    Shorts(Seq<u16>),
    Longs(Seq<u32>),
    Other,
}

impl View for ExifValue {
    type V = ExifValueView;

    open spec fn view(&self) -> ExifValueView {
        match self {
            ExifValue::Ratios(v) => ExifValueView::Ratios(v@),
            ExifValue::SignedRatios(v) => ExifValueView::SignedRatios(v@),
            ExifValue::Shorts(v) => ExifValueView::Shorts(v@),
            ExifValue::Longs(v) => ExifValueView::Longs(v@),
            ExifValue::Other => ExifValueView::Other,
        }
    }
}

/// Parses the EXIF data of the container in `bytes` with
/// `exif::Reader::read_from_container`, looks the field up with
/// `Exif::get_field(Tag(context, number), In::PRIMARY)` and hands out the
/// strings of an ASCII value through `String::from_utf8_lossy`. The result
/// is named `exif_strings`; nothing else is claimed.
#[verifier::external_body]
fn read_exif_strings(bytes: &[u8], ifd: ExifIfd, number: u16) -> (r: Option<Vec<String>>)
    ensures
        (match r {
            Some(v) => Some(v@.map_values(|t: String| t@)),
            None => None,
        }) == exif_strings(bytes@, ifd, number),
{
    let context = match ifd { ExifIfd::Tiff => Context::Tiff, ExifIfd::Exif => Context::Exif };
    let exif = Reader::new().read_from_container(&mut std::io::Cursor::new(bytes)).ok()?;
    match &exif.get_field(Tag(context, number), In::PRIMARY)?.value {
        Value::Ascii(chunks) => Some(chunks.iter().map(|b| String::from_utf8_lossy(b).into_owned()).collect()),
        _ => None,
    }
}

/// As `read_exif_strings`, handing out a numeric value with all its
/// elements; the result is named `exif_value`.
#[verifier::external_body]
fn read_exif_value(bytes: &[u8], ifd: ExifIfd, number: u16) -> (r: Option<ExifValue>)
    ensures
        (match r {
            Some(v) => Some(v@),
            None => None,
        }) == exif_value(bytes@, ifd, number),
{
    let context = match ifd { ExifIfd::Tiff => Context::Tiff, ExifIfd::Exif => Context::Exif };
    let exif = Reader::new().read_from_container(&mut std::io::Cursor::new(bytes)).ok()?;
    Some(match &exif.get_field(Tag(context, number), In::PRIMARY)?.value {
        Value::Rational(v) => ExifValue::Ratios(v.iter().map(|x| (x.num, x.denom)).collect()),
        Value::SRational(v) => ExifValue::SignedRatios(v.iter().map(|x| (x.num, x.denom)).collect()),
        Value::Short(v) => ExifValue::Shorts(v.clone()),
        Value::Long(v) => ExifValue::Longs(v.clone()),
        _ => ExifValue::Other,
    })
}

/// The first string of an ASCII field, when there is one.
pub open spec fn exif_text(bytes: Seq<u8>, ifd: ExifIfd, number: u16) -> Option<Seq<char>> {
    match exif_strings(bytes, ifd, number) {
        Some(v) => if v.len() > 0 { Some(v[0]) } else { None },
        None => None,
    }
}

/// The first element of a numeric field as an `ExifNumber`, when the field
/// holds a non-empty `RATIONAL`, `SRATIONAL`, `SHORT` or `LONG` value.
pub open spec fn exif_number(bytes: Seq<u8>, ifd: ExifIfd, number: u16) -> Option<ExifNumber> {
    match exif_value(bytes, ifd, number) {
        Some(ExifValueView::Ratios(v)) => if v.len() > 0 { Some(ExifNumber::Ratio(v[0].0, v[0].1)) } else { None },
        Some(ExifValueView::SignedRatios(v)) => if v.len() > 0 { Some(ExifNumber::SignedRatio(v[0].0, v[0].1)) } else { None },
        Some(ExifValueView::Shorts(v)) => if v.len() > 0 { Some(ExifNumber::Short(v[0])) } else { None },
        Some(ExifValueView::Longs(v)) => if v.len() > 0 { Some(ExifNumber::Long(v[0])) } else { None },
        _ => None,
    }
}

/// The first string of an ASCII field; see `exif_text`.
fn first_text(bytes: &[u8], ifd: ExifIfd, number: u16) -> (r: Option<String>)
    ensures
        (match r {
            Some(s) => Some(s@),
            None => None,
        }) == exif_text(bytes@, ifd, number),
{
    match read_exif_strings(bytes, ifd, number) {
        Some(v) => if v.len() > 0 {
            Some(v[0].clone())
        } else {
            None
        },
        None => None,
    }
}

/// The first element of a numeric field; see `exif_number`.
fn read_exif_number(bytes: &[u8], ifd: ExifIfd, number: u16) -> (r: Option<ExifNumber>)
    ensures
        r == exif_number(bytes@, ifd, number),
{
    match read_exif_value(bytes, ifd, number) {
        Some(ExifValue::Ratios(v)) => if v.len() > 0 { Some(ExifNumber::Ratio(v[0].0, v[0].1)) } else { None },
        Some(ExifValue::SignedRatios(v)) => if v.len() > 0 { Some(ExifNumber::SignedRatio(v[0].0, v[0].1)) } else { None },
        Some(ExifValue::Shorts(v)) => if v.len() > 0 { Some(ExifNumber::Short(v[0])) } else { None },
        Some(ExifValue::Longs(v)) => if v.len() > 0 { Some(ExifNumber::Long(v[0])) } else { None },
        _ => None,
    }
}

/// Tag number of `Make` (TIFF).
pub open spec fn tag_make() -> u16 { 0x010f }
/// Tag number of `Model` (TIFF).
pub open spec fn tag_model() -> u16 { 0x0110 }
/// Tag number of `DateTime` (TIFF).
pub open spec fn tag_date_time() -> u16 { 0x0132 }
/// Tag number of `ExposureTime` (Exif).
pub open spec fn tag_exposure_time() -> u16 { 0x829a }
/// Tag number of `FNumber` (Exif).
pub open spec fn tag_f_number() -> u16 { 0x829d }
/// Tag number of `PhotographicSensitivity` (Exif).
pub open spec fn tag_photographic_sensitivity() -> u16 { 0x8827 }
/// Tag number of `DateTimeOriginal` (Exif).
pub open spec fn tag_date_time_original() -> u16 { 0x9003 }
/// Tag number of `FocalLength` (Exif).
pub open spec fn tag_focal_length() -> u16 { 0x920a }
/// Tag number of `LensModel` (Exif).
pub open spec fn tag_lens_model() -> u16 { 0xa434 }

/// A text field as shown: trailing NUL characters and surrounding white
/// space removed; a field left empty counts as missing.
pub open spec fn shown_text(t: Option<Seq<char>>) -> Option<Seq<char>> {
    match t {
        None => None,
        Some(s) => {
            let c = trim_ws(strip_trailing_char(s, '\0'));
            if c.len() == 0 {
                None
            } else {
                Some(c)
            }
        },
    }
}

/// The text of a field as shown; see `shown_text`.
fn text_field(bytes: &[u8], ifd: ExifIfd, number: u16) -> (r: Option<String>)
    ensures
        (match r {
            Some(s) => Some(s@),
            None => None,
        }) == shown_text(exif_text(bytes@, ifd, number)),
{
    match first_text(bytes, ifd, number) {
        None => None,
        Some(raw) => {
            let cs = crate::text::chars_of(raw.as_str());
            let mut n: usize = cs.len();
            assert(cs@.subrange(0, n as int) =~= cs@);
            while n > 0 && cs[n - 1] == '\0'
                invariant
                    n <= cs@.len(),
                    strip_trailing_char(cs@, '\0') == strip_trailing_char(cs@.subrange(0, n as int), '\0'),
                decreases n,
            {
                proof {
                    assert(cs@.subrange(0, n as int).drop_last() =~= cs@.subrange(0, n - 1));
                }
                n = n - 1;
            }
            assert(strip_trailing_char(cs@.subrange(0, n as int), '\0') == cs@.subrange(0, n as int));
            let trimmed = trim(&cs.as_slice()[0..n]);
            if trimmed.len() == 0 {
                None
            } else {
                Some(crate::text::string_of(trimmed.as_slice()))
            }
        },
    }
}

/// What the catalogue reads of a JPEG or TIFF file.
pub struct StandardMetadata {
    pub width: u32,
    pub height: u32,
    pub make: Option<String>,
    pub model: Option<String>,
    pub lens: Option<String>,
    /// Exposure index (`PhotographicSensitivity`).
    pub iso: Option<ExifNumber>,
    /// `ExposureTime`, in seconds.
    pub shutter: Option<ExifNumber>,
    /// `FNumber`.
    pub aperture: Option<ExifNumber>,
    /// `FocalLength`, in millimetres.
    pub focal_length: Option<ExifNumber>,
    /// Unix seconds of `DateTimeOriginal`, or of `DateTime` when the former
    /// is missing, when the date parses.
    pub timestamp: Option<i64>,
}

/// The text of an optional string.
pub open spec fn text_view(s: Option<String>) -> Option<Seq<char>> {
    match s {
        Some(t) => Some(t@),
        None => None,
    }
}

/// The date field used: `DateTimeOriginal`, else `DateTime`.
pub open spec fn date_text(bytes: Seq<u8>) -> Option<Seq<char>> {
    match shown_text(exif_text(bytes, ExifIfd::Exif, tag_date_time_original())) {
        Some(d) => Some(d),
        None => shown_text(exif_text(bytes, ExifIfd::Tiff, tag_date_time())),
    }
}

/// Reads the size and EXIF fields of an image file's bytes (`ext` is its
/// extension, which picks the format the size is read in). Fails with the
/// decoder's message exactly when no size can be read from the header;
/// missing or unreadable EXIF data leaves the fields empty.
pub fn standard_metadata(bytes: &[u8], ext: &str) -> (r: Result<StandardMetadata, String>)
    ensures
        r is Ok == header_size(bytes@, ext@) is Some,
        r matches Ok(m) ==> {
            &&& header_size(bytes@, ext@) == Some((m.width, m.height))
            &&& text_view(m.make) == shown_text(exif_text(bytes@, ExifIfd::Tiff, tag_make()))
            &&& text_view(m.model) == shown_text(exif_text(bytes@, ExifIfd::Tiff, tag_model()))
            &&& text_view(m.lens) == shown_text(exif_text(bytes@, ExifIfd::Exif, tag_lens_model()))
            &&& m.iso == exif_number(bytes@, ExifIfd::Exif, tag_photographic_sensitivity())
            &&& m.shutter == exif_number(bytes@, ExifIfd::Exif, tag_exposure_time())
            &&& m.aperture == exif_number(bytes@, ExifIfd::Exif, tag_f_number())
            &&& m.focal_length == exif_number(bytes@, ExifIfd::Exif, tag_focal_length())
            &&& match date_text(bytes@) {
                None => m.timestamp is None,
                Some(d) => match m.timestamp {
                    Some(t) => exif_timestamp(encode_utf8(d)) == Some(t as int),
                    None => exif_timestamp(encode_utf8(d)) is None,
                },
            }
        },
{
    let (width, height) = match read_header_size(bytes, ext) {
        Ok(d) => d,
        Err(e) => return Err(image_error_text(&e)),
    };
    let make = text_field(bytes, ExifIfd::Tiff, 0x010f);
    let model = text_field(bytes, ExifIfd::Tiff, 0x0110);
    let lens = text_field(bytes, ExifIfd::Exif, 0xa434);
    let iso = read_exif_number(bytes, ExifIfd::Exif, 0x8827);
    let shutter = read_exif_number(bytes, ExifIfd::Exif, 0x829a);
    let aperture = read_exif_number(bytes, ExifIfd::Exif, 0x829d);
    let focal_length = read_exif_number(bytes, ExifIfd::Exif, 0x920a);
    let date = match text_field(bytes, ExifIfd::Exif, 0x9003) {
        Some(d) => Some(d),
        None => text_field(bytes, ExifIfd::Tiff, 0x0132),
    };
    let timestamp = match &date {
        None => None,
        Some(d) => match chrono_naive_to_epoch(d.as_str()) {
            Ok(t) => Some(t),
            Err(()) => None,
        },
    };
    Ok(StandardMetadata { width, height, make, model, lens, iso, shutter, aperture, focal_length, timestamp })
}

} // verus!
