//! Export settings and the decisions of an export: output format, rotation,
//! resizing, file naming, encoder parameters and the metadata tool's work.
//! Decoding, encoding and running the external encoders is the caller's part.

use vstd::prelude::*;
use crate::text::{chars_of, is_white_space, lowercase, push_char, seq_starts_with, starts_with, str_eq,
    string_of, unicode_lowercase, unicode_white_space, is_ascii_text, ascii_lowercase};

verus! {

/// Export settings.
pub struct ExportOptions {
    /// `"jxl"`, `"avif"`, `"webp"`, `"tiff"`, `"png"` or `"jpeg"`, in any letter case.
    pub format: String,
    /// Encoder quality, 1 to 100.
    pub quality: u32,
    /// Scale in percent, applied when no maximum dimension is set.
    pub scale_percent: u32,
    /// Longest side allowed, such as 3840 for 4K.
    pub max_dimension: Option<u32>,
    pub strip_gps: bool,
    pub preserve_exif: bool,
    pub icc_profile: Option<String>,
    pub artist_copyright: Option<String>,
    pub output_dir: String,
    pub upload_to_gdrive: bool,
    pub gdrive_folder: Option<String>,
}

impl Default for ExportOptions {
    /// JPEG XL at quality 90, full size, keeping camera metadata without GPS,
    /// tagged sRGB, into `~/Pictures/OmaStudio_Exports`, no upload.
    fn default() -> (r: Self)
        ensures
            r.format@ == "jxl"@,
            r.quality == 90,
            r.scale_percent == 100,
            r.max_dimension is None,
            r.strip_gps,
            r.preserve_exif,
            r.icc_profile matches Some(p) && p@ == "sRGB"@,
            r.artist_copyright is None,
            r.output_dir@ == "~/Pictures/OmaStudio_Exports"@,
            !r.upload_to_gdrive,
            r.gdrive_folder matches Some(f) && f@ == "Photos/Exports"@,
    {
        ExportOptions {
            format: String::from_str("jxl"),
            quality: 90,
            scale_percent: 100,
            max_dimension: None,
            strip_gps: true,
            preserve_exif: true,
            icc_profile: Some(String::from_str("sRGB")),
            artist_copyright: None,
            output_dir: String::from_str("~/Pictures/OmaStudio_Exports"),
            upload_to_gdrive: false,
            gdrive_folder: Some(String::from_str("Photos/Exports")),
        }
    }
}

/// Output formats of an export.
#[derive(PartialEq, Eq, Structural, Clone, Copy, Debug)]
pub enum ExportFormat {
    JpegXl,
    Avif,
    WebP,
    Tiff,
    Png,
    Jpeg,
    Unsupported,
}

/// The format a lowercase format name selects.
pub open spec fn format_of_lowercase(f: Seq<char>) -> ExportFormat {
    if f == "jxl"@ {
        ExportFormat::JpegXl
    } else if f == "avif"@ {
        ExportFormat::Avif
    } else if f == "webp"@ {
        ExportFormat::WebP
    } else if f == "tiff"@ || f == "tif"@ {
        ExportFormat::Tiff
    } else if f == "png"@ {
        ExportFormat::Png
    } else if f == "jpeg"@ || f == "jpg"@ {
        ExportFormat::Jpeg
    } else {
        ExportFormat::Unsupported
    }
}

/// Each format name selects its format and any other name none: `jxl`
/// JPEG XL, `avif` AVIF, `webp` WebP, `tiff` and `tif` TIFF, `png` PNG,
/// `jpeg` and `jpg` JPEG.
pub proof fn format_names_select_formats(f: Seq<char>)
    ensures
        f == "jxl"@ ==> format_of_lowercase(f) == ExportFormat::JpegXl,
        f == "avif"@ ==> format_of_lowercase(f) == ExportFormat::Avif,
        f == "webp"@ ==> format_of_lowercase(f) == ExportFormat::WebP,
        f == "tiff"@ ==> format_of_lowercase(f) == ExportFormat::Tiff,
        f == "tif"@ ==> format_of_lowercase(f) == ExportFormat::Tiff,
        f == "png"@ ==> format_of_lowercase(f) == ExportFormat::Png,
        f == "jpeg"@ ==> format_of_lowercase(f) == ExportFormat::Jpeg,
        f == "jpg"@ ==> format_of_lowercase(f) == ExportFormat::Jpeg,
        f != "jxl"@ && f != "avif"@ && f != "webp"@ && f != "tiff"@ && f != "tif"@ && f != "png"@ && f != "jpeg"@ && f != "jpg"@ ==> format_of_lowercase(f) == ExportFormat::Unsupported,
{
    reveal_strlit("jxl");
    reveal_strlit("avif");
    reveal_strlit("webp");
    reveal_strlit("tiff");
    reveal_strlit("tif");
    reveal_strlit("png");
    reveal_strlit("jpeg");
    reveal_strlit("jpg");
    assert("avif"@.len() != "jxl"@.len());
    assert("webp"@.len() != "jxl"@.len());
    assert("webp"@[0] != "avif"@[0]);
    assert("tiff"@.len() != "jxl"@.len());
    assert("tiff"@[0] != "avif"@[0]);
    assert("tiff"@[0] != "webp"@[0]);
    assert("tif"@[0] != "jxl"@[0]);
    assert("tif"@.len() != "avif"@.len());
    assert("tif"@.len() != "webp"@.len());
    assert("tif"@.len() != "tiff"@.len());
    assert("png"@[0] != "jxl"@[0]);
    assert("png"@.len() != "avif"@.len());
    assert("png"@.len() != "webp"@.len());
    assert("png"@.len() != "tiff"@.len());
    assert("png"@[0] != "tif"@[0]);
    assert("jpeg"@.len() != "jxl"@.len());
    assert("jpeg"@[0] != "avif"@[0]);
    assert("jpeg"@[0] != "webp"@[0]);
    assert("jpeg"@[0] != "tiff"@[0]);
    assert("jpeg"@.len() != "tif"@.len());
    assert("jpeg"@.len() != "png"@.len());
    assert("jpg"@[1] != "jxl"@[1]);
    assert("jpg"@.len() != "avif"@.len());
    assert("jpg"@.len() != "webp"@.len());
    assert("jpg"@.len() != "tiff"@.len());
    assert("jpg"@[0] != "tif"@[0]);
    assert("jpg"@[0] != "png"@[0]);
    assert("jpg"@.len() != "jpeg"@.len());
}

/// Recognises an already lowercase format name.
pub fn format_from_lowercase(f: &str) -> (r: ExportFormat)
    ensures
        r == format_of_lowercase(f@),
        f@ == "jxl"@ ==> r == ExportFormat::JpegXl,
        f@ == "avif"@ ==> r == ExportFormat::Avif,
        f@ == "webp"@ ==> r == ExportFormat::WebP,
        f@ == "tiff"@ ==> r == ExportFormat::Tiff,
        f@ == "tif"@ ==> r == ExportFormat::Tiff,
        f@ == "png"@ ==> r == ExportFormat::Png,
        f@ == "jpeg"@ ==> r == ExportFormat::Jpeg,
        f@ == "jpg"@ ==> r == ExportFormat::Jpeg,
        f@ != "jxl"@ && f@ != "avif"@ && f@ != "webp"@ && f@ != "tiff"@ && f@ != "tif"@ && f@ != "png"@ && f@ != "jpeg"@ && f@ != "jpg"@ ==> r == ExportFormat::Unsupported,
{
    proof {
        format_names_select_formats(f@);
    }
    if str_eq(f, "jxl") {
        ExportFormat::JpegXl
    } else if str_eq(f, "avif") {
        ExportFormat::Avif
    } else if str_eq(f, "webp") {
        ExportFormat::WebP
    } else if str_eq(f, "tiff") || str_eq(f, "tif") {
        ExportFormat::Tiff
    } else if str_eq(f, "png") {
        ExportFormat::Png
    } else if str_eq(f, "jpeg") || str_eq(f, "jpg") {
        ExportFormat::Jpeg
    } else {
        ExportFormat::Unsupported
    }
}

/// Recognises a format name in any letter case.
pub fn export_format(format: &str) -> (r: ExportFormat)
    ensures
        r == format_of_lowercase(unicode_lowercase(format@)),
        unicode_lowercase(format@) == "jxl"@ ==> r == ExportFormat::JpegXl,
        unicode_lowercase(format@) == "avif"@ ==> r == ExportFormat::Avif,
        unicode_lowercase(format@) == "webp"@ ==> r == ExportFormat::WebP,
        unicode_lowercase(format@) == "tiff"@ ==> r == ExportFormat::Tiff,
        unicode_lowercase(format@) == "tif"@ ==> r == ExportFormat::Tiff,
        unicode_lowercase(format@) == "png"@ ==> r == ExportFormat::Png,
        unicode_lowercase(format@) == "jpeg"@ ==> r == ExportFormat::Jpeg,
        unicode_lowercase(format@) == "jpg"@ ==> r == ExportFormat::Jpeg,
        unicode_lowercase(format@) != "jxl"@ && unicode_lowercase(format@) != "avif"@ && unicode_lowercase(format@) != "webp"@ && unicode_lowercase(format@) != "tiff"@ && unicode_lowercase(format@) != "tif"@ && unicode_lowercase(format@) != "png"@ && unicode_lowercase(format@) != "jpeg"@ && unicode_lowercase(format@) != "jpg"@ ==> r == ExportFormat::Unsupported,
        is_ascii_text(format@) ==> r == format_of_lowercase(ascii_lowercase(format@)),
{
    let lower = lowercase(format);
    proof {
        format_names_select_formats(lower@);
    }
    format_from_lowercase(lower.as_str())
}

/// Quarter turns clockwise applied for a rotation of `degrees` (rounded to
/// whole degrees): the angle is taken modulo 360, and 45..135 gives one
/// turn, 135..225 two, 225..315 three, anything else none.
pub open spec fn quarter_turns(degrees: int) -> u32 {
    let a = degrees % 360;
    if 45 <= a < 135 {
        1
    } else if 135 <= a < 225 {
        2
    } else if 225 <= a < 315 {
        3
    } else {
        0
    }
}

/// See `quarter_turns`.
pub fn rotation_quarter_turns(degrees: i32) -> (r: u32)
    ensures
        r == quarter_turns(degrees as int),
{
    let a: i32 = if degrees >= 0 {
        degrees % 360
    } else {
        let k: i32 = -(degrees + 1);
        proof {
            let q = k as int / 360;
            let m = k as int % 360;
            vstd::arithmetic::div_mod::lemma_fundamental_div_mod(k as int, 360);
            vstd::arithmetic::div_mod::lemma_fundamental_div_mod_converse(degrees as int, 360, -q - 1, 359 - m);
        }
        359 - k % 360
    };
    if 45 <= a && a < 135 {
        1
    } else if 135 <= a && a < 225 {
        2
    } else if 225 <= a && a < 315 {
        3
    } else {
        0
    }
}

/// How an export is resized.
#[derive(PartialEq, Eq, Structural, Clone, Copy, Debug)]
pub enum ResizePlan {
    /// Left as it is.
    Keep,
    /// Fitted inside a square of this side, keeping the aspect ratio.
    FitWithin(u32),
    /// Resized to exactly this width and height.
    Exact(u32, u32),
}

/// A maximum dimension, when set, fits an image that exceeds it; otherwise
/// a scale strictly between 0 and 100 percent sets the exact size.
pub fn resize_plan(width: u32, height: u32, max_dimension: Option<u32>, scale_percent: u32) -> (r: ResizePlan)
    requires
        max_dimension is None && 0 < scale_percent < 100 ==> width * scale_percent <= u32::MAX
            && height * scale_percent <= u32::MAX,
    ensures
        max_dimension matches Some(m) ==> r == (if width > m || height > m {
            ResizePlan::FitWithin(m)
        } else {
            ResizePlan::Keep
        }),
        max_dimension is None && 0 < scale_percent < 100 ==> r == ResizePlan::Exact(
            (width * scale_percent / 100) as u32,
            (height * scale_percent / 100) as u32,
        ),
        max_dimension is None && !(0 < scale_percent < 100) ==> r == ResizePlan::Keep,
{
    match max_dimension {
        Some(m) => if width > m || height > m {
            ResizePlan::FitWithin(m)
        } else {
            ResizePlan::Keep
        },
        None => if scale_percent < 100 && scale_percent > 0 {
            ResizePlan::Exact(width * scale_percent / 100, height * scale_percent / 100)
        } else {
            ResizePlan::Keep
        },
    }
}

/// The AVIF constant-quality level for a quality setting: 63 for quality 0,
/// down to 0 for quality 100.
pub fn avif_cq_level(quality: u32) -> (r: u32)
    requires
        quality <= 101,
    ensures
        r == 63 - quality * 63 / 100,
{
    63 - quality * 63 / 100
}

/// The JPEG encoder quality: the setting clamped to 1..=100.
pub fn jpeg_quality(quality: u32) -> (r: u8)
    ensures
        r == (if quality < 1 { 1 } else if quality > 100 { 100 } else { quality }),
{
    if quality < 1 {
        1
    } else if quality > 100 {
        100
    } else {
        quality as u8
    }
}

/// Name of the exported file: the source's stem, `_omastudio`, and the
/// lowercase format as extension.
pub fn export_file_name(stem: &str, format_lower: &str) -> (r: String)
    ensures
        r@ == stem@ + "_omastudio."@ + format_lower@,
{
    let mut out = String::from_str(stem);
    out.append("_omastudio.");
    out.append(format_lower);
    out
}

/// The part of a path after a leading `~/`, when it starts with one.
pub fn home_relative(path: &str) -> (r: Option<String>)
    ensures
        seq_starts_with(path@, "~/"@) ==> (r matches Some(rest) && rest@ == path@.subrange(2, path@.len() as int)),
        !seq_starts_with(path@, "~/"@) ==> r is None,
{
    let cs = chars_of(path);
    if !starts_with(cs.as_slice(), "~/") {
        return None;
    }
    let mut rest: Vec<char> = Vec::new();
    let mut i: usize = 2;
    proof {
        reveal_strlit("~/");
    }
    while i < cs.len()
        invariant
            2 <= i <= cs@.len(),
            rest@ == cs@.subrange(2, i as int),
        decreases cs.len() - i,
    {
        rest.push(cs[i]);
        i = i + 1;
    }
    Some(string_of(rest.as_slice()))
}

/// `s` has no character other than Unicode white space.
pub open spec fn blank(s: Seq<char>) -> bool {
    forall|i: int| 0 <= i < s.len() ==> unicode_white_space(#[trigger] s[i])
}

/// Whether a text is empty once white space is trimmed.
pub fn is_blank(s: &str) -> (r: bool)
    ensures
        r == blank(s@),
{
    let cs = chars_of(s);
    let mut i: usize = 0;
    while i < cs.len()
        invariant
            i <= cs@.len(),
            cs@ == s@,
            forall|j: int| 0 <= j < i ==> unicode_white_space(#[trigger] cs@[j]),
        decreases cs.len() - i,
    {
        if !is_white_space(cs[i]) {
            return false;
        }
        i = i + 1;
    }
    true
}

/// What the metadata tool does after an export.
pub struct ExifPlan {
    /// Copy every tag from the source file.
    pub copy_tags: bool,
    /// Remove GPS tags (only when tags are copied).
    pub strip_gps: bool,
    /// Artist and copyright to write.
    pub artist: Option<String>,
    /// ICC profile to embed, by name.
    pub icc_profile: Option<String>,
}

/// Plans the metadata step: it runs when tags are to be kept, a profile is
/// set, or an artist is given; a blank artist writes nothing.
pub fn exif_plan(options: &ExportOptions) -> (r: Option<ExifPlan>)
    ensures
        !(options.preserve_exif || options.icc_profile is Some || options.artist_copyright is Some)
            ==> r is None,
        (options.preserve_exif || options.icc_profile is Some || options.artist_copyright is Some)
            ==> (r matches Some(p) && p.copy_tags == options.preserve_exif && p.strip_gps == (
        options.preserve_exif && options.strip_gps) && (match (p.artist, options.artist_copyright) {
            (Some(a), Some(b)) => a@ == b@ && !blank(b@),
            (None, Some(b)) => blank(b@),
            (None, None) => true,
            (Some(_), None) => false,
        }) && (match (p.icc_profile, options.icc_profile) {
            (Some(a), Some(b)) => a@ == b@,
            (None, None) => true,
            _ => false,
        })),
{
    if !(options.preserve_exif || options.icc_profile.is_some() || options.artist_copyright.is_some()) {
        return None;
    }
    let artist = match &options.artist_copyright {
        Some(a) => if is_blank(a.as_str()) {
            None
        } else {
            Some(a.clone())
        },
        None => None,
    };
    let icc_profile = match &options.icc_profile {
        Some(p) => Some(p.clone()),
        None => None,
    };
    Some(
        ExifPlan {
            copy_tags: options.preserve_exif,
            strip_gps: options.preserve_exif && options.strip_gps,
            artist,
            icc_profile,
        },
    )
}

/// The Drive folder an export is uploaded to, when uploading is on.
pub fn upload_folder(options: &ExportOptions) -> (r: Option<String>)
    ensures
        !options.upload_to_gdrive ==> r is None,
        options.upload_to_gdrive ==> (r matches Some(f) && f@ == (match options.gdrive_folder {
            Some(g) => g@,
            None => "Photos/Exports"@,
        })),
{
    if !options.upload_to_gdrive {
        return None;
    }
    match &options.gdrive_folder {
        Some(g) => Some(g.clone()),
        None => Some(String::from_str("Photos/Exports")),
    }
}

} // verus!
