use omastudio_engine::ai::{
    luma_percentiles, social_platform, social_spec, tone_plan, ContrastChoice, SocialPlatform,
};
use omastudio_engine::daemon::{DaemonAction, DaemonCommand, DaemonSession};
use omastudio_engine::histogram::{accumulate_histogram, display_peak, high_bytes};
use omastudio_engine::pipeline::{compose_split, compose_split_16_to_8};
use omastudio_engine::ppm::{decimal_bytes, ppm_image};
use omastudio_engine::raw::standard::{
    chrono_naive_to_epoch, half_size_dims, is_standard_ext, process_full, process_full_16,
    process_preview, process_preview_16, thumbnail_rgb8,
};
use omastudio_engine::raw::metadata::{standard_metadata, ExifNumber};
use omastudio_engine::raw::{nonnegative_dimension, shim_output_shape, BufferShape, ProcessedBuffer};

fn command(cmd: &str, path: Option<&str>, has_recipe: bool) -> DaemonCommand {
    DaemonCommand {
        cmd: cmd.to_string(),
        path: path.map(|p| p.to_string()),
        has_recipe,
    }
}

fn reply_of(a: &DaemonAction) -> (bool, String, String) {
    match a {
        DaemonAction::Reply { success, action, text } => (*success, action.clone(), text.clone()),
        _ => panic!("expected an immediate reply"),
    }
}

#[test]
fn daemon_answers_ping_and_stops_on_exit() {
    let session = DaemonSession::new();
    let (ok, action, data) = reply_of(&session.step(&command("ping", None, false)));
    assert!(ok);
    assert_eq!(action, "ping");
    assert_eq!(data, "pong");
    assert!(matches!(session.step(&command("exit", None, false)), DaemonAction::Exit));
}

#[test]
fn daemon_refuses_adjust_before_load() {
    let session = DaemonSession::new();
    let (ok, action, text) = reply_of(&session.step(&command("adjust", None, true)));
    assert!(!ok);
    assert_eq!(action, "adjust");
    assert_eq!(text, "No RAW image currently loaded in daemon cache");
}

#[test]
fn daemon_adjust_after_load_renders_loaded_image() {
    let mut session = DaemonSession::new();
    match session.step(&command("load", Some("/photos/a.raf"), false)) {
        DaemonAction::LoadImage { path } => assert_eq!(path, "/photos/a.raf"),
        _ => panic!("load must ask to decode the image"),
    }
    session.loaded("/photos/a.raf".to_string());
    match session.step(&command("adjust", None, true)) {
        DaemonAction::Render { path } => assert_eq!(path, "/photos/a.raf"),
        _ => panic!("adjust must render"),
    }
    match session.step(&command("save_recipe", None, true)) {
        DaemonAction::SaveSidecar { path } => assert_eq!(path, "/photos/a.raf"),
        _ => panic!("save_recipe must save"),
    }
}

#[test]
fn daemon_errors() {
    let session = DaemonSession::new();
    let (ok, action, text) = reply_of(&session.step(&command("load", None, false)));
    assert!(!ok);
    assert_eq!(action, "load");
    assert_eq!(text, "Missing path in load command");
    let (ok, _, text) = reply_of(&session.step(&command("save_recipe", None, true)));
    assert!(!ok);
    assert_eq!(text, "No image loaded or recipe missing");
    let (ok, action, text) = reply_of(&session.step(&command("frobnicate", None, false)));
    assert!(!ok);
    assert_eq!(action, "frobnicate");
    assert_eq!(text, "Unknown daemon command");
    let mut loaded = DaemonSession::new();
    loaded.loaded("x.nef".to_string());
    let (ok, _, text) = reply_of(&loaded.step(&command("save_recipe", None, false)));
    assert!(!ok);
    assert_eq!(text, "No image loaded or recipe missing");
}

#[test]
fn social_specs_per_platform() {
    let ig = social_spec(social_platform("ig"));
    assert_eq!(ig.aspect_ratio_str, "4:5");
    assert_eq!(ig.max_dimension, 1350);
    assert_eq!(ig.color_profile, "sRGB");

    let x = social_spec(social_platform("x"));
    assert_eq!(x.aspect_ratio_str, "16:9");
    assert_eq!(x.max_dimension, 1200);

    let story = social_spec(social_platform("story"));
    assert_eq!(story.aspect_ratio_str, "9:16");
    assert_eq!(story.max_dimension, 1920);
}

#[test]
fn social_platforms_are_case_insensitive_and_default_to_universal() {
    assert_eq!(social_platform("Instagram"), SocialPlatform::InstagramPortrait);
    assert_eq!(social_platform("TIKTOK"), SocialPlatform::Story);
    assert_eq!(social_platform("YouTube"), SocialPlatform::YouTube);
    assert_eq!(social_platform("square"), SocialPlatform::InstagramSquare);
    assert_eq!(social_platform("facebook"), SocialPlatform::Facebook);
    assert_eq!(social_platform("myspace"), SocialPlatform::Universal);
    let fb = social_spec(SocialPlatform::Facebook);
    assert_eq!((fb.aspect_num, fb.aspect_den), (191, 100));
    assert_eq!(fb.aspect_ratio_str, "1.91:1");
    assert_eq!(fb.quality, 88);
    assert_eq!(fb.target_resolution, "1200x630");
    let uni = social_spec(SocialPlatform::Universal);
    assert_eq!(uni.platform_name, "Social Media Universal (4:5)");
    assert_eq!(uni.format, "jpeg");
}

#[test]
fn percentiles_of_uniform_histogram() {
    let mut hist = vec![0u32; 256];
    for v in 0..256 {
        hist[v] = 10;
    }
    // 2560 pixels: p5 at 128, p50 at 1280, p95 at 2432
    let p = luma_percentiles(&hist, 128, 1280, 2432);
    assert_eq!(p.p5, 12);
    assert_eq!(p.p95, 243);
    assert_eq!(p.p50, 127);
    // a median falling on level 128 itself is passed over
    let p = luma_percentiles(&hist, 128, 1290, 2432);
    assert_eq!(p.p50, 129);
}

#[test]
fn percentiles_defaults_when_thresholds_never_reached() {
    let hist = vec![0u32; 256];
    let p = luma_percentiles(&hist, 1, 1, 1);
    assert_eq!((p.p5, p.p50, p.p95), (0, 128, 255));
    let mut dark = vec![0u32; 256];
    dark[0] = 100;
    let p = luma_percentiles(&dark, 5, 50, 95);
    assert_eq!((p.p5, p.p50, p.p95), (0, 0, 0));
}

#[test]
fn tone_plan_reads_clipping_and_range() {
    let t = tone_plan(3, 250);
    assert_eq!(t.highlight_excess, 10);
    assert_eq!(t.shadow_deficit, 12);
    assert_eq!(t.contrast, ContrastChoice::Soften);
    let t = tone_plan(100, 200);
    assert_eq!((t.highlight_excess, t.shadow_deficit), (0, 0));
    assert_eq!(t.contrast, ContrastChoice::Boost);
    let t = tone_plan(20, 220);
    assert_eq!(t.contrast, ContrastChoice::Keep);
}

#[test]
fn histogram_counts_every_pixel_once_per_channel() {
    // 3 pixels of 4 channels; alpha is ignored
    let rgb = vec![10u8, 20, 30, 99, 10, 200, 255, 99, 0, 20, 30, 99];
    let lumas = vec![1u8, 120, 254];
    let h = accumulate_histogram(&rgb, &lumas, 4);
    assert_eq!(h.total_pixels, 3);
    assert_eq!(h.red[10], 2);
    assert_eq!(h.red[0], 1);
    assert_eq!(h.green[20], 2);
    assert_eq!(h.green[200], 1);
    assert_eq!(h.blue[255], 1);
    assert_eq!(h.luma[120], 1);
    assert_eq!(h.red.iter().sum::<u32>(), 3);
    assert_eq!(h.luma.iter().sum::<u32>(), 3);
    assert_eq!(h.shadow_clips, 1);
    assert_eq!(h.highlight_clips, 1);
    assert_eq!(h.max_count, 2);
}

#[test]
fn histogram_peak_ignores_end_bins_and_is_at_least_one() {
    let mut red = vec![0u32; 256];
    red[0] = 500;
    red[255] = 700;
    let zero = vec![0u32; 256];
    assert_eq!(display_peak(&red, &zero, &zero, &zero), 1);
    red[254] = 9;
    assert_eq!(display_peak(&red, &zero, &zero, &zero), 9);
    let h = accumulate_histogram(&[], &[], 3);
    assert_eq!(h.total_pixels, 0);
    assert_eq!(h.max_count, 1);
}

#[test]
fn high_bytes_take_top_eight_bits() {
    assert_eq!(high_bytes(&[0, 255, 256, 65535, 0x1234]), vec![0, 0, 1, 255, 0x12]);
}

#[test]
fn split_view_left_original_divider_right_processed() {
    // 4 x 1 image, 3 channels, split at column 1
    let original = vec![1u8, 2, 3, 4, 5, 6, 7, 8, 9, 10, 11, 12];
    let processed = vec![101u8, 102, 103, 104, 105, 106, 107, 108, 109, 110, 111, 112];
    let out = compose_split(&original, &processed, 4, 1, 3, 1);
    assert_eq!(out, vec![1, 2, 3, 255, 255, 255, 255, 255, 255, 110, 111, 112]);
}

#[test]
fn split_view_alpha_and_extra_channels() {
    let original = vec![1u8, 2, 3, 4, 5, 6, 7, 8];
    let processed = vec![11u8, 12, 13, 14, 15, 16, 17, 18];
    let out = compose_split(&original, &processed, 2, 1, 4, 0);
    assert_eq!(out, vec![255, 255, 255, 255, 255, 255, 255, 255]);
    let out5 = compose_split(&[1u8, 2, 3, 4, 5], &[6u8, 7, 8, 9, 10], 1, 1, 5, 0);
    assert_eq!(out5, vec![255, 255, 255, 0, 0]);
}

#[test]
fn split_view_from_sixteen_bits() {
    let original = vec![0x1200u16, 0x3400, 0x5600, 0xff00, 0x0100, 0x0200];
    let processed = vec![7u8, 8, 9, 10, 11, 12];
    let out = compose_split_16_to_8(&original, &processed, 2, 1, 3, 1);
    assert_eq!(out, vec![0x12, 0x34, 0x56, 255, 255, 255]);
    let out = compose_split_16_to_8(&original, &processed, 2, 1, 3, 5);
    assert_eq!(out, vec![0x12, 0x34, 0x56, 0xff, 0x01, 0x02]);
}

#[test]
fn processed_buffer_sixteen_bit_roundtrip() {
    let samples = vec![0u16, 1, 255, 256, 0xabcd, 65535];
    let b = ProcessedBuffer::from_rgb16(&samples, 2, 1);
    assert_eq!(b.channels, 3);
    assert_eq!(b.bits_per_sample, 16);
    assert_eq!(b.data_size, 12);
    assert_eq!(b.as_slice(), &[0, 0, 1, 0, 255, 0, 0, 1, 0xcd, 0xab, 255, 255]);
    assert_eq!(b.to_vec_u16(), samples);
}

#[test]
fn processed_buffer_exposes_data_size_bytes() {
    let mut b = ProcessedBuffer::from_owned(vec![1, 2, 3, 4, 5], 1, 1, 3, 8);
    assert_eq!(b.to_vec(), vec![1, 2, 3, 4, 5]);
    assert_eq!(b.to_vec_u16(), vec![0x0201, 0x0403]);
    b.data_size = 3;
    assert_eq!(b.to_vec(), vec![1, 2, 3]);
    b.data_size = 0;
    assert!(b.as_slice().is_empty());
    assert!(b.to_vec_u16().is_empty());
    b.data_size = 99;
    assert_eq!(b.to_vec().len(), 5);
}

#[test]
fn shim_output_shape_rules() {
    let s = shim_output_shape(false, 6000, -4, 3, 1000, 16).unwrap();
    assert_eq!(
        s,
        BufferShape { width: 6000, height: 0, channels: 3, bits_per_sample: 16, data_size: 1000 }
    );
    let s = shim_output_shape(false, 10, 10, 3, 300, 12).unwrap();
    assert_eq!(s.bits_per_sample, 8);
    assert_eq!(shim_output_shape(true, 1, 1, 3, 3, 8).unwrap_err(), "Failed to process RAW image");
    assert!(shim_output_shape(false, 1, 1, 3, 0, 8).is_err());
    assert_eq!(nonnegative_dimension(-1), 0);
    assert_eq!(nonnegative_dimension(42), 42);
}

#[test]
fn standard_extensions_any_case() {
    assert!(is_standard_ext("jpg"));
    assert!(is_standard_ext("JPEG"));
    assert!(is_standard_ext("Tif"));
    assert!(is_standard_ext("tiff"));
    assert!(!is_standard_ext("png"));
    assert!(!is_standard_ext("raf"));
    assert!(!is_standard_ext(""));
}

#[test]
fn exif_timestamps() {
    assert_eq!(chrono_naive_to_epoch("1970:01:01 00:00:00"), Ok(0));
    assert_eq!(chrono_naive_to_epoch("2023:11:14 22:13:20"), Ok(1700000000));
    assert_eq!(chrono_naive_to_epoch("2000:03:01 00:00:00"), Ok(951868800));
    assert_eq!(chrono_naive_to_epoch("1969:12:31 23:59:59"), Ok(-1));
    assert_eq!(chrono_naive_to_epoch("2024:02:29 12:00:00 extra"), Ok(1709208000));
    // fields may carry a sign as i64 parsing allows
    assert_eq!(chrono_naive_to_epoch("+970:01:01 00:00:00").is_ok(), true);
    assert_eq!(chrono_naive_to_epoch("2023:11:14 22:13"), Err(()));
    assert_eq!(chrono_naive_to_epoch("2023:1x:14 22:13:20"), Err(()));
    assert_eq!(chrono_naive_to_epoch("2023:+:14 22:13:20 "), Err(()));
}

#[test]
fn half_size_bounds() {
    assert_eq!(half_size_dims(6000, 4000), (3000, 2000));
    assert_eq!(half_size_dims(1, 0), (1, 1));
    assert_eq!(half_size_dims(7, 3), (3, 1));
}

fn png_bytes(w: u32, h: u32) -> Vec<u8> {
    let mut img = image::RgbImage::new(w, h);
    for (x, y, p) in img.enumerate_pixels_mut() {
        *p = image::Rgb([(x * 10) as u8, (y * 20) as u8, 7]);
    }
    let mut out = std::io::Cursor::new(Vec::new());
    image::DynamicImage::ImageRgb8(img)
        .write_to(&mut out, image::ImageFormat::Png)
        .unwrap();
    out.into_inner()
}

#[test]
fn decoding_standard_images() {
    let bytes = png_bytes(4, 2);
    let b = process_preview(&bytes, "png", false).unwrap();
    assert_eq!((b.width, b.height, b.channels, b.bits_per_sample), (4, 2, 3, 8));
    assert_eq!(b.data_size, 24);
    assert_eq!(&b.as_slice()[0..6], &[0, 0, 7, 10, 0, 7]);
    let f = process_full(&bytes, "png", 3).unwrap();
    assert_eq!(f.to_vec(), b.to_vec());

    let b16 = process_preview_16(&bytes, "png", false).unwrap();
    assert_eq!((b16.width, b16.height, b16.bits_per_sample), (4, 2, 16));
    let s = b16.to_vec_u16();
    assert_eq!(s.len(), 24);
    // 8-bit samples are widened to fill the 16-bit range
    assert_eq!(s[3], 10 * 257);
    assert_eq!(process_full_16(&bytes, "png", 0).unwrap().to_vec_u16(), s);

    let half = process_preview(&bytes, "PNG", true).unwrap();
    assert_eq!((half.width, half.height), (2, 1));
    assert_eq!(half.data_size, 6);
    let b16_half = process_preview_16(&bytes, "png", true).unwrap();
    assert_eq!((b16_half.width, b16_half.height, b16_half.data_size), (2, 1, 12));
    // the format comes from the extension, as when a file is opened by path
    assert!(process_preview(&bytes, "jpg", false).is_err());
    assert!(process_preview(&bytes, "", false).is_err());
    assert!(process_full(&bytes, "txt", 0).is_err());

    assert!(process_preview(b"not an image", "png", false).is_err());
    assert!(process_preview_16(&[], "jpg", true).is_err());
}

#[test]
fn ppm_header_and_body() {
    assert_eq!(decimal_bytes(0), b"0".to_vec());
    assert_eq!(decimal_bytes(7), b"7".to_vec());
    assert_eq!(decimal_bytes(1920), b"1920".to_vec());
    assert_eq!(decimal_bytes(u32::MAX), b"4294967295".to_vec());
    let body = [1u8, 2, 3, 250, 251, 252];
    let mut expected = b"P6\n2 1\n255\n".to_vec();
    expected.extend_from_slice(&body);
    assert_eq!(ppm_image(2, 1, &body), expected);
    assert_eq!(ppm_image(0, 0, &[]), b"P6\n0 0\n255\n".to_vec());
}

#[test]
fn thumbnails_fill_512_box() {
    let small = png_bytes(4, 2);
    // small images are scaled up to fill the box, keeping their aspect ratio
    let (w, h, px) = thumbnail_rgb8(&small, "png").unwrap();
    assert_eq!((w, h), (512, 256));
    assert_eq!(px.len(), 3 * 512 * 256);
    let big = png_bytes(1024, 256);
    let (w, h, px) = thumbnail_rgb8(&big, "png").unwrap();
    assert_eq!((w, h), (512, 128));
    assert_eq!(px.len(), 3 * 512 * 128);
    assert!(thumbnail_rgb8(b"nope", "png").is_err());
}

/// Bytes of one IFD placed at `start`: its entries (sorted by tag), then
/// the values longer than four bytes.
fn ifd_bytes(entries: &[(u16, u16, u32, Vec<u8>)], start: u32) -> Vec<u8> {
    let data_start = start + 2 + 12 * entries.len() as u32 + 4;
    let mut head = Vec::new();
    let mut data = Vec::new();
    head.extend_from_slice(&(entries.len() as u16).to_le_bytes());
    for (tag, typ, count, value) in entries {
        head.extend_from_slice(&tag.to_le_bytes());
        head.extend_from_slice(&typ.to_le_bytes());
        head.extend_from_slice(&count.to_le_bytes());
        if value.len() <= 4 {
            let mut v = value.clone();
            v.resize(4, 0);
            head.extend_from_slice(&v);
        } else {
            head.extend_from_slice(&(data_start + data.len() as u32).to_le_bytes());
            data.extend_from_slice(value);
            if data.len() % 2 == 1 {
                data.push(0);
            }
        }
    }
    head.extend_from_slice(&0u32.to_le_bytes());
    head.extend_from_slice(&data);
    head
}

fn ascii(s: &str) -> (u16, u32, Vec<u8>) {
    let mut v = s.as_bytes().to_vec();
    v.push(0);
    (2, v.len() as u32, v)
}

fn short(v: u16) -> (u16, u32, Vec<u8>) {
    (3, 1, v.to_le_bytes().to_vec())
}

fn long(v: u32) -> (u16, u32, Vec<u8>) {
    (4, 1, v.to_le_bytes().to_vec())
}

fn rational(n: u32, d: u32) -> (u16, u32, Vec<u8>) {
    let mut v = n.to_le_bytes().to_vec();
    v.extend_from_slice(&d.to_le_bytes());
    (5, 1, v)
}

fn entry(tag: u16, t: (u16, u32, Vec<u8>)) -> (u16, u16, u32, Vec<u8>) {
    (tag, t.0, t.1, t.2)
}

/// A little-endian TIFF of one RGB pixel carrying camera tags.
fn tiff_with_exif(date_original: Option<&str>) -> Vec<u8> {
    let ifd0_start = 12u32;
    let ifd0 = |exif_at: u32| {
        ifd_bytes(
            &[
                entry(256, short(1)),
                entry(257, short(1)),
                entry(258, (3, 3, vec![8, 0, 8, 0, 8, 0])),
                entry(259, short(1)),
                entry(262, short(2)),
                entry(271, ascii("FUJIFILM\0\0")),
                entry(272, ascii("  X-T5 ")),
                entry(273, long(8)),
                entry(277, short(3)),
                entry(278, short(1)),
                entry(279, long(3)),
                entry(306, ascii("2023:11:14 22:13:20")),
                entry(34665, long(exif_at)),
            ],
            ifd0_start,
        )
    };
    let exif_start = ifd0_start + ifd0(0).len() as u32;
    let mut exif_entries = vec![
        entry(33434, rational(1, 250)),
        entry(33437, rational(14, 10)),
        entry(34855, short(800)),
    ];
    if let Some(d) = date_original {
        exif_entries.push(entry(36867, ascii(d)));
    }
    exif_entries.push(entry(37386, rational(33, 1)));
    exif_entries.push(entry(42036, ascii("   ")));
    let mut out = b"II*\0".to_vec();
    out.extend_from_slice(&ifd0_start.to_le_bytes());
    out.extend_from_slice(&[10, 20, 30, 0]);
    out.extend_from_slice(&ifd0(exif_start));
    out.extend_from_slice(&ifd_bytes(&exif_entries, exif_start));
    out
}

#[test]
fn metadata_reads_exif_fields() {
    let bytes = tiff_with_exif(Some("2001:09:09 01:46:40"));
    let m = standard_metadata(&bytes, "tif").unwrap();
    assert_eq!((m.width, m.height), (1, 1));
    assert_eq!(m.make.as_deref(), Some("FUJIFILM"));
    assert_eq!(m.model.as_deref(), Some("X-T5"));
    assert_eq!(m.lens, None);
    assert_eq!(m.iso, Some(ExifNumber::Short(800)));
    assert_eq!(m.shutter, Some(ExifNumber::Ratio(1, 250)));
    assert_eq!(m.aperture, Some(ExifNumber::Ratio(14, 10)));
    assert_eq!(m.focal_length, Some(ExifNumber::Ratio(33, 1)));
    assert_eq!(m.timestamp, Some(1_000_000_000));

    // without DateTimeOriginal the TIFF DateTime is used
    let fallback = standard_metadata(&tiff_with_exif(None), "tiff").unwrap();
    assert_eq!(fallback.timestamp, Some(1_700_000_000));
    // an unparsable date leaves no timestamp
    let bad = standard_metadata(&tiff_with_exif(Some("yesterday")), "tif").unwrap();
    assert_eq!(bad.timestamp, None);
    // the decoded pixel comes through the 8-bit decode as well
    let b = process_full(&bytes, "tif", 0).unwrap();
    assert_eq!(b.to_vec(), vec![10, 20, 30]);
}

fn plain_png(w: u32, h: u32) -> Vec<u8> {
    png_bytes(w, h)
}

#[test]
fn metadata_without_exif_keeps_size() {
    let bytes = plain_png(3, 2);
    let m = standard_metadata(&bytes, "png").unwrap();
    assert_eq!((m.width, m.height), (3, 2));
    assert_eq!(m.make, None);
    assert_eq!(m.model, None);
    assert_eq!(m.lens, None);
    assert!(m.iso.is_none() && m.shutter.is_none() && m.aperture.is_none() && m.focal_length.is_none());
    assert_eq!(m.timestamp, None);
    assert!(standard_metadata(&bytes, "tif").is_err());
    assert!(standard_metadata(b"junk", "jpg").is_err());
}

#[test]
fn histogram_of_buffer_shorter_than_a_pixel_is_empty() {
    let h = accumulate_histogram(&[7], &[], 2);
    assert_eq!(h.total_pixels, 0);
    assert!(h.red.iter().chain(h.luma.iter()).all(|&c| c == 0));
    assert_eq!(h.max_count, 1);
    let e = accumulate_histogram(&[], &[], 1);
    assert_eq!((e.total_pixels, e.shadow_clips, e.highlight_clips), (0, 0, 0));
}

#[test]
fn split_view_layout_64_by_64() {
    let (w, h, ch) = (64u32, 64u32, 3u32);
    let original: Vec<u8> = vec![10; (w * h * ch) as usize];
    let processed: Vec<u8> = vec![200; (w * h * ch) as usize];
    let split_x = 20usize;
    let out = compose_split(&original, &processed, w, h, ch, split_x);
    assert_eq!(out.len(), original.len());
    for y in 0..h as usize {
        for x in 0..w as usize {
            let expected = if x < split_x { 10 } else if x == split_x || x == split_x + 1 { 255 } else { 200 };
            for c in 0..3 {
                assert_eq!(out[(y * w as usize + x) * 3 + c], expected, "x={} y={} c={}", x, y, c);
            }
        }
    }
}

#[test]
fn sixteen_bit_decode_widens_eight_bit_samples() {
    let bytes = png_bytes(5, 3);
    for half in [false, true] {
        let narrow = process_preview(&bytes, "png", half).unwrap().to_vec();
        let wide = process_preview_16(&bytes, "png", half).unwrap().to_vec_u16();
        assert_eq!(wide.len(), narrow.len());
        for (w, n) in wide.iter().zip(narrow.iter()) {
            assert_eq!(*w, ((*n as u16) << 8) | *n as u16);
        }
    }
    let full8 = process_full(&bytes, "png", 0).unwrap().to_vec();
    let full16 = process_full_16(&bytes, "png", 0).unwrap().to_vec_u16();
    assert!(full16.iter().zip(full8.iter()).all(|(w, n)| *w == 257 * *n as u16));
}

#[test]
fn upper_case_extensions_are_recognised() {
    assert!(is_standard_ext("JPG"));
    assert!(is_standard_ext("Tiff"));
    assert!(!is_standard_ext("PNG"));
}
