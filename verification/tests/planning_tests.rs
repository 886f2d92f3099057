use omastudio_engine::cli::{parse_command, scan_flags, CliCommand};
use omastudio_engine::export::{
    avif_cq_level, exif_plan, export_file_name, export_format, home_relative, is_blank,
    jpeg_quality, resize_plan, rotation_quarter_turns, upload_folder, ExportFormat, ExportOptions,
    ResizePlan,
};
use omastudio_engine::gdrive::{
    cached_download_usable, fetch_remote_target, is_gdrive_available, is_raw_name, remote_folder,
    select_remote_items, trim_matches_slash, upload_export_to_gdrive, RemoteEntry,
};
use omastudio_engine::icc::{
    custom_profile, icc_fallback_path, is_icc_ext, standard_icc_profiles, text_contains, SeenIds,
};
use omastudio_engine::recipe::default_crop_aspect;
use omastudio_engine::scan::{is_raw_ext, sort_scan_items, FolderScanItem};
use omastudio_engine::sorting::{sorts_before, stable_sort_by_key, SortKey};
use omastudio_engine::theme::{parse_theme_colors, parse_theme_line, split_lines};

fn args(v: &[&str]) -> Vec<String> {
    v.iter().map(|s| s.to_string()).collect()
}

fn chars(s: &str) -> Vec<char> {
    s.chars().collect()
}

#[test]
fn gdrive_availability_from_listremotes() {
    assert!(is_gdrive_available(0, b"dropbox:\ngdrive:\n"));
    assert!(!is_gdrive_available(1, b"gdrive:\n"));
    assert!(!is_gdrive_available(0, b"onedrive:\n"));
    assert!(!is_gdrive_available(0, b"gdrive"));
    assert!(is_gdrive_available(0, b"\xff\xfegdrive:"));
}

#[test]
fn gdrive_remote_names() {
    assert_eq!(trim_matches_slash("//Photos/2024//"), chars("Photos/2024"));
    assert_eq!(remote_folder("/Photos/", "gdrive:"), "gdrive:Photos");
    assert_eq!(remote_folder("///", "gdrive:"), "gdrive:");
    assert_eq!(remote_folder("", "gdrive:Photos/Exports"), "gdrive:Photos/Exports");
    assert_eq!(fetch_remote_target("//Photos/a.RAF"), "gdrive:Photos/a.RAF");
    assert!(cached_download_usable(true, 1025));
    assert!(!cached_download_usable(true, 1024));
    assert!(!cached_download_usable(false, 5000));
}

#[test]
fn raw_names_any_case() {
    assert!(is_raw_name("DSCF0001.RAF"));
    assert!(is_raw_name("img.cr3"));
    assert!(is_raw_name("x.Rw2"));
    assert!(!is_raw_name("notes.txt"));
    assert!(!is_raw_name("nef"));
    assert!(is_raw_ext("NEF"));
    assert!(is_raw_ext("dng"));
    assert!(!is_raw_ext("jpg"));
}

fn entry(name: &str, is_dir: bool, thumb: &str) -> RemoteEntry {
    RemoteEntry {
        path: name.to_string(),
        name: name.to_string(),
        size: if is_dir { -1 } else { 100 },
        is_dir,
        thumbnail: thumb.to_string(),
    }
}

#[test]
fn gdrive_listing_folders_first_then_name() {
    let entries = vec![
        entry("b.NEF", false, "/t/b.jpg"),
        entry("notes.txt", false, ""),
        entry("Zeta", true, "ignored"),
        entry("a.raf", false, ""),
        entry("alpha", true, ""),
        entry("B.nef", false, ""),
    ];
    let items = select_remote_items(&entries, "/Photos/");
    let names: Vec<&str> = items.iter().map(|i| i.name.as_str()).collect();
    assert_eq!(names, vec!["alpha", "Zeta", "a.raf", "b.NEF", "B.nef"]);
    assert_eq!(items[0].path, "Photos/alpha");
    assert!(items[0].is_dir && items[0].is_remote);
    assert_eq!(items[1].thumbnail, "");
    assert_eq!(items[3].thumbnail, "/t/b.jpg");
    assert_eq!(items[3].size, 100);
    let root = select_remote_items(&entries, "");
    assert_eq!(root[0].path, "alpha");
}

#[test]
fn gdrive_upload_plan() {
    assert_eq!(
        upload_export_to_gdrive(false, Some("a.jxl"), "x").err().unwrap(),
        "Export file does not exist locally"
    );
    assert_eq!(upload_export_to_gdrive(true, None, "x").err().unwrap(), "Invalid filename");
    let plan = upload_export_to_gdrive(true, Some("a.jxl"), "").ok().unwrap();
    assert_eq!(plan.target, "gdrive:Photos/Exports");
    assert_eq!(plan.finish(0).unwrap(), "gdrive:Photos/Exports/a.jxl");
    assert!(plan.finish(3).is_none());
    let plan = upload_export_to_gdrive(true, Some("a.jxl"), "/Shared/Out/").ok().unwrap();
    assert_eq!(plan.finish(0).unwrap(), "gdrive:Shared/Out/a.jxl");
}

#[test]
fn stable_sort_keeps_equal_keys_in_order() {
    let items = vec!["c1", "a1", "c2", "b", "a2"];
    let keys: Vec<SortKey> = vec![
        SortKey { rank: 1, text: chars("c") },
        SortKey { rank: 1, text: chars("a") },
        SortKey { rank: 1, text: chars("c") },
        SortKey { rank: 0, text: chars("z") },
        SortKey { rank: 1, text: chars("a") },
    ];
    assert_eq!(stable_sort_by_key(items, keys), vec!["b", "a1", "a2", "c1", "c2"]);
    let short = SortKey { rank: 0, text: chars("ab") };
    let long = SortKey { rank: 0, text: chars("abc") };
    assert!(sorts_before(&short, &long));
    assert!(!sorts_before(&long, &short));
    assert!(!sorts_before(&short, &short));
    let upper = SortKey { rank: 0, text: chars("Z") };
    let lower = SortKey { rank: 0, text: chars("a") };
    assert!(sorts_before(&upper, &lower));
}

#[test]
fn scan_items_sorted_by_name() {
    let item = |n: &str| FolderScanItem {
        name: n.to_string(),
        path: format!("/d/{}", n),
        thumbnail: String::new(),
        is_remote: false,
    };
    let sorted = sort_scan_items(vec![item("b.NEF"), item("A.nef"), item("a.nef")]);
    let names: Vec<&str> = sorted.iter().map(|i| i.name.as_str()).collect();
    assert_eq!(names, vec!["A.nef", "a.nef", "b.NEF"]);
}

#[test]
fn export_defaults_and_formats() {
    let o = ExportOptions::default();
    assert_eq!(o.format, "jxl");
    assert_eq!(o.quality, 90);
    assert_eq!(o.scale_percent, 100);
    assert_eq!(o.max_dimension, None);
    assert_eq!(o.icc_profile.as_deref(), Some("sRGB"));
    assert_eq!(o.output_dir, "~/Pictures/OmaStudio_Exports");
    assert_eq!(o.gdrive_folder.as_deref(), Some("Photos/Exports"));
    assert_eq!(export_format("JXL"), ExportFormat::JpegXl);
    assert_eq!(export_format("tif"), ExportFormat::Tiff);
    assert_eq!(export_format("Jpg"), ExportFormat::Jpeg);
    assert_eq!(export_format("webp"), ExportFormat::WebP);
    assert_eq!(export_format("avif"), ExportFormat::Avif);
    assert_eq!(export_format("png"), ExportFormat::Png);
    assert_eq!(export_format("bmp"), ExportFormat::Unsupported);
    assert_eq!(export_file_name("DSCF0001", "tiff"), "DSCF0001_omastudio.tiff");
    assert_eq!(default_crop_aspect(), "Original");
}

#[test]
fn export_rotation_and_resizing() {
    assert_eq!(rotation_quarter_turns(0), 0);
    assert_eq!(rotation_quarter_turns(90), 1);
    assert_eq!(rotation_quarter_turns(44), 0);
    assert_eq!(rotation_quarter_turns(135), 2);
    assert_eq!(rotation_quarter_turns(-90), 3);
    assert_eq!(rotation_quarter_turns(-1), 0);
    assert_eq!(rotation_quarter_turns(450), 1);
    assert_eq!(rotation_quarter_turns(-315), 1);
    assert_eq!(rotation_quarter_turns(i32::MIN), 3);
    assert_eq!(resize_plan(6000, 4000, Some(2048), 50), ResizePlan::FitWithin(2048));
    assert_eq!(resize_plan(1000, 800, Some(2048), 50), ResizePlan::Keep);
    assert_eq!(resize_plan(6000, 4000, None, 25), ResizePlan::Exact(1500, 1000));
    assert_eq!(resize_plan(6000, 4000, None, 100), ResizePlan::Keep);
    assert_eq!(resize_plan(6000, 4000, None, 0), ResizePlan::Keep);
    assert_eq!(avif_cq_level(90), 7);
    assert_eq!(avif_cq_level(0), 63);
    assert_eq!(avif_cq_level(100), 0);
    assert_eq!(jpeg_quality(0), 1);
    assert_eq!(jpeg_quality(250), 100);
    assert_eq!(jpeg_quality(85), 85);
}

#[test]
fn export_paths_and_metadata_plan() {
    assert_eq!(home_relative("~/Pictures/x").as_deref(), Some("Pictures/x"));
    assert_eq!(home_relative("/abs/dir"), None);
    assert_eq!(home_relative("~"), None);
    assert!(is_blank("  \t\n"));
    assert!(is_blank(""));
    assert!(!is_blank(" me "));
    let mut o = ExportOptions::default();
    o.artist_copyright = Some("   ".to_string());
    let p = exif_plan(&o).unwrap();
    assert!(p.copy_tags && p.strip_gps);
    assert!(p.artist.is_none());
    assert_eq!(p.icc_profile.as_deref(), Some("sRGB"));
    o.artist_copyright = Some(" Jane ".to_string());
    o.strip_gps = false;
    let p = exif_plan(&o).unwrap();
    assert_eq!(p.artist.as_deref(), Some(" Jane "));
    assert!(!p.strip_gps);
    o.preserve_exif = false;
    o.icc_profile = None;
    o.artist_copyright = None;
    assert!(exif_plan(&o).is_none());
    assert_eq!(upload_folder(&o), None);
    o.upload_to_gdrive = true;
    assert_eq!(upload_folder(&o).as_deref(), Some("Photos/Exports"));
    o.gdrive_folder = None;
    assert_eq!(upload_folder(&o).as_deref(), Some("Photos/Exports"));
}

#[test]
fn icc_catalogue_and_fallbacks() {
    let std_profiles = standard_icc_profiles();
    assert_eq!(std_profiles.len(), 6);
    assert_eq!(std_profiles[0].id, "sRGB");
    assert!(std_profiles[0].is_default && !std_profiles[0].is_wide_gamut);
    assert_eq!(std_profiles[2].name, "Adobe RGB (1998)");
    assert!(is_icc_ext("ICC"));
    assert!(is_icc_ext("icm"));
    assert!(!is_icc_ext("icx"));
    let c = custom_profile("My_Print_Profile", "/x/My_Print_Profile.icc");
    assert_eq!(c.name, "My Print Profile");
    assert_eq!(c.description, "Custom ICC Color Profile");
    assert!(c.is_wide_gamut && !c.is_default);
    assert_eq!(
        icc_fallback_path("sRGB IEC61966").as_deref(),
        Some("/usr/share/ghostscript/iccprofiles/srgb.icc")
    );
    assert_eq!(
        icc_fallback_path("AdobeRGB1998").as_deref(),
        Some("/usr/share/ghostscript/iccprofiles/a98.icc")
    );
    assert_eq!(
        icc_fallback_path("ProPhotoRGB").as_deref(),
        Some("/usr/share/ghostscript/iccprofiles/rommrgb.icc")
    );
    assert_eq!(icc_fallback_path("DisplayP3"), None);
    assert!(text_contains(&chars("abcdef"), "cde"));
    assert!(!text_contains(&chars("ab"), "abc"));
    let mut seen = SeenIds::new();
    assert!(seen.insert("sRGB"));
    assert!(!seen.insert("SRGB"));
    assert!(seen.insert("p3"));
}

#[test]
fn command_line_selection() {
    assert!(matches!(parse_command(&args(&["engine"])), CliCommand::Usage));
    match parse_command(&args(&["engine", "inspect"])) {
        CliCommand::Fail { message } => assert_eq!(message, "Missing RAW file path"),
        _ => panic!(),
    }
    match parse_command(&args(&["engine", "ai-social", "a.raf"])) {
        CliCommand::AiSocial { path, platform } => {
            assert_eq!(path, "a.raf");
            assert_eq!(platform, "ig");
        }
        _ => panic!(),
    }
    match parse_command(&args(&["engine", "gdrive", "list"])) {
        CliCommand::GdriveList { folder } => assert_eq!(folder, ""),
        _ => panic!(),
    }
    match parse_command(&args(&["engine", "gdrive", "fetch"])) {
        CliCommand::Fail { message } => assert_eq!(message, "Missing remote path"),
        _ => panic!(),
    }
    match parse_command(&args(&["engine", "gdrive", "move"])) {
        CliCommand::Fail { message } => assert_eq!(message, "Unknown gdrive subcommand"),
        _ => panic!(),
    }
    assert!(matches!(parse_command(&args(&["engine", "icc"])), CliCommand::IccList));
    match parse_command(&args(&["engine", "icc", "add"])) {
        CliCommand::Fail { message } => assert_eq!(message, "Unknown icc subcommand"),
        _ => panic!(),
    }
    match parse_command(&args(&["engine", "scan"])) {
        CliCommand::Scan { dir } => assert_eq!(dir, "."),
        _ => panic!(),
    }
    assert!(matches!(parse_command(&args(&["engine", "-v"])), CliCommand::Version));
    assert!(matches!(parse_command(&args(&["engine", "--status"])), CliCommand::Status));
    assert!(matches!(parse_command(&args(&["engine", "daemon"])), CliCommand::Daemon));
    match parse_command(&args(&["engine", "bake"])) {
        CliCommand::Unknown { message } => assert_eq!(message, "Unknown command: bake"),
        _ => panic!(),
    }
}

#[test]
fn command_line_flags() {
    let a = args(&["engine", "render", "a.raf", "--split", "0.5", "--bogus", "--out", "/tmp/x.png", "--recipe"]);
    let flags = args(&["--recipe", "--split", "--out"]);
    let got = scan_flags(&a, &flags, 3);
    assert_eq!(got.len(), 2);
    assert_eq!((got[0].flag, got[0].value.as_str()), (1, "0.5"));
    assert_eq!((got[1].flag, got[1].value.as_str()), (2, "/tmp/x.png"));
    let a = args(&["engine", "render", "a.raf", "--out", "--out", "x"]);
    let got = scan_flags(&a, &flags, 3);
    assert_eq!(got.len(), 1);
    assert_eq!(got[0].value, "--out");
}

#[test]
fn theme_colour_lines() {
    let line = |s: &str| parse_theme_line(&chars(s));
    assert_eq!(line("  Accent = \"#ff0000\"  "), Some(("accent".to_string(), "#ff0000".to_string())));
    assert_eq!(line("fg='#eeeeee'"), Some(("fg".to_string(), "#eeeeee".to_string())));
    assert_eq!(line("bg = #101010 # dark"), Some(("bg".to_string(), "#101010".to_string())));
    assert_eq!(line("x = \"open"), Some(("x".to_string(), "open".to_string())));
    assert_eq!(line("# comment = 1"), None);
    assert_eq!(line("   "), None);
    assert_eq!(line("no equals"), None);
    assert_eq!(line("empty ="), Some(("empty".to_string(), "".to_string())));
    assert_eq!(
        split_lines(&chars("a\r\nb\n\nc\r")),
        vec![chars("a"), chars("b"), chars(""), chars("c\r")]
    );
    assert!(split_lines(&chars("")).is_empty());
    assert_eq!(split_lines(&chars("x\n")), vec![chars("x")]);
    let colors = parse_theme_colors("# theme\naccent = \"#abcdef\"\n\nFG = 'white'\n");
    assert_eq!(
        colors,
        vec![
            ("accent".to_string(), "#abcdef".to_string()),
            ("fg".to_string(), "white".to_string())
        ]
    );
}

#[test]
fn white_space_matches_char_is_whitespace() {
    for u in 0u32..=0x10FFFF {
        if let Some(c) = char::from_u32(u) {
            assert_eq!(is_blank(&c.to_string()), c.is_whitespace(), "U+{:04X}", u);
        }
    }
}
