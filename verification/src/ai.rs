//! Integer decisions of the automatic enhancement and social-media
//! optimisation: percentile search over a luminance histogram and the
//! per-platform export specifications.

use vstd::prelude::*;
use crate::histogram::{bins_sum, HISTOGRAM_BINS};
use crate::text::{lowercase, str_eq, unicode_lowercase, is_ascii_text, ascii_lowercase};

verus! {

/// Cumulative count of luminance levels `0..=v`.
pub open spec fn cumulative(hist: Seq<u32>, v: int) -> int {
    bins_sum(hist, (v + 1) as nat)
}

/// Shadow, median and highlight levels found by `luma_percentiles`.
pub struct LumaPercentiles {
    pub p5: u8,
    pub p50: u8,
    pub p95: u8,
}

proof fn lemma_bins_sum_monotone(bins: Seq<u32>, k: nat, m: nat)
    requires
        k <= m,
    ensures
        bins_sum(bins, k) <= bins_sum(bins, m),
    decreases m,
{
    if k < m {
        lemma_bins_sum_monotone(bins, k, (m - 1) as nat);
    }
}

/// Walks the cumulative luminance histogram upwards. The highlight level is
/// the first level whose cumulative count reaches `p95_idx` (255 when none
/// does) and the walk stops there. Up to that level, the shadow level is the
/// first level other than 0 reaching `p5_idx` (0 when none does), and the
/// median the first level other than 128 reaching `p50_idx` (128 when none
/// does): a level equal to the starting value does not end the search.
pub fn luma_percentiles(hist: &[u32], p5_idx: u32, p50_idx: u32, p95_idx: u32) -> (r: LumaPercentiles)
    requires
        hist@.len() == HISTOGRAM_BINS,
        bins_sum(hist@, 256) <= u32::MAX,
    ensures
        (cumulative(hist@, r.p95 as int) >= p95_idx && forall|w: int|
            0 <= w < r.p95 ==> #[trigger] cumulative(hist@, w) < p95_idx) || (r.p95 == 255
            && forall|w: int| 0 <= w < 256 ==> #[trigger] cumulative(hist@, w) < p95_idx),
        r.p5 == 0 ==> forall|w: int| 1 <= w <= r.p95 ==> #[trigger] cumulative(hist@, w) < p5_idx,
        r.p5 != 0 ==> r.p5 <= r.p95 && cumulative(hist@, r.p5 as int) >= p5_idx && forall|w: int|
            1 <= w < r.p5 ==> #[trigger] cumulative(hist@, w) < p5_idx,
        r.p50 == 128 ==> forall|w: int|
            0 <= w <= r.p95 && w != 128 ==> #[trigger] cumulative(hist@, w) < p50_idx,
        r.p50 != 128 ==> r.p50 <= r.p95 && cumulative(hist@, r.p50 as int) >= p50_idx && forall|
            w: int,
        | 0 <= w < r.p50 && w != 128 ==> #[trigger] cumulative(hist@, w) < p50_idx,
{
    let mut accum: u32 = 0;
    let mut p5: u8 = 0;
    let mut p50: u8 = 128;
    let mut p95: u8 = 255;
    let mut val: usize = 0;
    while val < 256
        invariant_except_break
            hist@.len() == HISTOGRAM_BINS,
            bins_sum(hist@, 256) <= u32::MAX,
            val <= 256,
            accum == bins_sum(hist@, val as nat),
            p95 == 255,
            forall|w: int| 0 <= w < val ==> #[trigger] cumulative(hist@, w) < p95_idx,
            p5 == 0 ==> forall|w: int| 1 <= w < val ==> #[trigger] cumulative(hist@, w) < p5_idx,
            p5 != 0 ==> p5 < val && cumulative(hist@, p5 as int) >= p5_idx && forall|w: int|
                1 <= w < p5 ==> #[trigger] cumulative(hist@, w) < p5_idx,
            p50 == 128 ==> forall|w: int|
                0 <= w < val && w != 128 ==> #[trigger] cumulative(hist@, w) < p50_idx,
            p50 != 128 ==> p50 < val && cumulative(hist@, p50 as int) >= p50_idx && forall|w: int|
                0 <= w < p50 && w != 128 ==> #[trigger] cumulative(hist@, w) < p50_idx,
        ensures
            (cumulative(hist@, p95 as int) >= p95_idx && forall|w: int|
                0 <= w < p95 ==> #[trigger] cumulative(hist@, w) < p95_idx) || (p95 == 255
                && forall|w: int| 0 <= w < 256 ==> #[trigger] cumulative(hist@, w) < p95_idx),
            p5 == 0 ==> forall|w: int| 1 <= w <= p95 ==> #[trigger] cumulative(hist@, w) < p5_idx,
            p5 != 0 ==> p5 <= p95 && cumulative(hist@, p5 as int) >= p5_idx && forall|w: int|
                1 <= w < p5 ==> #[trigger] cumulative(hist@, w) < p5_idx,
            p50 == 128 ==> forall|w: int|
                0 <= w <= p95 && w != 128 ==> #[trigger] cumulative(hist@, w) < p50_idx,
            p50 != 128 ==> p50 <= p95 && cumulative(hist@, p50 as int) >= p50_idx && forall|
                w: int,
            | 0 <= w < p50 && w != 128 ==> #[trigger] cumulative(hist@, w) < p50_idx,
        decreases 256 - val,
    {
        proof {
            lemma_bins_sum_monotone(hist@, (val + 1) as nat, 256);
        }
        accum = accum + hist[val];
        assert(accum == cumulative(hist@, val as int));
        if accum >= p5_idx && p5 == 0 {
            p5 = val as u8;
        }
        if accum >= p50_idx && p50 == 128 {
            p50 = val as u8;
        }
        if accum >= p95_idx {
            p95 = val as u8;
            break;
        }
        val = val + 1;
    }
    LumaPercentiles { p5, p50, p95 }
}

/// The platforms the social-media optimiser knows.
#[derive(PartialEq, Eq, Structural, Clone, Copy, Debug)]
pub enum SocialPlatform {
    InstagramPortrait,
    InstagramSquare,
    Story,
    Twitter,
    Facebook,
    YouTube,
    Universal,
}

/// The platform named by an already lowercased platform string.
pub open spec fn platform_of_lowercase(p: Seq<char>) -> SocialPlatform {
    if p == "ig"@ || p == "instagram"@ || p == "ig_portrait"@ {
        SocialPlatform::InstagramPortrait
    } else if p == "ig_square"@ || p == "square"@ {
        SocialPlatform::InstagramSquare
    } else if p == "story"@ || p == "reel"@ || p == "tiktok"@ {
        SocialPlatform::Story
    } else if p == "x"@ || p == "twitter"@ {
        SocialPlatform::Twitter
    } else if p == "fb"@ || p == "facebook"@ {
        SocialPlatform::Facebook
    } else if p == "yt"@ || p == "youtube"@ {
        SocialPlatform::YouTube
    } else {
        SocialPlatform::Universal
    }
}

/// Each platform alias selects its platform and any other name the
/// universal preset: `ig`, `instagram`, `ig_portrait` Instagram portrait;
/// `ig_square`, `square` Instagram square; `story`, `reel`, `tiktok`
/// stories; `x`, `twitter` X; `fb`, `facebook` Facebook; `yt`, `youtube`
/// YouTube.
pub proof fn platform_aliases_select_platforms(p: Seq<char>)
    ensures
        p == "ig"@ ==> platform_of_lowercase(p) == SocialPlatform::InstagramPortrait,
        p == "instagram"@ ==> platform_of_lowercase(p) == SocialPlatform::InstagramPortrait,
        p == "ig_portrait"@ ==> platform_of_lowercase(p) == SocialPlatform::InstagramPortrait,
        p == "ig_square"@ ==> platform_of_lowercase(p) == SocialPlatform::InstagramSquare,
        p == "square"@ ==> platform_of_lowercase(p) == SocialPlatform::InstagramSquare,
        p == "story"@ ==> platform_of_lowercase(p) == SocialPlatform::Story,
        p == "reel"@ ==> platform_of_lowercase(p) == SocialPlatform::Story,
        p == "tiktok"@ ==> platform_of_lowercase(p) == SocialPlatform::Story,
        p == "x"@ ==> platform_of_lowercase(p) == SocialPlatform::Twitter,
        p == "twitter"@ ==> platform_of_lowercase(p) == SocialPlatform::Twitter,
        p == "fb"@ ==> platform_of_lowercase(p) == SocialPlatform::Facebook,
        p == "facebook"@ ==> platform_of_lowercase(p) == SocialPlatform::Facebook,
        p == "yt"@ ==> platform_of_lowercase(p) == SocialPlatform::YouTube,
        p == "youtube"@ ==> platform_of_lowercase(p) == SocialPlatform::YouTube,
        p != "ig"@ && p != "instagram"@ && p != "ig_portrait"@ && p != "ig_square"@ && p != "square"@ && p != "story"@ && p != "reel"@ && p != "tiktok"@ && p != "x"@ && p != "twitter"@ && p != "fb"@ && p != "facebook"@ && p != "yt"@ && p != "youtube"@ ==> platform_of_lowercase(p) == SocialPlatform::Universal,
{
    reveal_strlit("ig");
    reveal_strlit("instagram");
    reveal_strlit("ig_portrait");
    reveal_strlit("ig_square");
    reveal_strlit("square");
    reveal_strlit("story");
    reveal_strlit("reel");
    reveal_strlit("tiktok");
    reveal_strlit("x");
    reveal_strlit("twitter");
    reveal_strlit("fb");
    reveal_strlit("facebook");
    reveal_strlit("yt");
    reveal_strlit("youtube");
    assert("instagram"@.len() != "ig"@.len());
    assert("ig_portrait"@.len() != "ig"@.len());
    assert("ig_portrait"@.len() != "instagram"@.len());
    assert("ig_square"@.len() != "ig"@.len());
    assert("ig_square"@[1] != "instagram"@[1]);
    assert("ig_square"@.len() != "ig_portrait"@.len());
    assert("square"@.len() != "ig"@.len());
    assert("square"@.len() != "instagram"@.len());
    assert("square"@.len() != "ig_portrait"@.len());
    assert("square"@.len() != "ig_square"@.len());
    assert("story"@.len() != "ig"@.len());
    assert("story"@.len() != "instagram"@.len());
    assert("story"@.len() != "ig_portrait"@.len());
    assert("story"@.len() != "ig_square"@.len());
    assert("story"@.len() != "square"@.len());
    assert("reel"@.len() != "ig"@.len());
    assert("reel"@.len() != "instagram"@.len());
    assert("reel"@.len() != "ig_portrait"@.len());
    assert("reel"@.len() != "ig_square"@.len());
    assert("reel"@.len() != "square"@.len());
    assert("reel"@.len() != "story"@.len());
    assert("tiktok"@.len() != "ig"@.len());
    assert("tiktok"@.len() != "instagram"@.len());
    assert("tiktok"@.len() != "ig_portrait"@.len());
    assert("tiktok"@.len() != "ig_square"@.len());
    assert("tiktok"@[0] != "square"@[0]);
    assert("tiktok"@.len() != "story"@.len());
    assert("tiktok"@.len() != "reel"@.len());
    assert("x"@.len() != "ig"@.len());
    assert("x"@.len() != "instagram"@.len());
    assert("x"@.len() != "ig_portrait"@.len());
    assert("x"@.len() != "ig_square"@.len());
    assert("x"@.len() != "square"@.len());
    assert("x"@.len() != "story"@.len());
    assert("x"@.len() != "reel"@.len());
    assert("x"@.len() != "tiktok"@.len());
    assert("twitter"@.len() != "ig"@.len());
    assert("twitter"@.len() != "instagram"@.len());
    assert("twitter"@.len() != "ig_portrait"@.len());
    assert("twitter"@.len() != "ig_square"@.len());
    assert("twitter"@.len() != "square"@.len());
    assert("twitter"@.len() != "story"@.len());
    assert("twitter"@.len() != "reel"@.len());
    assert("twitter"@.len() != "tiktok"@.len());
    assert("twitter"@.len() != "x"@.len());
    assert("fb"@[0] != "ig"@[0]);
    assert("fb"@.len() != "instagram"@.len());
    assert("fb"@.len() != "ig_portrait"@.len());
    assert("fb"@.len() != "ig_square"@.len());
    assert("fb"@.len() != "square"@.len());
    assert("fb"@.len() != "story"@.len());
    assert("fb"@.len() != "reel"@.len());
    assert("fb"@.len() != "tiktok"@.len());
    assert("fb"@.len() != "x"@.len());
    assert("fb"@.len() != "twitter"@.len());
    assert("facebook"@.len() != "ig"@.len());
    assert("facebook"@.len() != "instagram"@.len());
    assert("facebook"@.len() != "ig_portrait"@.len());
    assert("facebook"@.len() != "ig_square"@.len());
    assert("facebook"@.len() != "square"@.len());
    assert("facebook"@.len() != "story"@.len());
    assert("facebook"@.len() != "reel"@.len());
    assert("facebook"@.len() != "tiktok"@.len());
    assert("facebook"@.len() != "x"@.len());
    assert("facebook"@.len() != "twitter"@.len());
    assert("facebook"@.len() != "fb"@.len());
    assert("yt"@[0] != "ig"@[0]);
    assert("yt"@.len() != "instagram"@.len());
    assert("yt"@.len() != "ig_portrait"@.len());
    assert("yt"@.len() != "ig_square"@.len());
    assert("yt"@.len() != "square"@.len());
    assert("yt"@.len() != "story"@.len());
    assert("yt"@.len() != "reel"@.len());
    assert("yt"@.len() != "tiktok"@.len());
    assert("yt"@.len() != "x"@.len());
    assert("yt"@.len() != "twitter"@.len());
    assert("yt"@[0] != "fb"@[0]);
    assert("yt"@.len() != "facebook"@.len());
    assert("youtube"@.len() != "ig"@.len());
    assert("youtube"@.len() != "instagram"@.len());
    assert("youtube"@.len() != "ig_portrait"@.len());
    assert("youtube"@.len() != "ig_square"@.len());
    assert("youtube"@.len() != "square"@.len());
    assert("youtube"@.len() != "story"@.len());
    assert("youtube"@.len() != "reel"@.len());
    assert("youtube"@.len() != "tiktok"@.len());
    assert("youtube"@.len() != "x"@.len());
    assert("youtube"@[0] != "twitter"@[0]);
    assert("youtube"@.len() != "fb"@.len());
    assert("youtube"@.len() != "facebook"@.len());
    assert("youtube"@.len() != "yt"@.len());
}

/// Recognises a platform name that is already lowercase.
pub fn platform_from_lowercase(p: &str) -> (r: SocialPlatform)
    ensures
        r == platform_of_lowercase(p@),
        p@ == "ig"@ ==> r == SocialPlatform::InstagramPortrait,
        p@ == "instagram"@ ==> r == SocialPlatform::InstagramPortrait,
        p@ == "ig_portrait"@ ==> r == SocialPlatform::InstagramPortrait,
        p@ == "ig_square"@ ==> r == SocialPlatform::InstagramSquare,
        p@ == "square"@ ==> r == SocialPlatform::InstagramSquare,
        p@ == "story"@ ==> r == SocialPlatform::Story,
        p@ == "reel"@ ==> r == SocialPlatform::Story,
        p@ == "tiktok"@ ==> r == SocialPlatform::Story,
        p@ == "x"@ ==> r == SocialPlatform::Twitter,
        p@ == "twitter"@ ==> r == SocialPlatform::Twitter,
        p@ == "fb"@ ==> r == SocialPlatform::Facebook,
        p@ == "facebook"@ ==> r == SocialPlatform::Facebook,
        p@ == "yt"@ ==> r == SocialPlatform::YouTube,
        p@ == "youtube"@ ==> r == SocialPlatform::YouTube,
        p@ != "ig"@ && p@ != "instagram"@ && p@ != "ig_portrait"@ && p@ != "ig_square"@ && p@ != "square"@ && p@ != "story"@ && p@ != "reel"@ && p@ != "tiktok"@ && p@ != "x"@ && p@ != "twitter"@ && p@ != "fb"@ && p@ != "facebook"@ && p@ != "yt"@ && p@ != "youtube"@ ==> r == SocialPlatform::Universal,
{
    proof {
        platform_aliases_select_platforms(p@);
    }
    if str_eq(p, "ig") || str_eq(p, "instagram") || str_eq(p, "ig_portrait") {
        SocialPlatform::InstagramPortrait
    } else if str_eq(p, "ig_square") || str_eq(p, "square") {
        SocialPlatform::InstagramSquare
    } else if str_eq(p, "story") || str_eq(p, "reel") || str_eq(p, "tiktok") {
        SocialPlatform::Story
    } else if str_eq(p, "x") || str_eq(p, "twitter") {
        SocialPlatform::Twitter
    } else if str_eq(p, "fb") || str_eq(p, "facebook") {
        SocialPlatform::Facebook
    } else if str_eq(p, "yt") || str_eq(p, "youtube") {
        SocialPlatform::YouTube
    } else {
        SocialPlatform::Universal
    }
}

/// Recognises a platform name in any letter case.
pub fn social_platform(platform: &str) -> (r: SocialPlatform)
    ensures
        r == platform_of_lowercase(unicode_lowercase(platform@)),
        unicode_lowercase(platform@) == "ig"@ ==> r == SocialPlatform::InstagramPortrait,
        unicode_lowercase(platform@) == "instagram"@ ==> r == SocialPlatform::InstagramPortrait,
        unicode_lowercase(platform@) == "ig_portrait"@ ==> r == SocialPlatform::InstagramPortrait,
        unicode_lowercase(platform@) == "ig_square"@ ==> r == SocialPlatform::InstagramSquare,
        unicode_lowercase(platform@) == "square"@ ==> r == SocialPlatform::InstagramSquare,
        unicode_lowercase(platform@) == "story"@ ==> r == SocialPlatform::Story,
        unicode_lowercase(platform@) == "reel"@ ==> r == SocialPlatform::Story,
        unicode_lowercase(platform@) == "tiktok"@ ==> r == SocialPlatform::Story,
        unicode_lowercase(platform@) == "x"@ ==> r == SocialPlatform::Twitter,
        unicode_lowercase(platform@) == "twitter"@ ==> r == SocialPlatform::Twitter,
        unicode_lowercase(platform@) == "fb"@ ==> r == SocialPlatform::Facebook,
        unicode_lowercase(platform@) == "facebook"@ ==> r == SocialPlatform::Facebook,
        unicode_lowercase(platform@) == "yt"@ ==> r == SocialPlatform::YouTube,
        unicode_lowercase(platform@) == "youtube"@ ==> r == SocialPlatform::YouTube,
        unicode_lowercase(platform@) != "ig"@ && unicode_lowercase(platform@) != "instagram"@ && unicode_lowercase(platform@) != "ig_portrait"@ && unicode_lowercase(platform@) != "ig_square"@ && unicode_lowercase(platform@) != "square"@ && unicode_lowercase(platform@) != "story"@ && unicode_lowercase(platform@) != "reel"@ && unicode_lowercase(platform@) != "tiktok"@ && unicode_lowercase(platform@) != "x"@ && unicode_lowercase(platform@) != "twitter"@ && unicode_lowercase(platform@) != "fb"@ && unicode_lowercase(platform@) != "facebook"@ && unicode_lowercase(platform@) != "yt"@ && unicode_lowercase(platform@) != "youtube"@ ==> r == SocialPlatform::Universal,
        is_ascii_text(platform@) ==> r == platform_of_lowercase(ascii_lowercase(platform@)),
{
    let lower = lowercase(platform);
    proof {
        platform_aliases_select_platforms(lower@);
    }
    platform_from_lowercase(lower.as_str())
}

/// Export specification for one platform.
pub struct SocialSpec {
    /// Target aspect ratio width : height as `aspect_num / aspect_den`.
    pub aspect_num: u32,
    pub aspect_den: u32,
    pub max_dimension: u32,
    pub quality: u32,
    pub target_resolution: String,
    pub platform_name: String,
    pub description: String,
    pub aspect_ratio_str: String,
    pub format: String,
    pub color_profile: String,
}

/// `s` is the specification with these numbers and texts, exported as sRGB JPEG.
pub open spec fn spec_is(
    s: SocialSpec,
    num: u32,
    den: u32,
    max_dim: u32,
    quality: u32,
    resolution: Seq<char>,
    name: Seq<char>,
    description: Seq<char>,
    ratio: Seq<char>,
) -> bool {
    &&& s.aspect_num == num && s.aspect_den == den
    &&& s.max_dimension == max_dim && s.quality == quality
    &&& s.target_resolution@ == resolution && s.platform_name@ == name
    &&& s.description@ == description && s.aspect_ratio_str@ == ratio
    &&& s.format@ == "jpeg"@ && s.color_profile@ == "sRGB"@
}

fn make_spec(
    num: u32,
    den: u32,
    max_dim: u32,
    quality: u32,
    resolution: &str,
    name: &str,
    description: &str,
    ratio: &str,
) -> (r: SocialSpec)
    ensures
        spec_is(r, num, den, max_dim, quality, resolution@, name@, description@, ratio@),
{
    SocialSpec {
        aspect_num: num,
        aspect_den: den,
        max_dimension: max_dim,
        quality,
        target_resolution: String::from_str(resolution),
        platform_name: String::from_str(name),
        description: String::from_str(description),
        aspect_ratio_str: String::from_str(ratio),
        format: String::from_str("jpeg"),
        color_profile: String::from_str("sRGB"),
    }
}

/// The export specification of each platform.
pub fn social_spec(p: SocialPlatform) -> (r: SocialSpec)
    ensures
        p == SocialPlatform::InstagramPortrait ==> spec_is(r, 4, 5, 1350, 85, "1080x1350"@,
            "Instagram Portrait (4:5)"@,
            "Optimized for maximum Instagram mobile feed visibility (4:5) with pre-sharpening to prevent compression blur."@,
            "4:5"@),
        p == SocialPlatform::InstagramSquare ==> spec_is(r, 1, 1, 1080, 85, "1080x1080"@,
            "Instagram Square (1:1)"@, "Classic 1:1 square crop with vibrant mobile color grading."@,
            "1:1"@),
        p == SocialPlatform::Story ==> spec_is(r, 9, 16, 1920, 88, "1080x1920"@,
            "Stories / Reels / TikTok (9:16)"@,
            "Full screen vertical mobile format with enhanced OLED saturation."@, "9:16"@),
        p == SocialPlatform::Twitter ==> spec_is(r, 16, 9, 1200, 90, "1200x675"@,
            "X / Twitter In-Stream (16:9)"@,
            "Timeline feed optimization with micro-contrast clarity to pop against dark mode."@,
            "16:9"@),
        p == SocialPlatform::Facebook ==> spec_is(r, 191, 100, 2048, 88, "1200x630"@,
            "Facebook HD Feed (1.91:1)"@,
            "High-resolution crisp rendering for Facebook desktop & mobile newsfeed."@, "1.91:1"@),
        p == SocialPlatform::YouTube ==> spec_is(r, 16, 9, 1280, 92, "1280x720"@,
            "YouTube Thumbnail (16:9)"@,
            "High CTR color punch (+15% vibrance, +12% clarity) for crisp thumbnail visibility."@,
            "16:9"@),
        p == SocialPlatform::Universal ==> spec_is(r, 4, 5, 1350, 85, "1080x1350"@,
            "Social Media Universal (4:5)"@, "Universal mobile portrait optimization."@, "4:5"@),
{
    match p {
        SocialPlatform::InstagramPortrait => make_spec(4, 5, 1350, 85, "1080x1350",
            "Instagram Portrait (4:5)",
            "Optimized for maximum Instagram mobile feed visibility (4:5) with pre-sharpening to prevent compression blur.",
            "4:5"),
        SocialPlatform::InstagramSquare => make_spec(1, 1, 1080, 85, "1080x1080",
            "Instagram Square (1:1)", "Classic 1:1 square crop with vibrant mobile color grading.",
            "1:1"),
        SocialPlatform::Story => make_spec(9, 16, 1920, 88, "1080x1920",
            "Stories / Reels / TikTok (9:16)",
            "Full screen vertical mobile format with enhanced OLED saturation.", "9:16"),
        SocialPlatform::Twitter => make_spec(16, 9, 1200, 90, "1200x675",
            "X / Twitter In-Stream (16:9)",
            "Timeline feed optimization with micro-contrast clarity to pop against dark mode.",
            "16:9"),
        SocialPlatform::Facebook => make_spec(191, 100, 2048, 88, "1200x630",
            "Facebook HD Feed (1.91:1)",
            "High-resolution crisp rendering for Facebook desktop & mobile newsfeed.", "1.91:1"),
        SocialPlatform::YouTube => make_spec(16, 9, 1280, 92, "1280x720",
            "YouTube Thumbnail (16:9)",
            "High CTR color punch (+15% vibrance, +12% clarity) for crisp thumbnail visibility.",
            "16:9"),
        SocialPlatform::Universal => make_spec(4, 5, 1350, 85, "1080x1350",
            "Social Media Universal (4:5)", "Universal mobile portrait optimization.", "4:5"),
    }
}

/// Contrast correction chosen from the dynamic range.
#[derive(PartialEq, Eq, Structural, Clone, Copy, Debug)]
pub enum ContrastChoice {
    /// Flat image (range below 140 levels): add contrast.
    Boost,
    /// Very wide range (above 230 levels): soften contrast.
    Soften,
    /// Leave contrast alone.
    Keep,
}

/// Tone corrections read off the luminance percentiles.
pub struct TonePlan {
    /// Levels by which the highlight percentile exceeds 240 (0 when it does not).
    pub highlight_excess: u8,
    /// Levels by which the shadow percentile falls short of 15 (0 when it does not).
    pub shadow_deficit: u8,
    pub contrast: ContrastChoice,
}

/// Reads the shadow and highlight percentiles: blown highlights above level
/// 240 and crushed shadows below level 15 are measured, and the range
/// between them picks the contrast correction.
pub fn tone_plan(p5: u8, p95: u8) -> (r: TonePlan)
    ensures
        r.highlight_excess == (if p95 > 240 { p95 - 240 } else { 0 }),
        r.shadow_deficit == (if p5 < 15 { 15 - p5 } else { 0 }),
        r.contrast == (if (p95 as int) - (p5 as int) < 140 {
            ContrastChoice::Boost
        } else if (p95 as int) - (p5 as int) > 230 {
            ContrastChoice::Soften
        } else {
            ContrastChoice::Keep
        }),
{
    let highlight_excess = if p95 > 240 { p95 - 240 } else { 0 };
    let shadow_deficit = if p5 < 15 { 15 - p5 } else { 0 };
    let contrast = if (p95 as i32) - (p5 as i32) < 140 {
        ContrastChoice::Boost
    } else if (p95 as i32) - (p5 as i32) > 230 {
        ContrastChoice::Soften
    } else {
        ContrastChoice::Keep
    };
    TonePlan { highlight_excess, shadow_deficit, contrast }
}

} // verus!
