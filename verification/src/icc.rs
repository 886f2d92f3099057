//! ICC colour profiles: the built-in catalogue of standard profiles, how
//! custom profile files become entries, and the fallbacks used to resolve a
//! profile name. Searching the directories is the caller's part.

use vstd::prelude::*;
use crate::text::{chars_of, lowercase, str_eq, string_of, unicode_lowercase, is_ascii_text, ascii_lowercase};

verus! {

/// One selectable ICC profile.
pub struct IccProfileInfo {
    pub id: String,
    pub name: String,
    pub description: String,
    pub path: String,
    pub is_wide_gamut: bool,
    pub is_default: bool,
}

/// A standard profile offered when its file can be resolved.
pub struct StandardProfile {
    pub id: String,
    pub name: String,
    pub description: String,
    pub is_wide_gamut: bool,
    pub is_default: bool,
}

/// `p` is the standard profile with these fields.
pub open spec fn standard_is(p: StandardProfile, id: Seq<char>, name: Seq<char>, description: Seq<char>, wide: bool, default: bool) -> bool {
    p.id@ == id && p.name@ == name && p.description@ == description && p.is_wide_gamut == wide
        && p.is_default == default
}

fn standard(id: &str, name: &str, description: &str, wide: bool, default: bool) -> (r: StandardProfile)
    ensures
        standard_is(r, id@, name@, description@, wide, default),
{
    StandardProfile {
        id: String::from_str(id),
        name: String::from_str(name),
        description: String::from_str(description),
        is_wide_gamut: wide,
        is_default: default,
    }
}

/// The standard profiles, in the order they are listed; sRGB is the default.
pub fn standard_icc_profiles() -> (r: Vec<StandardProfile>)
    ensures
        r@.len() == 6,
        standard_is(r@[0], "sRGB"@, "sRGB (IEC 61966-2.1)"@, "Standard gamut for web and general displays"@, false, true),
        standard_is(r@[1], "DisplayP3"@, "Display P3"@, "Apple and modern wide-gamut OLED displays (DCI-P3 D65)"@, true, false),
        standard_is(r@[2], "AdobeRGB1998"@, "Adobe RGB (1998)"@, "Wide-gamut standard for high-end photography & print"@, true, false),
        standard_is(r@[3], "ProPhotoRGB"@, "ProPhoto RGB (ROMM)"@, "Ultra-wide 16-bit master archival working space"@, true, false),
        standard_is(r@[4], "scRGB_Linear"@, "scRGB Linear"@, "High Dynamic Range (HDR) linear color space"@, true, false),
        standard_is(r@[5], "e-sRGB"@, "e-sRGB Extended"@, "Extended gamut sRGB with extended dynamic range"@, true, false),
{
    let mut v: Vec<StandardProfile> = Vec::new();
    v.push(standard("sRGB", "sRGB (IEC 61966-2.1)", "Standard gamut for web and general displays", false, true));
    v.push(standard("DisplayP3", "Display P3", "Apple and modern wide-gamut OLED displays (DCI-P3 D65)", true, false));
    v.push(standard("AdobeRGB1998", "Adobe RGB (1998)", "Wide-gamut standard for high-end photography & print", true, false));
    v.push(standard("ProPhotoRGB", "ProPhoto RGB (ROMM)", "Ultra-wide 16-bit master archival working space", true, false));
    v.push(standard("scRGB_Linear", "scRGB Linear", "High Dynamic Range (HDR) linear color space", true, false));
    v.push(standard("e-sRGB", "e-sRGB Extended", "Extended gamut sRGB with extended dynamic range", true, false));
    v
}

/// Lowercase extensions of profile files.
pub open spec fn icc_lowercase_ext(e: Seq<char>) -> bool {
    e == "icc"@ || e == "icm"@
}

/// Whether a file extension, in any letter case, is `icc` or `icm`.
pub fn is_icc_ext(ext: &str) -> (r: bool)
    ensures
        r == icc_lowercase_ext(unicode_lowercase(ext@)),
        is_ascii_text(ext@) ==> r == icc_lowercase_ext(ascii_lowercase(ext@)),
{
    let lower = lowercase(ext);
    str_eq(lower.as_str(), "icc") || str_eq(lower.as_str(), "icm")
}

/// `s` with every `_` replaced by a space.
pub open spec fn underscores_to_spaces(s: Seq<char>) -> Seq<char> {
    s.map_values(|c: char| if c == '_' { ' ' } else { c })
}

/// The entry of a custom profile file with stem `stem` found at `path`.
pub fn custom_profile(stem: &str, path: &str) -> (r: IccProfileInfo)
    ensures
        r.id@ == stem@,
        r.name@ == underscores_to_spaces(stem@),
        r.description@ == "Custom ICC Color Profile"@,
        r.path@ == path@,
        r.is_wide_gamut && !r.is_default,
{
    let cs = chars_of(stem);
    let mut named: Vec<char> = Vec::new();
    let mut i: usize = 0;
    while i < cs.len()
        invariant
            i <= cs@.len(),
            cs@ == stem@,
            named@ == underscores_to_spaces(cs@.subrange(0, i as int)),
        decreases cs.len() - i,
    {
        let c = cs[i];
        named.push(if c == '_' { ' ' } else { c });
        i = i + 1;
        proof {
            assert(named@ =~= underscores_to_spaces(cs@.subrange(0, i as int)));
        }
    }
    assert(cs@.subrange(0, cs@.len() as int) =~= cs@);
    IccProfileInfo {
        id: String::from_str(stem),
        name: string_of(named.as_slice()),
        description: String::from_str("Custom ICC Color Profile"),
        path: String::from_str(path),
        is_wide_gamut: true,
        is_default: false,
    }
}

/// `needle` occurs in `hay`.
pub open spec fn contains_text(hay: Seq<char>, needle: Seq<char>) -> bool {
    exists|i: int| 0 <= i && i + needle.len() <= hay.len() && #[trigger] hay.subrange(i, i + needle.len()) == needle
}

/// Whether `needle` occurs in `hay`.
pub fn text_contains(hay: &[char], needle: &str) -> (r: bool)
    ensures
        r == contains_text(hay@, needle@),
{
    let nd = chars_of(needle);
    if nd.len() > hay.len() {
        return false;
    }
    let last = hay.len() - nd.len();
    let mut i: usize = 0;
    while i <= last
        invariant
            last + nd@.len() == hay@.len(),
            hay@.len() <= usize::MAX,
            nd@ == needle@,
            i <= last + 1,
            forall|k: int| 0 <= k < i ==> #[trigger] hay@.subrange(k, k + nd@.len()) != needle@,
        decreases last + 1 - i,
    {
        let mut j: usize = 0;
        let mut same = true;
        while j < nd.len()
            invariant
                last + nd@.len() == hay@.len(),
                hay@.len() <= usize::MAX,
                i <= last,
                j <= nd@.len(),
                same == forall|m: int| 0 <= m < j ==> hay@[i + m] == nd@[m],
            decreases nd.len() - j,
        {
            if hay[i + j] != nd[j] {
                same = false;
            }
            j = j + 1;
        }
        if same {
            assert(hay@.subrange(i as int, i + nd@.len()) =~= needle@);
            return true;
        }
        proof {
            let m = choose|m: int| 0 <= m < nd@.len() && hay@[i + m] != nd@[m];
            assert(hay@.subrange(i as int, i + nd@.len())[m] == hay@[i + m]);
        }
        i = i + 1;
    }
    false
}

/// The system profile tried last for a profile name that no directory
/// holds, from its lowercase form: sRGB names, then Adobe RGB, then ProPhoto.
pub open spec fn fallback_for(lower: Seq<char>) -> Option<Seq<char>> {
    if contains_text(lower, "srgb"@) {
        Some("/usr/share/ghostscript/iccprofiles/srgb.icc"@)
    } else if contains_text(lower, "adobe"@) || contains_text(lower, "a98"@) {
        Some("/usr/share/ghostscript/iccprofiles/a98.icc"@)
    } else if contains_text(lower, "prophoto"@) || contains_text(lower, "romm"@) {
        Some("/usr/share/ghostscript/iccprofiles/rommrgb.icc"@)
    } else {
        None
    }
}

/// See `fallback_for`; the name may be in any letter case.
pub fn icc_fallback_path(name_or_id: &str) -> (r: Option<String>)
    ensures
        is_ascii_text(name_or_id@) ==> match fallback_for(ascii_lowercase(name_or_id@)) {
            Some(p) => r matches Some(s) && s@ == p,
            None => r is None,
        },
        match fallback_for(unicode_lowercase(name_or_id@)) {
            Some(p) => r matches Some(s) && s@ == p,
            None => r is None,
        },
{
    let lower = lowercase(name_or_id);
    let cs = chars_of(lower.as_str());
    if text_contains(cs.as_slice(), "srgb") {
        Some(String::from_str("/usr/share/ghostscript/iccprofiles/srgb.icc"))
    } else if text_contains(cs.as_slice(), "adobe") || text_contains(cs.as_slice(), "a98") {
        Some(String::from_str("/usr/share/ghostscript/iccprofiles/a98.icc"))
    } else if text_contains(cs.as_slice(), "prophoto") || text_contains(cs.as_slice(), "romm") {
        Some(String::from_str("/usr/share/ghostscript/iccprofiles/rommrgb.icc"))
    } else {
        None
    }
}

/// Keeps track of the profile ids already listed, compared in lowercase.
pub struct SeenIds {
    ids: Vec<Vec<char>>,
}

impl View for SeenIds {
    type V = Seq<Seq<char>>;

    closed spec fn view(&self) -> Seq<Seq<char>> {
        self.ids@.map_values(|v: Vec<char>| v@)
    }
}

impl SeenIds {
    /// No id seen.
    pub fn new() -> (r: Self)
        ensures
            r@ == Seq::<Seq<char>>::empty(),
    {
        let r = SeenIds { ids: Vec::new() };
        assert(r@ =~= Seq::<Seq<char>>::empty());
        r
    }

    /// Records `id` unless its lowercase form was already seen; answers
    /// whether it was new.
    pub fn insert(&mut self, id: &str) -> (r: bool)
        ensures
            r == !old(self)@.contains(unicode_lowercase(id@)),
            is_ascii_text(id@) ==> r == !old(self)@.contains(ascii_lowercase(id@)),
            is_ascii_text(id@) && r ==> final(self)@ == old(self)@.push(ascii_lowercase(id@)),
            r ==> final(self)@ == old(self)@.push(unicode_lowercase(id@)),
            !r ==> final(self)@ == old(self)@,
    {
        let lower = lowercase(id);
        let cs = chars_of(lower.as_str());
        let mut i: usize = 0;
        while i < self.ids.len()
            invariant
                i <= self.ids@.len(),
                cs@ == unicode_lowercase(id@),
                is_ascii_text(id@) ==> cs@ == ascii_lowercase(id@),
                forall|j: int| 0 <= j < i ==> self@[j] != cs@,
            decreases self.ids.len() - i,
        {
            if crate::text::chars_eq(self.ids[i].as_slice(), cs.as_slice()) {
                assert(self@[i as int] == cs@);
                return false;
            }
            i = i + 1;
        }
        proof {
            assert(!self@.contains(cs@));
        }
        self.ids.push(cs);
        proof {
            assert(self@ =~= old(self)@.push(unicode_lowercase(id@)));
        }
        true
    }
}

} // verus!
