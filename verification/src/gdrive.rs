//! Google Drive access through `rclone`: the remote names handed to the
//! tool, the reading of its replies, and the selection and ordering of a
//! folder listing. Running `rclone` and touching the local cache is the
//! caller's part.

use vstd::prelude::*;
use crate::text::{chars_of, ends_with, lowercase, push_char, seq_ends_with, string_of, unicode_lowercase, is_ascii_text, ascii_lowercase};
use crate::sorting::{SortKey, key_view, key_views, stable_arrangement, stable_sort_by_key};

verus! {

/// The bytes of `"gdrive:"`, the remote name `rclone listremotes` prints.
pub open spec fn gdrive_marker() -> Seq<u8> {
    seq![103u8, 100u8, 114u8, 105u8, 118u8, 101u8, 58u8]
}

/// `hay` contains `needle` as a contiguous run.
pub open spec fn contains_run(hay: Seq<u8>, needle: Seq<u8>) -> bool {
    exists|i: int| 0 <= i && i + needle.len() <= hay.len() && #[trigger] hay.subrange(i, i + needle.len()) == needle
}

/// Reads the reply of `rclone listremotes`: Google Drive is available when
/// the command exited with 0 and its output names the `gdrive:` remote.
/// (The output is searched as raw bytes; replacing invalid UTF-8 first, as a
/// lossy decoding would, cannot create or destroy an ASCII match.)
pub fn is_gdrive_available(exit_code: i32, stdout: &[u8]) -> (r: bool)
    ensures
        r == (exit_code == 0 && contains_run(stdout@, gdrive_marker())),
{
    if exit_code != 0 {
        return false;
    }
    let marker: [u8; 7] = [103u8, 100u8, 114u8, 105u8, 118u8, 101u8, 58u8];
    assert(marker@ =~= gdrive_marker());
    if stdout.len() < 7 {
        return false;
    }
    let last = stdout.len() - 7;
    let mut i: usize = 0;
    while i <= last
        invariant
            last + 7 == stdout@.len(),
            exit_code == 0,
            stdout@.len() <= usize::MAX,
            marker@ == gdrive_marker(),
            i <= last + 1,
            forall|k: int| 0 <= k < i ==> #[trigger] stdout@.subrange(k, k + 7) != gdrive_marker(),
        decreases last + 1 - i,
    {
        let mut j: usize = 0;
        let mut same = true;
        while j < 7
            invariant
                last + 7 == stdout@.len(),
                stdout@.len() <= usize::MAX,
                i <= last,
                j <= 7,
                marker@ == gdrive_marker(),
                same == forall|m: int| 0 <= m < j ==> stdout@[i + m] == marker@[m],
            decreases 7 - j,
        {
            if stdout[i + j] != marker[j] {
                same = false;
            }
            j = j + 1;
        }
        if same {
            assert(stdout@.subrange(i as int, i + 7) =~= gdrive_marker());
            assert(gdrive_marker().len() == 7);
            assert(contains_run(stdout@, gdrive_marker()));
            return true;
        }
        proof {
            assert(stdout@.subrange(i as int, i + 7) != gdrive_marker()) by {
                let m = choose|m: int| 0 <= m < 7 && stdout@[i + m] != marker@[m];
                assert(stdout@.subrange(i as int, i + 7)[m] == stdout@[i + m]);
            }
        }
        i = i + 1;
    }
    false
}

/// `s` without its leading `/` characters.
pub open spec fn strip_leading_slashes(s: Seq<char>) -> Seq<char>
    decreases s.len(),
{
    if s.len() > 0 && s[0] == '/' {
        strip_leading_slashes(s.drop_first())
    } else {
        s
    }
}

/// `s` without its trailing `/` characters.
pub open spec fn strip_trailing_slashes(s: Seq<char>) -> Seq<char>
    decreases s.len(),
{
    if s.len() > 0 && s.last() == '/' {
        strip_trailing_slashes(s.drop_last())
    } else {
        s
    }
}

/// `s` without `/` at either end, as `str::trim_matches('/')` gives it.
pub open spec fn trim_slashes(s: Seq<char>) -> Seq<char> {
    strip_trailing_slashes(strip_leading_slashes(s))
}

/// The characters of `s` with the leading `/` removed.
pub fn trim_start_slashes(s: &[char]) -> (r: Vec<char>)
    ensures
        r@ == strip_leading_slashes(s@),
{
    let mut i: usize = 0;
    assert(s@.subrange(0, s@.len() as int) =~= s@);
    while i < s.len() && s[i] == '/'
        invariant
            i <= s@.len(),
            strip_leading_slashes(s@) == strip_leading_slashes(s@.subrange(i as int, s@.len() as int)),
        decreases s.len() - i,
    {
        proof {
            let t = s@.subrange(i as int, s@.len() as int);
            assert(t.drop_first() =~= s@.subrange(i + 1, s@.len() as int));
        }
        i = i + 1;
    }
    let mut out: Vec<char> = Vec::new();
    let mut k: usize = i;
    while k < s.len()
        invariant
            i <= k <= s@.len(),
            out@ == s@.subrange(i as int, k as int),
        decreases s.len() - k,
    {
        out.push(s[k]);
        k = k + 1;
    }
    out
}

/// The characters of `s` with the trailing `/` removed.
pub fn trim_end_slashes(s: &[char]) -> (r: Vec<char>)
    ensures
        r@ == strip_trailing_slashes(s@),
{
    let mut n: usize = s.len();
    assert(s@.subrange(0, s@.len() as int) =~= s@);
    while n > 0 && s[n - 1] == '/'
        invariant
            n <= s@.len(),
            strip_trailing_slashes(s@) == strip_trailing_slashes(s@.subrange(0, n as int)),
        decreases n,
    {
        proof {
            let t = s@.subrange(0, n as int);
            assert(t.drop_last() =~= s@.subrange(0, n - 1));
        }
        n = n - 1;
    }
    let mut out: Vec<char> = Vec::new();
    let mut k: usize = 0;
    while k < n
        invariant
            k <= n <= s@.len(),
            out@ == s@.subrange(0, k as int),
        decreases n - k,
    {
        out.push(s[k]);
        k = k + 1;
    }
    out
}

/// `str::trim_matches('/')`.
pub fn trim_matches_slash(s: &str) -> (r: Vec<char>)
    ensures
        r@ == trim_slashes(s@),
{
    let cs = chars_of(s);
    let lead = trim_start_slashes(cs.as_slice());
    trim_end_slashes(lead.as_slice())
}

/// The rclone remote for a folder: `gdrive:` followed by the folder without
/// surrounding slashes, or `default` when nothing is left of it.
pub open spec fn remote_for(folder: Seq<char>, default: Seq<char>) -> Seq<char> {
    if trim_slashes(folder).len() == 0 {
        default
    } else {
        "gdrive:"@ + trim_slashes(folder)
    }
}

/// Builds the rclone remote of a folder; see `remote_for`.
pub fn remote_folder(folder: &str, default: &str) -> (r: String)
    ensures
        r@ == remote_for(folder@, default@),
{
    let clean = trim_matches_slash(folder);
    if clean.len() == 0 {
        return String::from_str(default);
    }
    let mut out = String::from_str("gdrive:");
    let mut i: usize = 0;
    while i < clean.len()
        invariant
            i <= clean@.len(),
            out@ == "gdrive:"@ + clean@.subrange(0, i as int),
        decreases clean.len() - i,
    {
        push_char(&mut out, clean[i]);
        proof {
            assert(clean@.subrange(0, i + 1) =~= clean@.subrange(0, i as int).push(clean@[i as int]));
        }
        i = i + 1;
    }
    assert(clean@.subrange(0, clean@.len() as int) =~= clean@);
    out
}

/// Lowercase names of the RAW formats a listing keeps.
pub open spec fn raw_lowercase_name(lower: Seq<char>) -> bool {
    ||| seq_ends_with(lower, ".nef"@)
    ||| seq_ends_with(lower, ".nrw"@)
    ||| seq_ends_with(lower, ".raf"@)
    ||| seq_ends_with(lower, ".cr2"@)
    ||| seq_ends_with(lower, ".cr3"@)
    ||| seq_ends_with(lower, ".arw"@)
    ||| seq_ends_with(lower, ".dng"@)
    ||| seq_ends_with(lower, ".rwl"@)
    ||| seq_ends_with(lower, ".orf"@)
    ||| seq_ends_with(lower, ".rw2"@)
}

/// Whether an already lowercase file name ends with a RAW extension.
pub fn is_raw_lowercase_name(lower: &[char]) -> (r: bool)
    ensures
        r == raw_lowercase_name(lower@),
        r == (seq_ends_with(lower@, ".nef"@) || seq_ends_with(lower@, ".nrw"@) || seq_ends_with(lower@, ".raf"@) || seq_ends_with(lower@, ".cr2"@) || seq_ends_with(lower@, ".cr3"@) || seq_ends_with(lower@, ".arw"@) || seq_ends_with(lower@, ".dng"@) || seq_ends_with(lower@, ".rwl"@) || seq_ends_with(lower@, ".orf"@) || seq_ends_with(lower@, ".rw2"@)),
{
    ends_with(lower, ".nef") || ends_with(lower, ".nrw") || ends_with(lower, ".raf") || ends_with(
        lower,
        ".cr2",
    ) || ends_with(lower, ".cr3") || ends_with(lower, ".arw") || ends_with(lower, ".dng")
        || ends_with(lower, ".rwl") || ends_with(lower, ".orf") || ends_with(lower, ".rw2")
}

/// Whether a file name, in any letter case, ends with a RAW extension.
pub fn is_raw_name(name: &str) -> (r: bool)
    ensures
        r == raw_lowercase_name(unicode_lowercase(name@)),
        is_ascii_text(name@) ==> r == raw_lowercase_name(ascii_lowercase(name@)),
{
    let lower = lowercase(name);
    let cs = chars_of(lower.as_str());
    is_raw_lowercase_name(cs.as_slice())
}

/// One entry of `rclone lsjson`, with the local thumbnail the caller found
/// for it (empty when there is none, and always for folders).
pub struct RemoteEntry {
    pub path: String,
    pub name: String,
    pub size: i64,
    pub is_dir: bool,
    pub thumbnail: String,
}

/// One item of a Google Drive folder listing.
pub struct RemoteItem {
    pub name: String,
    pub path: String,
    pub is_dir: bool,
    pub is_remote: bool,
    pub thumbnail: String,
    pub size: i64,
}

/// A listing keeps folders and RAW files.
pub open spec fn keeps_entry(e: RemoteEntry) -> bool {
    e.is_dir || raw_lowercase_name(unicode_lowercase(e.name@))
}

/// The entries a listing keeps, in their original order.
pub open spec fn kept_entries(es: Seq<RemoteEntry>) -> Seq<RemoteEntry>
    decreases es.len(),
{
    if es.len() == 0 {
        Seq::empty()
    } else {
        let rest = kept_entries(es.drop_last());
        if keeps_entry(es.last()) {
            rest.push(es.last())
        } else {
            rest
        }
    }
}

/// Every file whose lowercase name ends with `.nef`, `.nrw`, `.raf`,
/// `.cr2`, `.cr3`, `.arw`, `.dng`, `.rwl`, `.orf` or `.rw2` is kept in a
/// listing, and so is every folder; any other file is left out.
pub proof fn raw_files_and_folders_are_kept(e: RemoteEntry)
    ensures
        e.is_dir ==> keeps_entry(e),
        !e.is_dir ==> (keeps_entry(e) <==> (seq_ends_with(unicode_lowercase(e.name@), ".nef"@) || seq_ends_with(unicode_lowercase(e.name@), ".nrw"@) || seq_ends_with(unicode_lowercase(e.name@), ".raf"@) || seq_ends_with(unicode_lowercase(e.name@), ".cr2"@) || seq_ends_with(unicode_lowercase(e.name@), ".cr3"@) || seq_ends_with(unicode_lowercase(e.name@), ".arw"@) || seq_ends_with(unicode_lowercase(e.name@), ".dng"@) || seq_ends_with(unicode_lowercase(e.name@), ".rwl"@) || seq_ends_with(unicode_lowercase(e.name@), ".orf"@) || seq_ends_with(unicode_lowercase(e.name@), ".rw2"@))),
{
}

/// The entries a listing keeps are those of the input that it accepts, in
/// input order: each accepted entry is there, and only accepted entries are.
pub proof fn kept_entries_are_the_accepted_ones(es: Seq<RemoteEntry>)
    ensures
        forall|i: int| 0 <= i < es.len() && keeps_entry(#[trigger] es[i]) ==> kept_entries(es).contains(es[i]),
        forall|k: int| 0 <= k < kept_entries(es).len() ==> keeps_entry(#[trigger] kept_entries(es)[k])
            && es.contains(kept_entries(es)[k]),
    decreases es.len(),
{
    if es.len() > 0 {
        let rest = es.drop_last();
        kept_entries_are_the_accepted_ones(rest);
        assert forall|i: int| 0 <= i < es.len() && keeps_entry(#[trigger] es[i]) implies kept_entries(es).contains(es[i]) by {
            if i < es.len() - 1 {
                assert(rest[i] == es[i]);
                let j = choose|j: int| 0 <= j < kept_entries(rest).len() && kept_entries(rest)[j] == es[i];
                assert(kept_entries(es)[j] == es[i]);
            } else {
                assert(kept_entries(es).last() == es[i]);
            }
        }
        assert forall|k: int| 0 <= k < kept_entries(es).len() implies keeps_entry(#[trigger] kept_entries(es)[k])
            && es.contains(kept_entries(es)[k]) by {
            if k < kept_entries(rest).len() {
                assert(kept_entries(es)[k] == kept_entries(rest)[k]);
                let j = choose|j: int| 0 <= j < rest.len() && rest[j] == kept_entries(rest)[k];
                assert(es[j] == rest[j]);
            } else {
                assert(kept_entries(es)[k] == es.last());
                assert(es[es.len() - 1] == es.last());
            }
        }
    }
}

/// Path of an entry from the Drive root: the entry's path below the listed
/// folder `clean` (already without surrounding slashes).
pub open spec fn full_remote_path(clean: Seq<char>, path: Seq<char>) -> Seq<char> {
    if clean.len() == 0 {
        path
    } else {
        clean + "/"@ + path
    }
}

/// `it` is the listing item of entry `e` of the folder `clean`.
pub open spec fn item_of_entry(it: RemoteItem, e: RemoteEntry, clean: Seq<char>) -> bool {
    &&& it.name@ == e.name@
    &&& it.path@ == full_remote_path(clean, e.path@)
    &&& it.is_dir == e.is_dir
    &&& it.is_remote
    &&& it.thumbnail@ == (if e.is_dir { Seq::<char>::empty() } else { e.thumbnail@ })
    &&& it.size == e.size
}

/// Sort key of a listing entry: folders first, then by lowercase name.
pub open spec fn listing_key(e: RemoteEntry) -> (u8, Seq<char>) {
    (if e.is_dir { 0u8 } else { 1u8 }, unicode_lowercase(e.name@))
}

/// Sort keys of a sequence of entries.
pub open spec fn listing_keys(es: Seq<RemoteEntry>) -> Seq<(u8, Seq<char>)> {
    es.map_values(|e: RemoteEntry| listing_key(e))
}

proof fn lemma_kept_prefix(es: Seq<RemoteEntry>, i: int)
    requires
        0 <= i < es.len(),
    ensures
        kept_entries(es.subrange(0, i + 1)) == if keeps_entry(es[i]) {
            kept_entries(es.subrange(0, i)).push(es[i])
        } else {
            kept_entries(es.subrange(0, i))
        },
{
    assert(es.subrange(0, i + 1).drop_last() =~= es.subrange(0, i));
}

/// Turns the entries of `rclone lsjson` for `subfolder` into the listing:
/// folders and RAW files only, with paths from the Drive root, folders
/// first and then by case-insensitive name, equal keys keeping their order.
pub fn select_remote_items(entries: &Vec<RemoteEntry>, subfolder: &str) -> (r: Vec<RemoteItem>)
    ensures
        exists|idx: Seq<int>|
            #[trigger] stable_arrangement(listing_keys(kept_entries(entries@)), idx)
                && r@.len() == idx.len() && forall|k: int|
                0 <= k < idx.len() ==> item_of_entry(
                    r@[k],
                    kept_entries(entries@)[#[trigger] idx[k]],
                    trim_slashes(subfolder@),
                ),
{
    let clean = trim_matches_slash(subfolder);
    let ghost kept_all = kept_entries(entries@);
    let mut items: Vec<RemoteItem> = Vec::new();
    let mut keys: Vec<SortKey> = Vec::new();
    let mut i: usize = 0;
    while i < entries.len()
        invariant
            i <= entries@.len(),
            clean@ == trim_slashes(subfolder@),
            items@.len() == keys@.len(),
            items@.len() == kept_entries(entries@.subrange(0, i as int)).len(),
            forall|j: int| 0 <= j < items@.len() ==> item_of_entry(
                #[trigger] items@[j],
                kept_entries(entries@.subrange(0, i as int))[j],
                clean@,
            ),
            forall|j: int| 0 <= j < keys@.len() ==> key_view(#[trigger] keys@[j]) == listing_key(
                kept_entries(entries@.subrange(0, i as int))[j],
            ),
        decreases entries.len() - i,
    {
        let e = &entries[i];
        proof {
            lemma_kept_prefix(entries@, i as int);
        }
        let lower = lowercase(e.name.as_str());
        let lower_chars = chars_of(lower.as_str());
        let keep = e.is_dir || is_raw_lowercase_name(lower_chars.as_slice());
        if keep {
            let path = if clean.len() == 0 {
                e.path.clone()
            } else {
                let mut p = string_of(clean.as_slice());
                p.append("/");
                p.append(e.path.as_str());
                p
            };
            let thumbnail = if e.is_dir {
                String::new()
            } else {
                e.thumbnail.clone()
            };
            let item = RemoteItem {
                name: e.name.clone(),
                path,
                is_dir: e.is_dir,
                is_remote: true,
                thumbnail,
                size: e.size,
            };
            let key = SortKey { rank: if e.is_dir { 0 } else { 1 }, text: lower_chars };
            items.push(item);
            keys.push(key);
        }
        i = i + 1;
    }
    proof {
        assert(entries@.subrange(0, entries@.len() as int) =~= entries@);
        assert(key_views(keys@) =~= listing_keys(kept_all));
    }
    let ghost built = items@;
    let sorted = stable_sort_by_key(items, keys);
    proof {
        let idx = choose|idx: Seq<int>|
            #[trigger] stable_arrangement(listing_keys(kept_all), idx) && sorted@.len()
                == idx.len() && forall|k: int| 0 <= k < idx.len() ==> sorted@[k] == built[#[trigger] idx[k]];
        assert forall|k: int| 0 <= k < idx.len() implies item_of_entry(
            sorted@[k],
            kept_all[#[trigger] idx[k]],
            trim_slashes(subfolder@),
        ) by {
            assert(0 <= idx[k] < built.len());
            assert(item_of_entry(built[idx[k]], kept_all[idx[k]], clean@));
        }
    }
    sorted
}

/// Where an exported file goes on Google Drive.
pub struct UploadPlan {
    /// The rclone remote folder, such as `gdrive:Photos/Exports`.
    pub target: String,
    /// Name of the uploaded file.
    pub file_name: String,
}

/// Plans the upload of an exported file into a Drive folder: the file must
/// exist and have a name; an empty folder means `Photos/Exports`.
pub fn upload_export_to_gdrive(local_exists: bool, file_name: Option<&str>, remote_dest_folder: &str) -> (r: Result<UploadPlan, String>)
    ensures
        !local_exists ==> (r matches Err(e) && e@ == "Export file does not exist locally"@),
        local_exists && file_name is None ==> (r matches Err(e) && e@ == "Invalid filename"@),
        local_exists && file_name is Some ==> (r matches Ok(plan) && plan.target@ == remote_for(
            remote_dest_folder@,
            "gdrive:Photos/Exports"@,
        ) && plan.file_name@ == file_name->0@),
{
    if !local_exists {
        return Err(String::from_str("Export file does not exist locally"));
    }
    let target = remote_folder(remote_dest_folder, "gdrive:Photos/Exports");
    match file_name {
        None => Err(String::from_str("Invalid filename")),
        Some(name) => Ok(UploadPlan { target, file_name: String::from_str(name) }),
    }
}

impl UploadPlan {
    /// Reads rclone's exit code: on success the remote location of the file,
    /// `target/file_name`; `None` when rclone failed.
    pub fn finish(&self, exit_code: i32) -> (r: Option<String>)
        ensures
            exit_code != 0 ==> r is None,
            exit_code == 0 ==> (r matches Some(loc) && loc@ == self.target@ + "/"@ + self.file_name@),
    {
        if exit_code != 0 {
            return None;
        }
        let mut loc = self.target.clone();
        loc.append("/");
        loc.append(self.file_name.as_str());
        Some(loc)
    }
}

/// The rclone remote of a Drive file path: `gdrive:` and the path without
/// its leading slashes.
pub fn fetch_remote_target(remote_path: &str) -> (r: String)
    ensures
        r@ == "gdrive:"@ + strip_leading_slashes(remote_path@),
{
    let cs = chars_of(remote_path);
    let clean = trim_start_slashes(cs.as_slice());
    let mut out = String::from_str("gdrive:");
    let mut i: usize = 0;
    while i < clean.len()
        invariant
            i <= clean@.len(),
            out@ == "gdrive:"@ + clean@.subrange(0, i as int),
        decreases clean.len() - i,
    {
        push_char(&mut out, clean[i]);
        proof {
            assert(clean@.subrange(0, i + 1) =~= clean@.subrange(0, i as int).push(clean@[i as int]));
        }
        i = i + 1;
    }
    assert(clean@.subrange(0, clean@.len() as int) =~= clean@);
    out
}

/// A cached download is reused when it exists and holds more than 1 KiB.
pub fn cached_download_usable(exists: bool, len: u64) -> (r: bool)
    ensures
        r == (exists && len > 1024),
{
    exists && len > 1024
}

} // verus!
