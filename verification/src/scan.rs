//! Scanning a local folder for RAW photos: which files count, and the
//! order they are listed in. Reading the directory is the caller's part.

use vstd::prelude::*;
use crate::sorting::{SortKey, key_view, key_views, stable_arrangement, stable_sort_by_key};
use crate::text::{chars_of, lowercase, str_eq, unicode_lowercase, is_ascii_text, ascii_lowercase};

verus! {

/// Lowercase extensions of the RAW formats the engine opens.
pub open spec fn raw_lowercase_ext(e: Seq<char>) -> bool {
    e == "nef"@ || e == "nrw"@ || e == "raf"@ || e == "cr2"@ || e == "cr3"@ || e == "arw"@ || e
        == "dng"@ || e == "rwl"@ || e == "orf"@ || e == "rw2"@
}

/// Whether a file extension, in any letter case, is a RAW format.
pub fn is_raw_ext(ext: &str) -> (r: bool)
    ensures
        r == raw_lowercase_ext(unicode_lowercase(ext@)),
        is_ascii_text(ext@) ==> r == raw_lowercase_ext(ascii_lowercase(ext@)),
{
    let lower = lowercase(ext);
    let e = lower.as_str();
    str_eq(e, "nef") || str_eq(e, "nrw") || str_eq(e, "raf") || str_eq(e, "cr2") || str_eq(e, "cr3")
        || str_eq(e, "arw") || str_eq(e, "dng") || str_eq(e, "rwl") || str_eq(e, "orf") || str_eq(
        e,
        "rw2",
    )
}

/// One RAW photo found in a local folder.
pub struct FolderScanItem {
    pub name: String,
    pub path: String,
    pub thumbnail: String,
    pub is_remote: bool,
}

/// Sort keys of scanned items: their names.
pub open spec fn name_keys(items: Seq<FolderScanItem>) -> Seq<(u8, Seq<char>)> {
    items.map_values(|it: FolderScanItem| (0u8, it.name@))
}

/// Orders scanned items by file name, stably.
pub fn sort_scan_items(items: Vec<FolderScanItem>) -> (r: Vec<FolderScanItem>)
    ensures
        exists|idx: Seq<int>|
            #[trigger] stable_arrangement(name_keys(items@), idx) && r@.len() == idx.len() && forall|
                k: int,
            | 0 <= k < idx.len() ==> r@[k] == items@[#[trigger] idx[k]],
{
    let mut keys: Vec<SortKey> = Vec::new();
    let mut i: usize = 0;
    while i < items.len()
        invariant
            i <= items@.len(),
            keys@.len() == i,
            forall|j: int| 0 <= j < i ==> key_view(#[trigger] keys@[j]) == (0u8, items@[j].name@),
        decreases items.len() - i,
    {
        let text = chars_of(items[i].name.as_str());
        keys.push(SortKey { rank: 0, text });
        i = i + 1;
    }
    assert(key_views(keys@) =~= name_keys(items@));
    stable_sort_by_key(items, keys)
}

} // verus!
