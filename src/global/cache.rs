//! The archive cache: downloaded archives kept under their file names.
use vstd::prelude::*;
use crate::text::{contains, contains_seq, last_index_of, rfind_char, slice};
use crate::util::{joined, join_path, Host};

verus! {

/// The file name of an archive: the last `/`-separated segment of its URL.
pub open spec fn archive_name_of(url: Seq<char>) -> Seq<char> {
    url.subrange(last_index_of(url, '/') + 1, url.len() as int)
}

/// Returns the name under which the archive of `url` is cached.
pub fn archive_file_name(url: &str) -> (r: String)
    ensures
        r@ == archive_name_of(url@),
{
    let n = url.unicode_len();
    match rfind_char(url, '/') {
        Some(i) => slice(url, i + 1, n),
        None => url.to_owned(),
    }
}

/// The path of the cache entry for the archive of `url`.
pub open spec fn cache_path_of(cache_dir: Seq<char>, url: Seq<char>, windows: bool) -> Seq<char> {
    joined(cache_dir, archive_name_of(url), windows)
}

/// Returns where the archive of `url` is, or would be, cached.
pub fn get_cached_archive(cache_dir: &str, url: &str, host: &Host) -> (r: String)
    ensures
        r@ == cache_path_of(cache_dir@, url@, host.is_windows_spec()),
{
    let name = archive_file_name(url);
    join_path(cache_dir, name.as_str(), host)
}

/// The entries whose path holds `needle`, in their order.
pub open spec fn containing(entries: Seq<Seq<char>>, needle: Seq<char>) -> Seq<Seq<char>>
    decreases entries.len(),
{
    if entries.len() == 0 {
        Seq::empty()
    } else {
        let prev = containing(entries.drop_last(), needle);
        if contains_seq(entries.last(), needle) {
            prev.push(entries.last())
        } else {
            prev
        }
    }
}

/// The views of a list of paths.
pub open spec fn paths_view(v: Seq<String>) -> Seq<Seq<char>> {
    v.map_values(|s: String| s@)
}

/// The cache entries to delete when evicting `name`: every entry whose path
/// holds `name`, and no other.
pub fn entries_to_evict(entries: &Vec<String>, name: &str) -> (r: Vec<String>)
    ensures
        paths_view(r@) == containing(paths_view(entries@), name@),
{
    let mut out: Vec<String> = Vec::new();
    let mut i: usize = 0;
    while i < entries.len()
        invariant
            i <= entries@.len(),
            paths_view(out@) == containing(paths_view(entries@).subrange(0, i as int), name@),
        decreases entries.len() - i,
    {
        let ghost all = paths_view(entries@);
        assert(all.subrange(0, i + 1).drop_last() =~= all.subrange(0, i as int));
        if contains(entries[i].as_str(), name) {
            let ghost before = paths_view(out@);
            out.push(entries[i].clone());
            assert(paths_view(out@) =~= before.push(entries@[i as int]@));
        }
        i += 1;
    }
    assert(paths_view(entries@).subrange(0, i as int) =~= paths_view(entries@));
    out
}

/// An entry is selected for eviction exactly when its path holds the needle.
pub proof fn lemma_evicts_exactly_matching(entries: Seq<Seq<char>>, needle: Seq<char>, p: Seq<char>)
    ensures
        containing(entries, needle).contains(p) <==> (entries.contains(p) && contains_seq(p, needle)),
    decreases entries.len(),
{
    if entries.len() > 0 {
        let rest = entries.drop_last();
        lemma_evicts_exactly_matching(rest, needle, p);
        assert(entries =~= rest.push(entries.last()));
        if entries.contains(p) && !rest.contains(p) {
            let k = choose|k: int| 0 <= k < entries.len() && entries[k] == p;
            if k < rest.len() {
                assert(rest[k] == p);
            }
        }
        if rest.contains(p) {
            let k = choose|k: int| 0 <= k < rest.len() && rest[k] == p;
            assert(entries[k] == p);
        }
        let prev = containing(rest, needle);
        if prev.contains(p) {
            let k = choose|k: int| 0 <= k < prev.len() && prev[k] == p;
            if contains_seq(entries.last(), needle) {
                assert(prev.push(entries.last())[k] == p);
            }
        }
        if contains_seq(entries.last(), needle) && entries.last() == p {
            assert(prev.push(entries.last())[prev.len() as int] == p);
        }
        if contains_seq(entries.last(), needle) && containing(entries, needle).contains(p) && !prev.contains(p) {
            let k = choose|k: int| 0 <= k < prev.len() + 1 && prev.push(entries.last())[k] == p;
            if k < prev.len() {
                assert(prev[k] == p);
            }
        }
    }
}

/// Whether some cache entry's path holds `full_name`.
pub fn is_cached(entries: &Vec<String>, full_name: &str) -> (r: bool)
    ensures
        r == exists|i: int| 0 <= i < entries@.len() && contains_seq(entries@[i]@, full_name@),
{
    let mut i: usize = 0;
    while i < entries.len()
        invariant
            i <= entries@.len(),
            forall|k: int| 0 <= k < i ==> !contains_seq(entries@[k]@, full_name@),
        decreases entries.len() - i,
    {
        if contains(entries[i].as_str(), full_name) {
            return true;
        }
        i += 1;
    }
    false
}

} // verus!
