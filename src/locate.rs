//! Choosing the primary executable of an unpacked archive.
use vstd::prelude::*;
use crate::text::concat3;
use crate::util::{file_stem, is_executable, executable_on, stem_of, Host};

verus! {

/// A regular file found in an unpacked archive.
pub struct FileEntry {
    /// Its full path.
    pub path: String,
    /// Its file name, the last component of the path.
    pub name: String,
    /// Its permission bits (unused on Windows).
    pub mode: u32,
}

/// Strict lexicographic order of character sequences, by code point.
pub open spec fn lex_lt(a: Seq<char>, b: Seq<char>) -> bool
    decreases a.len(),
{
    if b.len() == 0 {
        false
    } else if a.len() == 0 {
        true
    } else if a[0] != b[0] {
        a[0] < b[0]
    } else {
        lex_lt(a.drop_first(), b.drop_first())
    }
}

proof fn lemma_lex_irreflexive(a: Seq<char>)
    ensures
        !lex_lt(a, a),
    decreases a.len(),
{
    if a.len() > 0 {
        lemma_lex_irreflexive(a.drop_first());
    }
}

proof fn lemma_lex_transitive(a: Seq<char>, b: Seq<char>, c: Seq<char>)
    requires
        lex_lt(a, b),
        lex_lt(b, c),
    ensures
        lex_lt(a, c),
    decreases a.len(),
{
    if a.len() > 0 && a[0] == b[0] && b[0] == c[0] {
        lemma_lex_transitive(a.drop_first(), b.drop_first(), c.drop_first());
    }
}

proof fn lemma_lex_total(a: Seq<char>, b: Seq<char>)
    ensures
        a == b || lex_lt(a, b) || lex_lt(b, a),
    decreases a.len(),
{
    if a.len() > 0 && b.len() > 0 && a[0] == b[0] {
        lemma_lex_total(a.drop_first(), b.drop_first());
        if a.drop_first() == b.drop_first() {
            assert(a =~= seq![a[0]] + a.drop_first());
            assert(b =~= seq![b[0]] + b.drop_first());
        }
    } else if a.len() == 0 && b.len() == 0 {
        assert(a =~= b);
    }
}

/// Whether `a` comes strictly before `b` in lexicographic order.
pub fn lex_less(a: &str, b: &str) -> (r: bool)
    ensures
        r == lex_lt(a@, b@),
{
    let n = a.unicode_len();
    let m = b.unicode_len();
    let mut i: usize = 0;
    assert(a@.skip(0) =~= a@);
    assert(b@.skip(0) =~= b@);
    while i < n && i < m && a.get_char(i) == b.get_char(i)
        invariant
            i <= n,
            i <= m,
            n == a@.len(),
            m == b@.len(),
            lex_lt(a@, b@) == lex_lt(a@.skip(i as int), b@.skip(i as int)),
        decreases n - i,
    {
        assert(a@.skip(i as int).drop_first() =~= a@.skip(i + 1));
        assert(b@.skip(i as int).drop_first() =~= b@.skip(i + 1));
        i += 1;
    }
    if i == m {
        false
    } else if i == n {
        true
    } else {
        a.get_char(i) < b.get_char(i)
    }
}

/// `s` with every regular-expression metacharacter escaped, as `regex::escape` does it.
pub uninterp spec fn escaped_of(s: Seq<char>) -> Seq<char>;

/// Relies on `regex::escape`: the text escaped so that a pattern made of it
/// matches it literally.
#[verifier::external_body]
fn regex_escape(s: &str) -> (r: String)
    ensures
        r@ == escaped_of(s@),
{
    regex::escape(s)
}

/// Whether the pattern compiles and finds a match somewhere in `text`.
pub uninterp spec fn regex_finds(pattern: Seq<char>, text: Seq<char>) -> bool;

/// Relies on `regex::Regex::new` and `Regex::is_match`: whether the pattern
/// compiles and matches somewhere in the text; `false` when it does not compile.
#[verifier::external_body]
fn regex_is_match(pattern: &str, text: &str) -> (r: bool)
    ensures
        r == regex_finds(pattern@, text@),
{
    match regex::Regex::new(pattern) {
        Ok(re) => re.is_match(text),
        Err(_) => false,
    }
}

/// The pattern of stems that name a tool: the tool's name, in any case,
/// from the start of a word.
pub open spec fn name_pattern(tool: Seq<char>) -> Seq<char> {
    "(?i)\\b"@ + escaped_of(tool) + ".*"@
}

/// The stem names the tool: the name pattern matches in it.
pub open spec fn names_tool(tool: Seq<char>, stem: Seq<char>) -> bool {
    regex_finds(name_pattern(tool), stem)
}

/// Whether the stem of a file names the tool.
fn stem_names_tool(tool: &str, stem: &str) -> (r: bool)
    ensures
        r == names_tool(tool@, stem@),
{
    let escaped = regex_escape(tool);
    let pattern = concat3("(?i)\\b", escaped.as_str(), ".*");
    regex_is_match(pattern.as_str(), stem)
}

/// The rank of a file: 0 when its stem names the tool, else 10.
pub open spec fn rank_of(tool: Seq<char>, name: Seq<char>) -> int {
    if names_tool(tool, stem_of(name)) {
        0
    } else {
        10
    }
}

/// `a` comes no later than `b`: a lower rank, or the same rank and a path
/// that is not lexicographically greater.
pub open spec fn no_later(tool: Seq<char>, a: FileEntry, b: FileEntry) -> bool {
    rank_of(tool, a.name@) < rank_of(tool, b.name@) || (rank_of(tool, a.name@) == rank_of(
        tool,
        b.name@,
    ) && !lex_lt(b.path@, a.path@))
}

pub open spec fn is_candidate(windows: bool, e: FileEntry) -> bool {
    executable_on(windows, e.name@, e.mode)
}

/// Whether the `i`-th file's stem names the tool, as `named` records it;
/// a file past its end does not.
pub open spec fn named_at(named: Seq<bool>, i: int) -> bool {
    0 <= i < named.len() && named[i]
}

/// The rank of the `i`-th file: 0 when its stem names the tool, else 10.
pub open spec fn rank_in(named: Seq<bool>, i: int) -> int {
    if named_at(named, i) {
        0
    } else {
        10
    }
}

/// The `i`-th file comes no later than the `j`-th: a lower rank, or the
/// same rank and a path that is not lexicographically greater.
pub open spec fn ranked_no_later(files: Seq<FileEntry>, named: Seq<bool>, i: int, j: int) -> bool {
    rank_in(named, i) < rank_in(named, j) || (rank_in(named, i) == rank_in(named, j) && !lex_lt(
        files[j].path@,
        files[i].path@,
    ))
}

/// Picks the primary executable, given for each file whether its stem names
/// the tool: of the executables, one of the lowest rank, and of those the
/// lexicographically first path. `None` when no file is executable.
pub fn pick_binary(files: &Vec<FileEntry>, named: &Vec<bool>, host: &Host) -> (r: Option<usize>)
    ensures
        r is None <==> forall|j: int|
            0 <= j < files@.len() ==> !is_candidate(host.is_windows_spec(), files@[j]),
        r matches Some(i) ==> i < files@.len() && is_candidate(host.is_windows_spec(), files@[i as int])
            && forall|j: int|
            0 <= j < files@.len() && is_candidate(host.is_windows_spec(), files@[j])
                ==> ranked_no_later(files@, named@, i as int, j),
{
    let ghost windows = host.is_windows_spec();
    let mut best: Option<usize> = None;
    let mut best_rank: u8 = 0;
    let mut i: usize = 0;
    while i < files.len()
        invariant
            i <= files@.len(),
            windows == host.is_windows_spec(),
            best is None ==> forall|j: int| 0 <= j < i ==> !is_candidate(windows, files@[j]),
            best matches Some(b) ==> b < i && is_candidate(windows, files@[b as int])
                && best_rank == rank_in(named@, b as int) && forall|j: int|
                0 <= j < i && is_candidate(windows, files@[j]) ==> ranked_no_later(
                    files@,
                    named@,
                    b as int,
                    j,
                ),
        decreases files.len() - i,
    {
        let f = &files[i];
        if is_executable(host, f.name.as_str(), f.mode) {
            let rank: u8 = if i < named.len() && named[i] {
                0
            } else {
                10
            };
            assert(rank as int == rank_in(named@, i as int));
            match best {
                None => {
                    proof {
                        lemma_lex_irreflexive(f.path@);
                    }
                    best = Some(i);
                    best_rank = rank;
                },
                Some(b) => {
                    let better = rank < best_rank || (rank == best_rank && lex_less(
                        f.path.as_str(),
                        files[b].path.as_str(),
                    ));
                    proof {
                        lemma_lex_irreflexive(f.path@);
                        lemma_lex_total(f.path@, files@[b as int].path@);
                        assert forall|j: int|
                            0 <= j < i && is_candidate(windows, files@[j]) implies ranked_no_later(
                            files@,
                            named@,
                            (if better { i as int } else { b as int }),
                            j,
                        ) by {
                            assert(ranked_no_later(files@, named@, b as int, j));
                            if better && rank == best_rank && rank_in(named@, j) == rank && lex_lt(
                                files@[j].path@,
                                f.path@,
                            ) {
                                lemma_lex_transitive(files@[j].path@, f.path@, files@[b as int].path@);
                            }
                        }
                    }
                    if better {
                        best = Some(i);
                        best_rank = rank;
                    }
                },
            }
        }
        i += 1;
    }
    best
}

/// Picks the primary executable among the files of an unpacked archive: of
/// the executables, one of the lowest rank, and of those the
/// lexicographically first path. `None` when no file is executable.
pub fn select_binary(tool: &str, files: &Vec<FileEntry>, host: &Host) -> (r: Option<usize>)
    ensures
        r is None <==> forall|j: int|
            0 <= j < files@.len() ==> !is_candidate(host.is_windows_spec(), files@[j]),
        r matches Some(i) ==> i < files@.len() && is_candidate(host.is_windows_spec(), files@[i as int])
            && forall|j: int|
            0 <= j < files@.len() && is_candidate(host.is_windows_spec(), files@[j]) ==> no_later(
                tool@,
                files@[i as int],
                files@[j],
            ),
{
    let mut named: Vec<bool> = Vec::new();
    let mut i: usize = 0;
    while i < files.len()
        invariant
            i <= files@.len(),
            named@.len() == i,
            forall|k: int|
                0 <= k < i ==> named@[k] == names_tool(tool@, stem_of(#[trigger] files@[k].name@)),
        decreases files.len() - i,
    {
        let stem = file_stem(files[i].name.as_str());
        named.push(stem_names_tool(tool, stem.as_str()));
        i += 1;
    }
    let r = pick_binary(files, &named, host);
    proof {
        assert forall|a: int, b: int|
            0 <= a < files@.len() && 0 <= b < files@.len() && ranked_no_later(
                files@,
                named@,
                a,
                b,
            ) implies #[trigger] no_later(tool@, files@[a], files@[b]) by {
            assert(rank_in(named@, a) == rank_of(tool@, files@[a].name@));
            assert(rank_in(named@, b) == rank_of(tool@, files@[b].name@));
        }
    }
    r
}

} // verus!
