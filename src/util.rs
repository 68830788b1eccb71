//! Shared rules: hash tags, target triples, version keys and the on-disk layout.
use vstd::prelude::*;
use crate::text::{concat, concat3, is_prefix, is_suffix, slice, starts_with, str_eq, ends_with, rfind_char, last_index_of};

verus! {

/// The machine the tools are installed for, as the names that Rust gives its
/// architecture and operating system (`x86_64`, `linux`).
pub struct Host {
    pub arch: String,
    pub os: String,
}

impl Host {
    pub open spec fn is_windows_spec(&self) -> bool {
        self.os@ == "windows"@
    }

    pub fn is_windows(&self) -> (r: bool)
        ensures
            r == self.is_windows_spec(),
    {
        str_eq(self.os.as_str(), "windows")
    }
}

/// The algorithm tag that a content hash may carry.
pub open spec fn hash_tag() -> Seq<char> {
    "sha256:"@
}

/// A hash with its algorithm tag taken off, if it has one.
pub open spec fn strip_hash_tag(h: Seq<char>) -> Seq<char> {
    if is_prefix(hash_tag(), h) {
        h.subrange(hash_tag().len() as int, h.len() as int)
    } else {
        h
    }
}

/// Strips the `sha256:` prefix from a hash if present.
pub fn format_hash(hash: &str) -> (r: String)
    ensures
        r@ == strip_hash_tag(hash@),
{
    let tag = "sha256:";
    if starts_with(hash, tag) {
        slice(hash, tag.unicode_len(), hash.unicode_len())
    } else {
        hash.to_owned()
    }
}

/// The target triple of a host, by a fixed table; other hosts get
/// `{arch}-unknown-{os}`.
pub open spec fn triple_of(arch: Seq<char>, os: Seq<char>) -> Seq<char> {
    if arch == "x86_64"@ && os == "linux"@ {
        "x86_64-unknown-linux-gnu"@
    } else if arch == "x86"@ && os == "windows"@ {
        "i686-pc-windows-msvc"@
    } else if arch == "x86_64"@ && os == "windows"@ {
        "x86_64-pc-windows-msvc"@
    } else if arch == "aarch64"@ && os == "linux"@ {
        "aarch64-unknown-linux-gnu"@
    } else if arch == "aarch64"@ && os == "macos"@ {
        "aarch64-apple-darwin"@
    } else if arch == "x86_64"@ && os == "macos"@ {
        "x86_64-apple-darwin"@
    } else {
        arch + "-unknown-"@ + os
    }
}

/// Returns the target triple (e.g. `x86_64-unknown-linux-gnu`) of the host.
pub fn current_target_triple(host: &Host) -> (r: String)
    ensures
        r@ == triple_of(host.arch@, host.os@),
{
    let arch = host.arch.as_str();
    let os = host.os.as_str();
    if str_eq(arch, "x86_64") && str_eq(os, "linux") {
        "x86_64-unknown-linux-gnu".to_owned()
    } else if str_eq(arch, "x86") && str_eq(os, "windows") {
        "i686-pc-windows-msvc".to_owned()
    } else if str_eq(arch, "x86_64") && str_eq(os, "windows") {
        "x86_64-pc-windows-msvc".to_owned()
    } else if str_eq(arch, "aarch64") && str_eq(os, "linux") {
        "aarch64-unknown-linux-gnu".to_owned()
    } else if str_eq(arch, "aarch64") && str_eq(os, "macos") {
        "aarch64-apple-darwin".to_owned()
    } else if str_eq(arch, "x86_64") && str_eq(os, "macos") {
        "x86_64-apple-darwin".to_owned()
    } else {
        concat3(arch, "-unknown-", os)
    }
}

/// A version with the host's target triple appended.
pub open spec fn expanded_version(version: Seq<char>, arch: Seq<char>, os: Seq<char>) -> Seq<char> {
    version + "-"@ + triple_of(arch, os)
}

/// Expands a version string to include the target triple:
/// `1.2.3` becomes `1.2.3-x86_64-unknown-linux-gnu` on such a host.
pub fn expand_version(version: &str, host: &Host) -> (r: String)
    ensures
        r@ == expanded_version(version@, host.arch@, host.os@),
{
    let triple = current_target_triple(host);
    concat3(version, "-", triple.as_str())
}

/// For one host, expanding any two versions appends one and the same
/// triple: each expansion is the version, a dash, and the host's triple.
pub proof fn lemma_expand_version_appends_host_triple(
    v1: Seq<char>,
    v2: Seq<char>,
    arch: Seq<char>,
    os: Seq<char>,
)
    ensures
        is_prefix(v1, expanded_version(v1, arch, os)),
        expanded_version(v1, arch, os).subrange(v1.len() as int + 1, expanded_version(v1, arch, os).len() as int)
            == triple_of(arch, os),
        expanded_version(v1, arch, os).subrange(v1.len() as int + 1, expanded_version(v1, arch, os).len() as int)
            == expanded_version(v2, arch, os).subrange(v2.len() as int + 1, expanded_version(v2, arch, os).len() as int),
        expanded_version(v1, arch, os)[v1.len() as int] == '-',
{
    reveal_strlit("-");
    let e1 = expanded_version(v1, arch, os);
    let e2 = expanded_version(v2, arch, os);
    assert(e1.subrange(0, v1.len() as int) =~= v1);
    assert(e1.subrange(v1.len() as int + 1, e1.len() as int) =~= triple_of(arch, os));
    assert(e2.subrange(v2.len() as int + 1, e2.len() as int) =~= triple_of(arch, os));
}

/// The part of `s` before the first `c`, or all of `s` where `c` does not occur.
pub open spec fn prefix_before(s: Seq<char>, c: char) -> Seq<char>
    decreases s.len(),
{
    if s.len() == 0 || s[0] == c {
        Seq::empty()
    } else {
        seq![s[0]] + prefix_before(s.drop_first(), c)
    }
}

proof fn lemma_prefix_before(s: Seq<char>, c: char, i: int)
    requires
        0 <= i <= s.len(),
        i == s.len() || s[i] == c,
        forall|k: int| 0 <= k < i ==> s[k] != c,
    ensures
        prefix_before(s, c) == s.subrange(0, i),
    decreases i,
{
    if i > 0 {
        lemma_prefix_before(s.drop_first(), c, i - 1);
        assert(s.subrange(0, i) =~= seq![s[0]] + s.drop_first().subrange(0, i - 1));
    } else {
        assert(s.subrange(0, i) =~= Seq::<char>::empty());
    }
}

/// The part of a version that precedes any `-` suffix.
pub fn version_core(version: &str) -> (r: String)
    ensures
        r@ == prefix_before(version@, '-'),
{
    prefix_before_char(version, '-')
}

/// Whether `semver::Version::parse` accepts the text.
pub uninterp spec fn semver_accepts(s: Seq<char>) -> bool;

/// Relies on `semver::Version::parse`: whether it returns `Ok`, which the
/// crate refuses for the empty text.
#[verifier::external_body]
fn parses_as_semver(s: &str) -> (r: bool)
    ensures
        r == semver_accepts(s@),
        s@.len() == 0 ==> !r,
{
    semver::Version::parse(s).is_ok()
}

/// A version is valid when its part before any `-` suffix is a semantic version.
pub open spec fn valid_version(v: Seq<char>) -> bool {
    semver_accepts(prefix_before(v, '-'))
}

/// Validates whether a version string is a valid semantic version,
/// ignoring any `-` suffix (a pre-release or a target triple).
pub fn is_valid_version(version: &str) -> (r: bool)
    ensures
        r == valid_version(version@),
{
    let core = version_core(version);
    parses_as_semver(core.as_str())
}

/// The path separator of a host.
pub open spec fn separator(windows: bool) -> Seq<char> {
    if windows {
        "\\"@
    } else {
        "/"@
    }
}

/// `seg` appended to the path `base`, with a separator between them unless
/// `base` is empty or already ends with one.
pub open spec fn joined(base: Seq<char>, seg: Seq<char>, windows: bool) -> Seq<char> {
    if base.len() == 0 || is_suffix(separator(windows), base) {
        base + seg
    } else {
        base + separator(windows) + seg
    }
}

/// Appends one path segment to a path.
pub fn join_path(base: &str, seg: &str, host: &Host) -> (r: String)
    ensures
        r@ == joined(base@, seg@, host.is_windows_spec()),
{
    let sep = if host.is_windows() {
        "\\"
    } else {
        "/"
    };
    if base.unicode_len() == 0 || ends_with(base, sep) {
        concat(base, seg)
    } else {
        concat3(base, sep, seg)
    }
}

pub open spec fn frate_dir_of(root: Seq<char>, windows: bool) -> Seq<char> {
    joined(root, ".frate"@, windows)
}

pub open spec fn bin_dir_of(root: Seq<char>, windows: bool) -> Seq<char> {
    joined(frate_dir_of(root, windows), "bin"@, windows)
}

pub open spec fn shims_dir_of(root: Seq<char>, windows: bool) -> Seq<char> {
    joined(frate_dir_of(root, windows), "shims"@, windows)
}

/// Returns the path of the `.frate` directory of a project.
pub fn get_frate_dir(root: &str, host: &Host) -> (r: String)
    ensures
        r@ == frate_dir_of(root@, host.is_windows_spec()),
{
    join_path(root, ".frate", host)
}

/// Returns the path of the `.frate/bin` directory of a project.
pub fn get_frate_bin_dir(root: &str, host: &Host) -> (r: String)
    ensures
        r@ == bin_dir_of(root@, host.is_windows_spec()),
{
    let dir = get_frate_dir(root, host);
    join_path(dir.as_str(), "bin", host)
}

/// Returns the path of the `.frate/shims` directory of a project.
pub fn get_frate_shims_dir(root: &str, host: &Host) -> (r: String)
    ensures
        r@ == shims_dir_of(root@, host.is_windows_spec()),
{
    let dir = get_frate_dir(root, host);
    join_path(dir.as_str(), "shims", host)
}

/// Returns the path of the `frate.lock` file of a project.
pub fn get_frate_lock_file(root: &str, host: &Host) -> (r: String)
    ensures
        r@ == joined(root@, "frate.lock"@, host.is_windows_spec()),
{
    join_path(root, "frate.lock", host)
}

/// Returns the path of the `frate.toml` file of a project.
pub fn get_frate_toml(root: &str, host: &Host) -> (r: String)
    ensures
        r@ == joined(root@, "frate.toml"@, host.is_windows_spec()),
{
    join_path(root, "frate.toml", host)
}

/// The stem of a file name: all of it when its only dot (if any) leads,
/// else the part before its last dot.
pub open spec fn stem_of(name: Seq<char>) -> Seq<char> {
    if last_index_of(name, '.') > 0 {
        name.subrange(0, last_index_of(name, '.'))
    } else {
        name
    }
}

/// The extension of a file name: the part after its last dot, unless that
/// dot leads the name or there is none.
pub open spec fn extension_of(name: Seq<char>) -> Option<Seq<char>> {
    if last_index_of(name, '.') > 0 {
        Some(name.subrange(last_index_of(name, '.') + 1, name.len() as int))
    } else {
        None
    }
}

/// The stem of a file name (`just` for `just.exe`).
pub fn file_stem(name: &str) -> (r: String)
    ensures
        r@ == stem_of(name@),
{
    match rfind_char(name, '.') {
        Some(d) if d > 0 => slice(name, 0, d),
        _ => name.to_owned(),
    }
}

/// The extension of a file name (`exe` for `just.exe`).
pub fn file_extension(name: &str) -> (r: Option<String>)
    ensures
        r matches Some(e) ==> extension_of(name@) == Some(e@),
        r is None ==> extension_of(name@) is None,
{
    let n = name.unicode_len();
    match rfind_char(name, '.') {
        Some(d) if d > 0 => Some(slice(name, d + 1, n)),
        _ => None,
    }
}

/// Two characters that are equal up to ASCII case.
pub open spec fn char_eq_ignore_case(a: char, b: char) -> bool {
    a == b || ('A' <= a <= 'Z' && (a as u32) + 32 == b as u32) || ('A' <= b <= 'Z' && (b as u32)
        + 32 == a as u32)
}

pub open spec fn eq_ignore_case(a: Seq<char>, b: Seq<char>) -> bool {
    a.len() == b.len() && forall|i: int| 0 <= i < a.len() ==> char_eq_ignore_case(a[i], b[i])
}

/// Equality of two strings up to ASCII case.
pub fn str_eq_ignore_case(a: &str, b: &str) -> (r: bool)
    ensures
        r == eq_ignore_case(a@, b@),
{
    let n = a.unicode_len();
    if n != b.unicode_len() {
        return false;
    }
    let mut i: usize = 0;
    while i < n
        invariant
            i <= n,
            n == a@.len(),
            n == b@.len(),
            forall|k: int| 0 <= k < i ==> char_eq_ignore_case(a@[k], b@[k]),
        decreases n - i,
    {
        let x = a.get_char(i);
        let y = b.get_char(i);
        let same = x == y || ('A' <= x && x <= 'Z' && (x as u32) + 32 == y as u32) || ('A' <= y
            && y <= 'Z' && (y as u32) + 32 == x as u32);
        if !same {
            return false;
        }
        i += 1;
    }
    true
}

/// The executable test of a host: on Windows an extension `exe`, `bat` or
/// `cmd` in any case; elsewhere any execute bit in the file's mode.
pub open spec fn executable_on(windows: bool, name: Seq<char>, mode: u32) -> bool {
    if windows {
        match extension_of(name) {
            Some(e) => eq_ignore_case(e, "exe"@) || eq_ignore_case(e, "bat"@) || eq_ignore_case(
                e,
                "cmd"@,
            ),
            None => false,
        }
    } else {
        mode & 0o111u32 != 0
    }
}

/// Whether a file with this name and permission mode is an executable on the host.
pub fn is_executable(host: &Host, name: &str, mode: u32) -> (r: bool)
    ensures
        r == executable_on(host.is_windows_spec(), name@, mode),
{
    if host.is_windows() {
        match file_extension(name) {
            Some(e) => {
                let e = e.as_str();
                str_eq_ignore_case(e, "exe") || str_eq_ignore_case(e, "bat") || str_eq_ignore_case(
                    e,
                    "cmd",
                )
            },
            None => false,
        }
    } else {
        mode & 0o111u32 != 0
    }
}

/// Position of the first `c` in `s`, or -1.
pub open spec fn first_index_of(s: Seq<char>, c: char) -> int {
    if prefix_before(s, c).len() < s.len() {
        prefix_before(s, c).len() as int
    } else {
        -1
    }
}

/// Position of the first `c` in `s`.
fn find_char(s: &str, c: char) -> (r: Option<usize>)
    ensures
        r is None ==> first_index_of(s@, c) == -1,
        r matches Some(i) ==> first_index_of(s@, c) == i && i < s@.len(),
{
    let n = s.unicode_len();
    let mut i: usize = 0;
    while i < n && s.get_char(i) != c
        invariant
            i <= n,
            n == s@.len(),
            forall|k: int| 0 <= k < i ==> s@[k] != c,
        decreases n - i,
    {
        i += 1;
    }
    proof {
        lemma_prefix_before(s@, c, i as int);
    }
    if i < n {
        Some(i)
    } else {
        None
    }
}

/// The name and the version of a `name@version` argument: the parts before
/// the first `@` and between it and any second `@`.
pub open spec fn name_at_version_of(s: Seq<char>) -> Option<(Seq<char>, Seq<char>)> {
    let i = first_index_of(s, '@');
    if i < 0 {
        None
    } else {
        Some((s.subrange(0, i), prefix_before(s.subrange(i + 1, s.len() as int), '@')))
    }
}

/// Splits a `name@version` argument; fails when there is no `@`.
pub fn extract_name_at_version(name_at_version: &str) -> (r: Option<(String, String)>)
    ensures
        r is None <==> name_at_version_of(name_at_version@) is None,
        r matches Some(p) ==> name_at_version_of(name_at_version@) == Some((p.0@, p.1@)),
{
    let n = name_at_version.unicode_len();
    match find_char(name_at_version, '@') {
        None => None,
        Some(i) => {
            let name = slice(name_at_version, 0, i);
            let rest = slice(name_at_version, i + 1, n);
            let version = prefix_before_char(rest.as_str(), '@');
            Some((name, version))
        },
    }
}

/// The part of `s` before the first `c`, or all of `s`.
pub fn prefix_before_char(s: &str, c: char) -> (r: String)
    ensures
        r@ == prefix_before(s@, c),
{
    let n = s.unicode_len();
    let mut i: usize = 0;
    while i < n && s.get_char(i) != c
        invariant
            i <= n,
            n == s@.len(),
            forall|k: int| 0 <= k < i ==> s@[k] != c,
        decreases n - i,
    {
        i += 1;
    }
    proof {
        lemma_prefix_before(s@, c, i as int);
    }
    slice(s, 0, i)
}

/// `s` without its trailing `c`s.
pub open spec fn trim_end(s: Seq<char>, c: char) -> Seq<char>
    decreases s.len(),
{
    if s.len() > 0 && s.last() == c {
        trim_end(s.drop_last(), c)
    } else {
        s
    }
}

/// The API location of a repository given by its web URL: the last two
/// `/`-separated segments, once trailing slashes are gone, are owner and
/// name. `None` when there is no `/` left to separate them.
pub open spec fn api_url_of(url: Seq<char>) -> Option<Seq<char>> {
    let t = trim_end(url, '/');
    let i = last_index_of(t, '/');
    if i < 0 {
        None
    } else {
        let head = t.subrange(0, i);
        let owner = head.subrange(last_index_of(head, '/') + 1, head.len() as int);
        let name = t.subrange(i + 1, t.len() as int);
        Some("https://api.github.com/repos/"@ + owner + "/"@ + name)
    }
}

/// Turns a repository's web URL into its API URL.
pub fn convert_url_to_api_url(url: &str) -> (r: Option<String>)
    ensures
        r is None <==> api_url_of(url@) is None,
        r matches Some(a) ==> api_url_of(url@) == Some(a@),
{
    let mut n = url.unicode_len();
    assert(url@.subrange(0, n as int) =~= url@);
    while n > 0 && url.get_char(n - 1) == '/'
        invariant
            n <= url@.len(),
            trim_end(url@, '/') == trim_end(url@.subrange(0, n as int), '/'),
        decreases n,
    {
        assert(url@.subrange(0, n as int).drop_last() =~= url@.subrange(0, n - 1));
        n -= 1;
    }
    let t = slice(url, 0, n);
    assert(trim_end(url@, '/') == t@);
    match rfind_char(t.as_str(), '/') {
        None => None,
        Some(i) => {
            let head = slice(t.as_str(), 0, i);
            let owner = match rfind_char(head.as_str(), '/') {
                Some(j) => slice(head.as_str(), j + 1, i),
                None => head.clone(),
            };
            assert(head@.subrange(0, head@.len() as int) =~= head@);
            let name = slice(t.as_str(), i + 1, n);
            let a = concat3("https://api.github.com/repos/", owner.as_str(), "/");
            Some(concat(a.as_str(), name.as_str()))
        },
    }
}

} // verus!
