//! Registry documents and the resolution of a version requirement on a host.
use vstd::prelude::*;
use crate::text::{concat3, contains, contains_seq, is_prefix, matches_at, slice, str_eq};
use crate::util::{expand_version, expanded_version, Host};

verus! {

/// Metadata of one release of a tool: where its archive is and its hash.
pub struct ReleaseInfo {
    /// The URL of the archive.
    pub url: String,
    /// The SHA-256 hash of the archive, hex-encoded, maybe tagged `sha256:`.
    pub hash: String,
}

impl ReleaseInfo {
    /// A field-by-field copy.
    pub fn duplicate(&self) -> (r: ReleaseInfo)
        ensures
            r.url@ == self.url@,
            r.hash@ == self.hash@,
    {
        ReleaseInfo { url: self.url.clone(), hash: self.hash.clone() }
    }

    /// A release with an empty URL and hash.
    pub fn default() -> (r: ReleaseInfo)
        ensures
            r.url@.len() == 0,
            r.hash@.len() == 0,
    {
        ReleaseInfo { url: String::new(), hash: String::new() }
    }
}

/// A tool as the registry describes it.
pub struct RegistryTool {
    /// The name of the tool.
    pub name: String,
    /// The source repository of the tool, e.g. `https://github.com/user/repo`.
    pub repo: String,
    /// Version keys (a version and a target triple) with their releases.
    pub releases: Vec<(String, ReleaseInfo)>,
}

/// A dependency resolved for a host, ready to be downloaded and installed.
pub struct ResolvedDependency {
    /// Name of the tool, as registered.
    pub name: String,
    /// The version key that was asked for: the version and the host's triple.
    pub version: String,
    /// Download URL of the archive.
    pub url: String,
    /// Hash of the archive.
    pub hash: String,
}

/// Why a dependency could not be resolved.
pub enum ResolveError {
    /// The registry had no readable document for the tool.
    NotFound { name: String },
    /// The document lists no release for the version key, nor for its
    /// other-libc variant.
    VersionNotFound { name: String, version: String },
}

impl ResolveError {
    /// A sentence that describes the error.
    pub fn message(&self) -> (r: String)
        ensures
            self matches ResolveError::NotFound { name } ==> r@ == "Tool "@ + name@
                + " not found in registry"@,
            self matches ResolveError::VersionNotFound { name, version } ==> r@ == "Tool version "@
                + version@ + " of "@ + name@ + " not found in registry"@,
    {
        match self {
            ResolveError::NotFound { name } => concat3("Tool ", name.as_str(), " not found in registry"),
            ResolveError::VersionNotFound { name, version } => {
                let head = concat3("Tool version ", version.as_str(), " of ");
                concat3(head.as_str(), name.as_str(), " not found in registry")
            },
        }
    }
}

/// The location of the registry document of a tool.
pub open spec fn registry_url_of(tool_name: Seq<char>) -> Seq<char> {
    "https://raw.githubusercontent.com/konni332/frate-registry/refs/heads/master/tools/"@
        + tool_name + ".json"@
}

/// Returns the location of the registry document of a tool.
pub fn registry_document_url(tool_name: &str) -> (r: String)
    ensures
        r@ == registry_url_of(tool_name@),
{
    concat3(
        "https://raw.githubusercontent.com/konni332/frate-registry/refs/heads/master/tools/",
        tool_name,
        ".json",
    )
}

/// `s` with each occurrence of `from`, taken left to right, replaced by `to`.
pub open spec fn replace_all(s: Seq<char>, from: Seq<char>, to: Seq<char>) -> Seq<char>
    decreases s.len(),
{
    if s.len() == 0 {
        s
    } else if from.len() > 0 && is_prefix(from, s) {
        to + replace_all(s.subrange(from.len() as int, s.len() as int), from, to)
    } else {
        seq![s[0]] + replace_all(s.drop_first(), from, to)
    }
}

/// Replaces every occurrence of `from` in `s`, left to right, by `to`.
pub fn replace(s: &str, from: &str, to: &str) -> (r: String)
    requires
        from@.len() > 0,
    ensures
        r@ == replace_all(s@, from@, to@),
{
    let n = s.unicode_len();
    let m = from.unicode_len();
    let mut out = String::new();
    let mut i: usize = 0;
    assert(s@.subrange(0, n as int) =~= s@);
    while i < n
        invariant
            i <= n,
            n == s@.len(),
            m == from@.len(),
            m > 0,
            out@ + replace_all(s@.subrange(i as int, n as int), from@, to@) == replace_all(
                s@,
                from@,
                to@,
            ),
        decreases n - i,
    {
        let ghost rest = s@.subrange(i as int, n as int);
        if matches_at(s, from, i) {
            assert(rest.subrange(0, m as int) =~= s@.subrange(i as int, i + m));
            assert(rest.subrange(m as int, rest.len() as int) =~= s@.subrange(i + m, n as int));
            out.append(to);
            assert(out@ + replace_all(s@.subrange(i + m, n as int), from@, to@) =~= replace_all(
                s@,
                from@,
                to@,
            ));
            i += m;
        } else {
            assert(!is_prefix(from@, rest)) by {
                if m <= rest.len() {
                    assert(rest.subrange(0, m as int) =~= s@.subrange(i as int, i + m));
                }
            }
            assert(rest.drop_first() =~= s@.subrange(i + 1, n as int));
            let c = slice(s, i, i + 1);
            assert(c@ =~= seq![rest[0]]);
            out.append(c.as_str());
            assert(out@ + replace_all(s@.subrange(i + 1, n as int), from@, to@) =~= replace_all(
                s@,
                from@,
                to@,
            ));
            i += 1;
        }
    }
    assert(s@.subrange(n as int, n as int) =~= Seq::<char>::empty());
    assert(out@ + Seq::<char>::empty() =~= out@);
    out
}

/// The key of the other libc variant: `musl` swapped for `gnu`, or `gnu`
/// for `musl`; none when the key names neither.
pub open spec fn libc_alternative(key: Seq<char>) -> Option<Seq<char>> {
    if contains_seq(key, "musl"@) {
        Some(replace_all(key, "musl"@, "gnu"@))
    } else if contains_seq(key, "gnu"@) {
        Some(replace_all(key, "gnu"@, "musl"@))
    } else {
        None
    }
}

/// Position of the last release listed under `key`, or -1.
pub open spec fn release_position(rs: Seq<(String, ReleaseInfo)>, key: Seq<char>) -> int
    decreases rs.len(),
{
    if rs.len() == 0 {
        -1
    } else if rs.last().0@ == key {
        rs.len() - 1
    } else {
        release_position(rs.drop_last(), key)
    }
}

/// The release chosen for `key`: the one listed under it, else the one
/// under its other-libc variant; -1 when neither is listed.
pub open spec fn chosen_release(rs: Seq<(String, ReleaseInfo)>, key: Seq<char>) -> int {
    if release_position(rs, key) >= 0 {
        release_position(rs, key)
    } else {
        match libc_alternative(key) {
            Some(alt) => release_position(rs, alt),
            None => -1,
        }
    }
}

fn find_release(rs: &Vec<(String, ReleaseInfo)>, key: &str) -> (r: Option<usize>)
    ensures
        r is None ==> release_position(rs@, key@) == -1,
        r matches Some(i) ==> release_position(rs@, key@) == i && i < rs@.len(),
{
    let mut i: usize = rs.len();
    assert(rs@.subrange(0, i as int) =~= rs@);
    while i > 0
        invariant
            i <= rs@.len(),
            release_position(rs@, key@) == release_position(rs@.subrange(0, i as int), key@),
        decreases i,
    {
        assert(rs@.subrange(0, i as int).drop_last() =~= rs@.subrange(0, i - 1));
        if str_eq(rs[i - 1].0.as_str(), key) {
            return Some(i - 1);
        }
        i -= 1;
    }
    None
}

/// Looks a version key up among the releases, falling back on the
/// other-libc variant of the key.
fn choose_release(rs: &Vec<(String, ReleaseInfo)>, key: &str) -> (r: Option<usize>)
    ensures
        r is None ==> chosen_release(rs@, key@) == -1,
        r matches Some(i) ==> chosen_release(rs@, key@) == i && i < rs@.len(),
{
    proof {
        reveal_strlit("musl");
        reveal_strlit("gnu");
    }
    match find_release(rs, key) {
        Some(i) => Some(i),
        None => {
            if contains(key, "musl") {
                let alt = replace(key, "musl", "gnu");
                find_release(rs, alt.as_str())
            } else if contains(key, "gnu") {
                let alt = replace(key, "gnu", "musl");
                find_release(rs, alt.as_str())
            } else {
                None
            }
        },
    }
}

/// Resolves a version requirement against the registry document of a tool
/// (`None` when the registry had none) for a host. The version key is the
/// version with the host's triple appended; where the document lists no
/// release under it, the other-libc variant of the key is tried.
pub fn resolve_dependency(
    tool_name: &str,
    version: &str,
    fetched: Option<&RegistryTool>,
    host: &Host,
) -> (r: Result<ResolvedDependency, ResolveError>)
    ensures
        fetched is None ==> (r matches Err(ResolveError::NotFound { name }) && name@ == tool_name@),
        fetched matches Some(t) ==> ({
            let key = expanded_version(version@, host.arch@, host.os@);
            let p = chosen_release(t.releases@, key);
            &&& p < 0 ==> (r matches Err(ResolveError::VersionNotFound { name, version: v })
                && name@ == tool_name@ && v@ == key)
            &&& p >= 0 ==> (r matches Ok(d) && d.name@ == t.name@ && d.version@ == key && d.url@
                == t.releases@[p].1.url@ && d.hash@ == t.releases@[p].1.hash@)
        }),
{
    match fetched {
        None => Err(ResolveError::NotFound { name: tool_name.to_owned() }),
        Some(tool) => {
            let key = expand_version(version, host);
            match choose_release(&tool.releases, key.as_str()) {
                Some(i) => {
                    let release = &tool.releases[i].1;
                    Ok(
                        ResolvedDependency {
                            name: tool.name.clone(),
                            version: key,
                            url: release.url.clone(),
                            hash: release.hash.clone(),
                        },
                    )
                },
                None => Err(
                    ResolveError::VersionNotFound { name: tool_name.to_owned(), version: key },
                ),
            }
        },
    }
}

/// A version key that names the host's architecture and operating system.
pub open spec fn offered_on(key: Seq<char>, arch: Seq<char>, os: Seq<char>) -> bool {
    contains_seq(key, arch) && contains_seq(key, os)
}

/// Two releases with equal keys, URLs and hashes.
pub open spec fn same_release(a: (String, ReleaseInfo), b: (String, ReleaseInfo)) -> bool {
    a.0@ == b.0@ && a.1.url@ == b.1.url@ && a.1.hash@ == b.1.hash@
}

/// `x` is one of the releases `vs`, as far as plain values tell.
pub open spec fn listed_in(x: (String, ReleaseInfo), vs: Seq<(String, ReleaseInfo)>) -> bool {
    exists|j: int| 0 <= j < vs.len() && #[trigger] same_release(x, vs[j])
}

/// The keys of releases as plain values.
pub open spec fn release_keys(vs: Seq<(String, ReleaseInfo)>) -> Seq<Seq<char>> {
    vs.map_values(|v: (String, ReleaseInfo)| v.0@)
}

/// The keys of `keys` offered on the host, in their order.
pub open spec fn offered(keys: Seq<Seq<char>>, arch: Seq<char>, os: Seq<char>) -> Seq<Seq<char>>
    decreases keys.len(),
{
    if keys.len() == 0 {
        Seq::empty()
    } else {
        let prev = offered(keys.drop_last(), arch, os);
        if offered_on(keys.last(), arch, os) {
            prev.push(keys.last())
        } else {
            prev
        }
    }
}

/// Keeps the releases whose key names the host's architecture and
/// operating system, in their order.
pub fn filter_versions(versions: &Vec<(String, ReleaseInfo)>, host: &Host) -> (r: Vec<
    (String, ReleaseInfo),
>)
    ensures
        release_keys(r@) == offered(release_keys(versions@), host.arch@, host.os@),
        forall|i: int| 0 <= i < r@.len() ==> #[trigger] listed_in(r@[i], versions@),
{
    let mut out: Vec<(String, ReleaseInfo)> = Vec::new();
    let mut i: usize = 0;
    while i < versions.len()
        invariant
            i <= versions@.len(),
            release_keys(out@) == offered(
                release_keys(versions@).subrange(0, i as int),
                host.arch@,
                host.os@,
            ),
            forall|a: int| 0 <= a < out@.len() ==> #[trigger] listed_in(out@[a], versions@),
        decreases versions.len() - i,
    {
        let ghost keys = release_keys(versions@);
        assert(keys.subrange(0, i + 1).drop_last() =~= keys.subrange(0, i as int));
        let key = versions[i].0.as_str();
        if contains(key, host.arch.as_str()) && contains(key, host.os.as_str()) {
            let ghost before = out@;
            out.push((versions[i].0.clone(), versions[i].1.duplicate()));
            assert(release_keys(out@) =~= release_keys(before).push(keys[i as int]));
            assert forall|a: int| 0 <= a < out@.len() implies #[trigger] listed_in(
                out@[a],
                versions@,
            ) by {
                if a == out@.len() - 1 {
                    assert(same_release(out@[a], versions@[i as int]));
                } else {
                    assert(out@[a] == before[a]);
                }
            }
        }
        i += 1;
    }
    assert(release_keys(versions@).subrange(0, i as int) =~= release_keys(versions@));
    out
}

} // verus!
