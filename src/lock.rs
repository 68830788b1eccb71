//! The lockfile: the exact snapshot of the manifest's tools, and its
//! synchronisation from the manifest through the resolver.
use vstd::prelude::*;
use crate::registry::{chosen_release, resolve_dependency, RegistryTool};
use crate::text::str_eq;
use crate::toml::{DepSeq, FrateToml};
use crate::util::{expanded_version, Host};

verus! {

/// A package as plain values: name, version, source URL and hash.
pub type PackageView = (Seq<char>, Seq<char>, Seq<char>, Seq<char>);

/// A locked package: a resolved version with its source and hash.
pub struct LockedPackage {
    /// Name of the package.
    pub name: String,
    /// The version that was resolved, without a target triple.
    pub version: String,
    /// Download URL of the archive.
    pub source: String,
    /// SHA-256 hash of the archive, maybe tagged `sha256:`.
    pub hash: String,
}

impl View for LockedPackage {
    type V = PackageView;

    open spec fn view(&self) -> PackageView {
        (self.name@, self.version@, self.source@, self.hash@)
    }
}

impl LockedPackage {
    /// A field-by-field copy.
    pub fn duplicate(&self) -> (r: LockedPackage)
        ensures
            r@ == self@,
    {
        LockedPackage {
            name: self.name.clone(),
            version: self.version.clone(),
            source: self.source.clone(),
            hash: self.hash.clone(),
        }
    }
}

/// The contents of a lockfile: every locked package of a project.
pub struct FrateLock {
    pub packages: Vec<LockedPackage>,
}

impl View for FrateLock {
    type V = Seq<PackageView>;

    open spec fn view(&self) -> Seq<PackageView> {
        self.packages@.map_values(|p: LockedPackage| p@)
    }
}

/// Some package of `ps` has this name.
pub open spec fn has_package(ps: Seq<PackageView>, name: Seq<char>) -> bool {
    exists|i: int| 0 <= i < ps.len() && ps[i].0 == name
}

/// No two packages of `ps` share a name.
pub open spec fn package_names_unique(ps: Seq<PackageView>) -> bool {
    forall|i: int, j: int| 0 <= i < j < ps.len() ==> ps[i].0 != ps[j].0
}

/// The registry document that was fetched for `name`, if any.
pub open spec fn document_for(fetched: Seq<(String, RegistryTool)>, name: Seq<char>) -> Option<
    RegistryTool,
>
    decreases fetched.len(),
{
    if fetched.len() == 0 {
        None
    } else if fetched.last().0@ == name {
        Some(fetched.last().1)
    } else {
        document_for(fetched.drop_last(), name)
    }
}

/// The package that a dependency locks to, when its document lists a
/// release for it on the host.
pub open spec fn locked_for(
    doc: Option<RegistryTool>,
    version: Seq<char>,
    arch: Seq<char>,
    os: Seq<char>,
) -> Option<PackageView> {
    match doc {
        None => None,
        Some(t) => {
            let p = chosen_release(t.releases@, expanded_version(version, arch, os));
            if p >= 0 {
                Some((t.name@, version, t.releases@[p].1.url@, t.releases@[p].1.hash@))
            } else {
                None
            }
        },
    }
}

/// The package that the dependency `d` locks to.
pub open spec fn dependency_locks_to(
    d: (Seq<char>, Seq<char>),
    fetched: Seq<(String, RegistryTool)>,
    arch: Seq<char>,
    os: Seq<char>,
) -> Option<PackageView> {
    locked_for(document_for(fetched, d.0), d.1, arch, os)
}

/// The packages of a lockfile synchronised from the dependencies `deps`:
/// each dependency in turn is resolved; one that resolves is appended unless
/// a package of its name is there already; one that does not is left out.
pub open spec fn synced(
    deps: DepSeq,
    fetched: Seq<(String, RegistryTool)>,
    arch: Seq<char>,
    os: Seq<char>,
) -> Seq<PackageView>
    decreases deps.len(),
{
    if deps.len() == 0 {
        Seq::empty()
    } else {
        let prev = synced(deps.drop_last(), fetched, arch, os);
        match dependency_locks_to(deps.last(), fetched, arch, os) {
            Some(p) => if has_package(prev, p.0) {
                prev
            } else {
                prev.push(p)
            },
            None => prev,
        }
    }
}

/// Checks whether a package with the given name is in the lockfile.
pub fn is_locked(name: &str, lock: &FrateLock) -> (r: bool)
    ensures
        r == has_package(lock@, name@),
{
    let mut i: usize = 0;
    while i < lock.packages.len()
        invariant
            i <= lock@.len(),
            lock@.len() == lock.packages@.len(),
            forall|k: int| 0 <= k < i ==> lock@[k].0 != name@,
        decreases lock.packages.len() - i,
    {
        if str_eq(lock.packages[i].name.as_str(), name) {
            assert(lock@[i as int].0 == name@);
            return true;
        }
        i += 1;
    }
    false
}

/// Returns the first locked package of the given name, if there is one.
pub fn get_locked(name: &str, lock: &FrateLock) -> (r: Option<LockedPackage>)
    ensures
        r is None <==> !has_package(lock@, name@),
        r matches Some(p) ==> exists|i: int|
            0 <= i < lock@.len() && lock@[i] == p@ && forall|k: int| 0 <= k < i ==> lock@[k].0 != name@,
{
    let mut i: usize = 0;
    while i < lock.packages.len()
        invariant
            i <= lock@.len(),
            lock@.len() == lock.packages@.len(),
            forall|k: int| 0 <= k < i ==> lock@[k].0 != name@,
        decreases lock.packages.len() - i,
    {
        if str_eq(lock.packages[i].name.as_str(), name) {
            let p = lock.packages[i].duplicate();
            assert(lock@[i as int] == p@);
            return Some(p);
        }
        i += 1;
    }
    None
}

fn find_document<'a>(fetched: &'a Vec<(String, RegistryTool)>, name: &str) -> (r: Option<
    &'a RegistryTool,
>)
    ensures
        r is None ==> document_for(fetched@, name@) is None,
        r matches Some(t) ==> document_for(fetched@, name@) == Some(*t),
{
    let mut i: usize = fetched.len();
    assert(fetched@.subrange(0, i as int) =~= fetched@);
    while i > 0
        invariant
            i <= fetched@.len(),
            document_for(fetched@, name@) == document_for(fetched@.subrange(0, i as int), name@),
        decreases i,
    {
        assert(fetched@.subrange(0, i as int).drop_last() =~= fetched@.subrange(0, i - 1));
        if str_eq(fetched[i - 1].0.as_str(), name) {
            return Some(&fetched[i - 1].1);
        }
        i -= 1;
    }
    None
}

impl FrateLock {
    /// A lockfile without packages.
    pub fn new() -> (r: FrateLock)
        ensures
            r@.len() == 0,
    {
        FrateLock { packages: Vec::new() }
    }

    /// Rebuilds the lockfile from the manifest. `fetched` pairs each tool
    /// name with the registry document that could be fetched for it. Every
    /// dependency, in the manifest's order, is resolved for the host; those
    /// that resolve are locked, the others are left out, and resolution of
    /// the rest goes on.
    pub fn sync(&mut self, toml: &FrateToml, fetched: &Vec<(String, RegistryTool)>, host: &Host)
        ensures
            final(self)@ == synced(toml.dependencies@, fetched@, host.arch@, host.os@),
    {
        self.packages = Vec::new();
        let n = toml.dependencies.len();
        let mut i: usize = 0;
        assert(self@ =~= synced(toml.dependencies@.subrange(0, 0), fetched@, host.arch@, host.os@));
        while i < n
            invariant
                i <= n,
                n == toml.dependencies@.len(),
                self@ == synced(toml.dependencies@.subrange(0, i as int), fetched@, host.arch@, host.os@),
            decreases n - i,
        {
            let ghost deps = toml.dependencies@;
            let (name, version) = toml.dependencies.entry(i);
            assert(deps.subrange(0, i + 1).drop_last() =~= deps.subrange(0, i as int));
            assert(deps.subrange(0, i + 1).last() == deps[i as int]);
            let doc = find_document(fetched, name);
            match resolve_dependency(name, version, doc, host) {
                Ok(resolved) => {
                    let locked = LockedPackage {
                        name: resolved.name,
                        version: version.to_owned(),
                        source: resolved.url,
                        hash: resolved.hash,
                    };
                    assert(dependency_locks_to(deps[i as int], fetched@, host.arch@, host.os@) == Some(
                        locked@,
                    ));
                    if !is_locked(locked.name.as_str(), self) {
                        let ghost before = self@;
                        self.packages.push(locked);
                        assert(self@ =~= before.push(locked@));
                    }
                },
                Err(_) => {
                    assert(dependency_locks_to(deps[i as int], fetched@, host.arch@, host.os@) is None);
                },
            }
            i += 1;
        }
        assert(toml.dependencies@.subrange(0, n as int) =~= toml.dependencies@);
    }
}

/// Synchronising never locks two packages of one name.
pub proof fn lemma_synced_names_unique(
    deps: DepSeq,
    fetched: Seq<(String, RegistryTool)>,
    arch: Seq<char>,
    os: Seq<char>,
)
    ensures
        package_names_unique(synced(deps, fetched, arch, os)),
    decreases deps.len(),
{
    if deps.len() > 0 {
        lemma_synced_names_unique(deps.drop_last(), fetched, arch, os);
    }
}

/// Synchronising a manifest of two tools, of which the first resolves and
/// the second does not, locks the first alone, and nothing else.
pub proof fn lemma_sync_leaves_out_unresolved(
    deps: DepSeq,
    fetched: Seq<(String, RegistryTool)>,
    arch: Seq<char>,
    os: Seq<char>,
)
    requires
        deps.len() == 2,
        dependency_locks_to(deps[0], fetched, arch, os) is Some,
        dependency_locks_to(deps[1], fetched, arch, os) is None,
    ensures
        synced(deps, fetched, arch, os) == seq![
            dependency_locks_to(deps[0], fetched, arch, os).unwrap(),
        ],
{
    let first = deps.drop_last();
    assert(first.drop_last() =~= Seq::<(Seq<char>, Seq<char>)>::empty());
    assert(first.last() == deps[0]);
    assert(synced(first.drop_last(), fetched, arch, os) =~= Seq::<PackageView>::empty());
    assert(synced(first, fetched, arch, os) =~= seq![
        dependency_locks_to(deps[0], fetched, arch, os).unwrap(),
    ]);
}

} // verus!
