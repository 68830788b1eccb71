//! The project manifest: project metadata and the declared tools.
use vstd::prelude::*;
use crate::text::str_eq;
use crate::util::{is_valid_version, valid_version};

verus! {

/// Tool names paired with version requirements, in the order they were declared.
pub type DepSeq = Seq<(Seq<char>, Seq<char>)>;

/// No two entries share a name.
pub open spec fn names_unique(s: DepSeq) -> bool {
    forall|i: int, j: int| 0 <= i < j < s.len() ==> s[i].0 != s[j].0
}

/// Position of the last entry named `k`, or -1.
pub open spec fn key_position(s: DepSeq, k: Seq<char>) -> int
    decreases s.len(),
{
    if s.len() == 0 {
        -1
    } else if s.last().0 == k {
        s.len() - 1
    } else {
        key_position(s.drop_last(), k)
    }
}

/// The version required for `k`, if `k` is declared.
pub open spec fn lookup(s: DepSeq, k: Seq<char>) -> Option<Seq<char>> {
    if key_position(s, k) >= 0 {
        Some(s[key_position(s, k)].1)
    } else {
        None
    }
}

pub proof fn lemma_key_position(s: DepSeq, k: Seq<char>)
    ensures
        -1 <= key_position(s, k) < s.len(),
        key_position(s, k) >= 0 ==> s[key_position(s, k)].0 == k,
        key_position(s, k) == -1 <==> forall|i: int| 0 <= i < s.len() ==> s[i].0 != k,
    decreases s.len(),
{
    if s.len() > 0 {
        lemma_key_position(s.drop_last(), k);
        if s.last().0 != k && key_position(s, k) == -1 {
            assert forall|i: int| 0 <= i < s.len() implies s[i].0 != k by {
                if i < s.len() - 1 {
                    assert(s.drop_last()[i] == s[i]);
                }
            }
        }
    }
}

/// The tools a manifest declares: a map from tool name to version
/// requirement that keeps the order of declaration.
pub struct Dependencies {
    entries: Vec<(String, String)>,
}

impl View for Dependencies {
    type V = DepSeq;

    closed spec fn view(&self) -> DepSeq {
        self.entries@.map_values(|e: (String, String)| (e.0@, e.1@))
    }
}

impl Dependencies {
    #[verifier::type_invariant]
    closed spec fn inv(&self) -> bool {
        names_unique(self@)
    }

    /// No dependency at all.
    pub fn new() -> (r: Dependencies)
        ensures
            r@ == Seq::<(Seq<char>, Seq<char>)>::empty(),
    {
        let r = Dependencies { entries: Vec::new() };
        assert(r@ =~= Seq::<(Seq<char>, Seq<char>)>::empty());
        r
    }

    pub fn len(&self) -> (r: usize)
        ensures
            r == self@.len(),
    {
        self.entries.len()
    }

    pub fn is_empty(&self) -> (r: bool)
        ensures
            r == (self@.len() == 0),
    {
        self.entries.len() == 0
    }

    /// The name and version requirement of the `i`-th declared tool.
    pub fn entry(&self, i: usize) -> (r: (&str, &str))
        requires
            i < self@.len(),
        ensures
            r.0@ == self@[i as int].0,
            r.1@ == self@[i as int].1,
    {
        let e = &self.entries[i];
        (e.0.as_str(), e.1.as_str())
    }

    fn position(&self, name: &str) -> (r: Option<usize>)
        ensures
            r is None ==> key_position(self@, name@) == -1,
            r matches Some(i) ==> key_position(self@, name@) == i,
    {
        let mut i: usize = self.entries.len();
        assert(self@.subrange(0, i as int) =~= self@);
        while i > 0
            invariant
                i <= self@.len(),
                self@.len() == self.entries@.len(),
                key_position(self@, name@) == key_position(self@.subrange(0, i as int), name@),
            decreases i,
        {
            assert(self@.subrange(0, i as int).drop_last() =~= self@.subrange(0, i - 1));
            if str_eq(self.entries[i - 1].0.as_str(), name) {
                return Some(i - 1);
            }
            i -= 1;
        }
        None
    }

    /// Whether a tool of this name is declared.
    pub fn contains_key(&self, name: &str) -> (r: bool)
        ensures
            r == (lookup(self@, name@) is Some),
    {
        self.position(name).is_some()
    }

    /// The version required for a tool, if it is declared.
    pub fn get(&self, name: &str) -> (r: Option<String>)
        ensures
            r matches Some(v) ==> lookup(self@, name@) == Some(v@),
            r is None ==> lookup(self@, name@) is None,
    {
        proof {
            lemma_key_position(self@, name@);
        }
        match self.position(name) {
            Some(i) => Some(self.entries[i].1.clone()),
            None => None,
        }
    }

    /// Declares a tool, or replaces the requirement of one already declared
    /// in place; returns the requirement it replaced.
    pub fn insert(&mut self, name: String, version: String) -> (r: Option<String>)
        ensures
            key_position(old(self)@, name@) == -1 ==> final(self)@ == old(self)@.push(
                (name@, version@),
            ) && r is None,
            key_position(old(self)@, name@) >= 0 ==> final(self)@ == old(self)@.update(
                key_position(old(self)@, name@),
                (name@, version@),
            ) && (r matches Some(v) && lookup(old(self)@, name@) == Some(v@)),
    {
        proof {
            use_type_invariant(&*self);
            lemma_key_position(self@, name@);
        }
        match self.position(name.as_str()) {
            Some(i) => {
                let old_version = self.entries[i].1.clone();
                let ghost before = self@;
                let mut entries: Vec<(String, String)> = Vec::new();
                core::mem::swap(&mut self.entries, &mut entries);
                entries.set(i, (name, version));
                proof {
                    assert(entries@.map_values(|e: (String, String)| (e.0@, e.1@)) =~= before.update(
                        i as int,
                        (name@, version@),
                    ));
                }
                self.entries = entries;
                Some(old_version)
            },
            None => {
                let ghost before = self@;
                let mut entries: Vec<(String, String)> = Vec::new();
                core::mem::swap(&mut self.entries, &mut entries);
                entries.push((name, version));
                proof {
                    assert(entries@.map_values(|e: (String, String)| (e.0@, e.1@)) =~= before.push(
                        (name@, version@),
                    ));
                }
                self.entries = entries;
                None
            },
        }
    }

    /// Withdraws the tool of this name, if it is declared; the others keep their order.
    pub fn remove(&mut self, name: &str) -> (r: Option<String>)
        ensures
            key_position(old(self)@, name@) == -1 ==> final(self)@ == old(self)@ && r is None,
            key_position(old(self)@, name@) >= 0 ==> final(self)@ == old(self)@.remove(
                key_position(old(self)@, name@),
            ) && (r matches Some(v) && lookup(old(self)@, name@) == Some(v@)),
            lookup(final(self)@, name@) is None,
    {
        proof {
            use_type_invariant(&*self);
            lemma_key_position(self@, name@);
        }
        match self.position(name) {
            Some(i) => {
                let ghost before = self@;
                let mut entries: Vec<(String, String)> = Vec::new();
                core::mem::swap(&mut self.entries, &mut entries);
                let (_, v) = entries.remove(i);
                let ghost after = entries@.map_values(|e: (String, String)| (e.0@, e.1@));
                proof {
                    assert(after =~= before.remove(i as int));
                    assert forall|j: int| 0 <= j < after.len() implies after[j].0 != name@ by {
                        if j < i {
                            assert(after[j] == before[j]);
                        } else {
                            assert(after[j] == before[j + 1]);
                        }
                    }
                    lemma_key_position(after, name@);
                }
                self.entries = entries;
                Some(v)
            },
            None => None,
        }
    }
}

/// Basic metadata of a project.
pub struct Project {
    /// The name of the project.
    pub name: String,
    /// The version of the project.
    pub version: String,
}

/// The manifest of a project: its metadata and the tools it declares.
pub struct FrateToml {
    pub project: Project,
    pub dependencies: Dependencies,
}

/// Why a dependency could not be added to a manifest.
pub enum ManifestError {
    /// The version requirement is not a semantic version.
    InvalidVersion { version: String },
    /// A tool of that name is already declared.
    DuplicateDependency { name: String },
}

impl ManifestError {
    /// A sentence that describes the error.
    pub fn message(&self) -> (r: String)
        ensures
            self matches ManifestError::InvalidVersion { version } ==> r@ == "Invalid version: "@
                + version@,
            self matches ManifestError::DuplicateDependency { name } ==> r@ == "Dependency "@ + name@
                + " already exists"@,
    {
        match self {
            ManifestError::InvalidVersion { version } => crate::text::concat(
                "Invalid version: ",
                version.as_str(),
            ),
            ManifestError::DuplicateDependency { name } => crate::text::concat3(
                "Dependency ",
                name.as_str(),
                " already exists",
            ),
        }
    }
}

impl FrateToml {
    /// A manifest for the project `name` at version `0.1.0` that declares no tool.
    pub fn default(name: &str) -> (r: FrateToml)
        ensures
            r.project.name@ == name@,
            r.project.version@ == "0.1.0"@,
            r.dependencies@.len() == 0,
    {
        FrateToml {
            project: Project { name: name.to_owned(), version: "0.1.0".to_owned() },
            dependencies: Dependencies::new(),
        }
    }

    /// Declares a tool at a version. Fails, and changes nothing, when the
    /// version is invalid or the tool is already declared.
    pub fn add(&mut self, name: &str, version: &str) -> (r: Result<(), ManifestError>)
        ensures
            final(self).project == old(self).project,
            !valid_version(version@) ==> (r matches Err(ManifestError::InvalidVersion { version: v })
                && v@ == version@),
            valid_version(version@) && lookup(old(self).dependencies@, name@) is Some ==> (r matches Err(
                ManifestError::DuplicateDependency { name: n },
            ) && n@ == name@),
            r is Err ==> final(self).dependencies@ == old(self).dependencies@,
            r is Ok <==> valid_version(version@) && lookup(old(self).dependencies@, name@) is None,
            r is Ok ==> final(self).dependencies@ == old(self).dependencies@.push((name@, version@)),
    {
        if !is_valid_version(version) {
            return Err(ManifestError::InvalidVersion { version: version.to_owned() });
        }
        if self.dependencies.contains_key(name) {
            return Err(ManifestError::DuplicateDependency { name: name.to_owned() });
        }
        proof {
            lemma_key_position(self.dependencies@, name@);
        }
        self.dependencies.insert(name.to_owned(), version.to_owned());
        Ok(())
    }

    /// Withdraws a tool; nothing happens if it is not declared.
    pub fn remove(&mut self, name: &str)
        ensures
            final(self).project == old(self).project,
            key_position(old(self).dependencies@, name@) == -1 ==> final(self).dependencies@ == old(
                self,
            ).dependencies@,
            key_position(old(self).dependencies@, name@) >= 0 ==> final(self).dependencies@ == old(
                self,
            ).dependencies@.remove(key_position(old(self).dependencies@, name@)),
            lookup(final(self).dependencies@, name@) is None,
    {
        self.dependencies.remove(name);
    }
}

} // verus!
