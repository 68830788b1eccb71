//! The install protocol. An install session decides, step by step, what is
//! to be done to install every package of a lockfile: the caller performs
//! each action (file system, network) and reports what came of it, and the
//! session answers with the next action.
//!
//! Per package: the archive type is checked first, then the cache is looked
//! up; a cached archive is read, any other is downloaded; the bytes are
//! checked against the locked hash before anything is unpacked; a fresh
//! download is cached once it has passed; the archive is unpacked; the
//! primary executable is chosen; a shim is made for it. A package whose
//! install fails stops the whole session: the packages after it are not
//! attempted.
use vstd::prelude::*;
use crate::global::cache::{archive_file_name, archive_name_of, cache_path_of, get_cached_archive};
use crate::integrity::{archive_digest, archive_hash, hash_matches};
use crate::locate::{is_candidate, no_later, select_binary, FileEntry};
use crate::lock::{FrateLock, LockedPackage, PackageView};
use crate::shims::{shim_path, shim_path_of};
use crate::text::{ends_with, is_suffix};
use crate::util::{
    bin_dir_of, file_stem, frate_dir_of, get_frate_bin_dir, get_frate_dir, get_frate_shims_dir,
    join_path, joined, shims_dir_of, stem_of, strip_hash_tag, Host,
};

verus! {

/// The archive formats that can be unpacked.
#[derive(PartialEq, Eq, Structural, Clone, Copy, Debug)]
pub enum ArchiveKind {
    Zip,
    TarGz,
}

/// The format of the archive at `url`, by its suffix.
pub open spec fn archive_kind_of(url: Seq<char>) -> Option<ArchiveKind> {
    if is_suffix(".zip"@, url) {
        Some(ArchiveKind::Zip)
    } else if is_suffix(".tar.gz"@, url) {
        Some(ArchiveKind::TarGz)
    } else {
        None
    }
}

/// Returns the format of the archive at `url`: `.zip` or `.tar.gz`; `None`
/// for any other suffix.
pub fn archive_kind(url: &str) -> (r: Option<ArchiveKind>)
    ensures
        r == archive_kind_of(url@),
{
    if ends_with(url, ".zip") {
        Some(ArchiveKind::Zip)
    } else if ends_with(url, ".tar.gz") {
        Some(ArchiveKind::TarGz)
    } else {
        None
    }
}

/// Why an install stopped.
pub enum InstallError {
    /// The archive is neither `.zip` nor `.tar.gz`.
    UnsupportedArchiveType { file: String },
    /// The download answered with a status outside 200..300 (`Some`), or
    /// did not answer at all (`None`).
    DownloadError { url: String, status: Option<u16> },
    /// The archive's digest is not the locked one.
    IntegrityError { expected: String, actual: String, path: String },
    /// The unpacked archive holds no executable.
    BinaryNotFound { name: String },
    /// A directory or file could not be created, written or removed.
    FilesystemError { path: String },
    /// The shim could not be made.
    ShimCreationError { path: String },
    /// What was reported does not answer the action that was asked for.
    UnexpectedEvent,
}

/// What the caller is to do next.
pub enum InstallAction {
    /// Create these three directories where they are missing.
    EnsureDirs { frate_dir: String, bin_dir: String, shims_dir: String },
    /// Tell whether the cache holds a file at `path`.
    LookupCache { path: String },
    /// Read the cached file at `path` and report its bytes.
    ReadCache { path: String },
    /// Fetch `url` and report the status and body, or that it failed.
    Download { url: String },
    /// Write the session's archive to the cache file at `path`.
    StoreCache { path: String },
    /// Create `dest_dir` where it is missing and unpack the session's archive into it.
    Extract { kind: ArchiveKind, dest_dir: String },
    /// Report every regular file under `dir`, recursively.
    ListFiles { dir: String },
    /// Make `shim` forward to `target`, replacing what is there.
    CreateShim { target: String, shim: String },
    /// Every package is installed.
    Finished,
    /// The install stopped on this error.
    Failed(InstallError),
}

/// What came of the last action.
pub enum InstallEvent {
    /// The directories, cache write, unpacking or shim are done.
    Done,
    /// Whether the cache holds the file.
    CacheLookup { present: bool },
    /// The bytes of the cached archive.
    Archive { bytes: Vec<u8> },
    /// The answer to the download.
    Response { status: u16, body: Vec<u8> },
    /// The download got no answer.
    Unreachable,
    /// The regular files under the directory.
    Files { files: Vec<FileEntry> },
}

/// Where a session stands.
#[derive(PartialEq, Eq, Structural, Clone, Copy, Debug)]
pub enum Phase {
    /// Waiting for the directories.
    Dirs,
    /// Waiting for the cache lookup of the current package.
    Lookup,
    /// Waiting for the cached archive.
    Reading,
    /// Waiting for the download.
    Downloading,
    /// Waiting for the verified download to be cached.
    Storing,
    /// Waiting for the verified archive to be unpacked.
    Extracting,
    /// Waiting for the files of the unpacked archive.
    Listing,
    /// Waiting for the shim.
    Linking,
    Finished,
    Failed,
}

/// Whether `e` answers the action that a session in `phase` has asked for.
pub open spec fn answers(phase: Phase, e: InstallEvent) -> bool {
    match phase {
        Phase::Dirs | Phase::Storing | Phase::Extracting | Phase::Linking => e is Done,
        Phase::Lookup => e is CacheLookup,
        Phase::Reading => e is Archive,
        Phase::Downloading => e is Response || e is Unreachable,
        Phase::Listing => e is Files,
        Phase::Finished | Phase::Failed => false,
    }
}

/// A session as plain values.
pub struct SessionView {
    pub packages: Seq<PackageView>,
    pub frate_dir: Seq<char>,
    pub bin_dir: Seq<char>,
    pub shims_dir: Seq<char>,
    pub cache_dir: Seq<char>,
    pub windows: bool,
    /// The package being installed.
    pub index: int,
    pub phase: Phase,
    /// The archive of the current package, once it has passed the hash check.
    pub archive: Seq<u8>,
}

impl SessionView {
    pub open spec fn package(self) -> PackageView {
        self.packages[self.index]
    }

    /// The directory that the current package is unpacked into.
    pub open spec fn dest_dir(self) -> Seq<char> {
        joined(self.bin_dir, self.package().0, self.windows)
    }

    /// The cache entry of the current package's archive.
    pub open spec fn cache_path(self) -> Seq<char> {
        cache_path_of(self.cache_dir, self.package().2, self.windows)
    }

    /// The digest that the current package's archive must have.
    pub open spec fn expected_hash(self) -> Seq<char> {
        strip_hash_tag(self.package().3)
    }

    /// Both sessions install the same packages into the same places.
    pub open spec fn same_setup(self, other: SessionView) -> bool {
        self.packages == other.packages && self.frate_dir == other.frate_dir && self.bin_dir
            == other.bin_dir && self.shims_dir == other.shims_dir && self.cache_dir
            == other.cache_dir && self.windows == other.windows
    }
}

/// How a session turns to the package at `k`: done when there is none; a
/// failure, before anything else, when its archive type is unsupported;
/// else a lookup of its cache entry.
pub open spec fn begins(n: SessionView, r: InstallAction, k: int) -> bool {
    &&& n.index == k
    &&& if k >= n.packages.len() {
        n.phase == Phase::Finished && r is Finished
    } else {
        match archive_kind_of(n.packages[k].2) {
            None => n.phase == Phase::Failed && (r matches InstallAction::Failed(
                InstallError::UnsupportedArchiveType { file },
            ) && file@ == archive_name_of(n.packages[k].2)),
            Some(_) => n.phase == Phase::Lookup && (r matches InstallAction::LookupCache { path }
                && path@ == n.cache_path()),
        }
    }
}

/// The action that unpacks the current package's archive.
pub open spec fn extracts(o: SessionView, r: InstallAction) -> bool {
    r matches InstallAction::Extract { kind, dest_dir } && archive_kind_of(o.package().2) == Some(
        kind,
    ) && dest_dir@ == o.dest_dir()
}

/// The session that installs the packages of a lockfile.
pub struct InstallSession {
    packages: Vec<LockedPackage>,
    frate_dir: String,
    bin_dir: String,
    shims_dir: String,
    cache_dir: String,
    host: Host,
    index: usize,
    phase: Phase,
    archive: Vec<u8>,
}

impl View for InstallSession {
    type V = SessionView;

    closed spec fn view(&self) -> SessionView {
        SessionView {
            packages: self.packages@.map_values(|p: LockedPackage| p@),
            frate_dir: self.frate_dir@,
            bin_dir: self.bin_dir@,
            shims_dir: self.shims_dir@,
            cache_dir: self.cache_dir@,
            windows: self.host.is_windows_spec(),
            index: self.index as int,
            phase: self.phase,
            archive: self.archive@,
        }
    }
}

/// A phase in which one package is being installed.
pub open spec fn is_active(phase: Phase) -> bool {
    !(phase == Phase::Dirs || phase == Phase::Finished || phase == Phase::Failed)
}

impl InstallSession {
    #[verifier::type_invariant]
    closed spec fn inv(&self) -> bool {
        &&& self.index <= self.packages@.len()
        &&& is_active(self.phase) ==> self.index < self.packages@.len() && archive_kind_of(
            self.packages@[self.index as int].source@,
        ) is Some
        &&& (self.phase == Phase::Storing || self.phase == Phase::Extracting) ==> archive_digest(
            self.archive@,
        ) == strip_hash_tag(self.packages@[self.index as int].hash@)
    }

    /// The archive of the current package, for `StoreCache` and `Extract`.
    pub fn archive(&self) -> (r: &Vec<u8>)
        ensures
            r@ == self@.archive,
    {
        &self.archive
    }

    /// Where the session stands.
    pub fn phase(&self) -> (r: Phase)
        ensures
            r == self@.phase,
    {
        self.phase
    }

    fn current(&self) -> (r: &LockedPackage)
        requires
            is_active(self@.phase),
        ensures
            r@ == self@.package(),
    {
        proof {
            use_type_invariant(self);
        }
        &self.packages[self.index]
    }

    fn cache_path(&self) -> (r: String)
        requires
            is_active(self@.phase),
        ensures
            r@ == self@.cache_path(),
    {
        let p = self.current();
        get_cached_archive(self.cache_dir.as_str(), p.source.as_str(), &self.host)
    }

    fn dest_dir(&self) -> (r: String)
        requires
            is_active(self@.phase),
        ensures
            r@ == self@.dest_dir(),
    {
        let p = self.current();
        join_path(self.bin_dir.as_str(), p.name.as_str(), &self.host)
    }

    fn fail(&mut self, err: InstallError) -> (r: InstallAction)
        ensures
            final(self)@ == (SessionView { phase: Phase::Failed, ..old(self)@ }),
            r == InstallAction::Failed(err),
    {
        proof {
            use_type_invariant(&*self);
        }
        self.phase = Phase::Failed;
        InstallAction::Failed(err)
    }

    /// Turns to the package at `k`.
    fn begin(&mut self, k: usize) -> (r: InstallAction)
        requires
            k <= old(self)@.packages.len(),
        ensures
            final(self)@.same_setup(old(self)@),
            final(self)@.archive == old(self)@.archive,
            begins(final(self)@, r, k as int),
    {
        proof {
            use_type_invariant(&*self);
        }
        self.phase = Phase::Finished;
        self.index = k;
        if k == self.packages.len() {
            return InstallAction::Finished;
        }
        let source = &self.packages[k].source;
        match archive_kind(source.as_str()) {
            None => {
                let file = archive_file_name(source.as_str());
                self.fail(InstallError::UnsupportedArchiveType { file })
            },
            Some(_) => {
                self.phase = Phase::Lookup;
                let path = self.cache_path();
                InstallAction::LookupCache { path }
            },
        }
    }

    /// The action that unpacks the current package's archive.
    fn extract(&mut self) -> (r: InstallAction)
        requires
            is_active(old(self)@.phase),
            archive_kind_of(old(self)@.package().2) is Some,
            archive_digest(old(self)@.archive) == old(self)@.expected_hash(),
        ensures
            final(self)@ == (SessionView { phase: Phase::Extracting, ..old(self)@ }),
            extracts(old(self)@, r),
    {
        proof {
            use_type_invariant(&*self);
        }
        let kind = archive_kind(self.current().source.as_str()).unwrap();
        let dest_dir = self.dest_dir();
        self.phase = Phase::Extracting;
        InstallAction::Extract { kind, dest_dir }
    }

    /// Takes what came of the last action and returns the next one.
    pub fn step(&mut self, e: InstallEvent) -> (r: InstallAction)
        ensures
            final(self)@.same_setup(old(self)@),
            !answers(old(self)@.phase, e) ==> final(self)@.phase == Phase::Failed && r
                == InstallAction::Failed(InstallError::UnexpectedEvent),
            old(self)@.phase == Phase::Dirs && e is Done ==> begins(final(self)@, r, 0),
            old(self)@.phase == Phase::Lookup ==> (e matches InstallEvent::CacheLookup { present }
                ==> final(self)@.index == old(self)@.index && (present ==> final(self)@.phase
                == Phase::Reading && (r matches InstallAction::ReadCache { path } && path@ == old(
                self,
            )@.cache_path())) && (!present ==> final(self)@.phase == Phase::Downloading && (r matches InstallAction::Download {
                url,
            } && url@ == old(self)@.package().2))),
            old(self)@.phase == Phase::Reading ==> (e matches InstallEvent::Archive { bytes } ==> ({
                let o = old(self)@;
                let n = final(self)@;
                &&& n.index == o.index
                &&& archive_digest(bytes@) == o.expected_hash() ==> n.archive == bytes@
                    && extracts(o, r) && n.phase == Phase::Extracting
                &&& archive_digest(bytes@) != o.expected_hash() ==> n.phase == Phase::Failed && (r matches InstallAction::Failed(
                    InstallError::IntegrityError { expected, actual, path },
                ) && expected@ == o.expected_hash() && actual@ == archive_digest(bytes@) && path@
                    == o.cache_path())
            })),
            old(self)@.phase == Phase::Downloading ==> (e matches InstallEvent::Response {
                status,
                body,
            } ==> ({
                let o = old(self)@;
                let n = final(self)@;
                &&& n.index == o.index
                &&& !(200 <= status < 300) ==> n.phase == Phase::Failed && (r matches InstallAction::Failed(
                    InstallError::DownloadError { url, status: s },
                ) && url@ == o.package().2 && s == Some(status))
                &&& 200 <= status < 300 && archive_digest(body@) == o.expected_hash() ==> n.archive
                    == body@ && n.phase == Phase::Storing && (r matches InstallAction::StoreCache {
                    path,
                } && path@ == o.cache_path())
                &&& 200 <= status < 300 && archive_digest(body@) != o.expected_hash() ==> n.phase
                    == Phase::Failed && (r matches InstallAction::Failed(
                    InstallError::IntegrityError { expected, actual, path },
                ) && expected@ == o.expected_hash() && actual@ == archive_digest(body@) && path@
                    == o.package().2)
            })),
            old(self)@.phase == Phase::Downloading && e is Unreachable ==> final(self)@.phase
                == Phase::Failed && (r matches InstallAction::Failed(
                InstallError::DownloadError { url, status: None },
            ) && url@ == old(self)@.package().2),
            old(self)@.phase == Phase::Storing && e is Done ==> final(self)@ == (SessionView {
                phase: Phase::Extracting,
                ..old(self)@
            }) && extracts(old(self)@, r),
            old(self)@.phase == Phase::Extracting && e is Done ==> final(self)@ == (SessionView {
                phase: Phase::Listing,
                ..old(self)@
            }) && (r matches InstallAction::ListFiles { dir } && dir@ == old(self)@.dest_dir()),
            old(self)@.phase == Phase::Listing ==> (e matches InstallEvent::Files { files } ==> ({
                let o = old(self)@;
                let n = final(self)@;
                &&& n.index == o.index
                &&& (forall|j: int| 0 <= j < files@.len() ==> !is_candidate(o.windows, files@[j]))
                    ==> n.phase == Phase::Failed && (r matches InstallAction::Failed(
                    InstallError::BinaryNotFound { name },
                ) && name@ == o.package().0)
                &&& (exists|j: int| 0 <= j < files@.len() && is_candidate(o.windows, files@[j]))
                    ==> n.phase == Phase::Linking && (r matches InstallAction::CreateShim {
                    target,
                    shim,
                } && exists|i: int|
                    0 <= i < files@.len() && is_candidate(o.windows, files@[i]) && target@
                        == files@[i].path@ && shim@ == shim_path_of(
                        o.shims_dir,
                        stem_of(files@[i].name@),
                        o.windows,
                    ) && forall|j: int|
                        0 <= j < files@.len() && is_candidate(o.windows, files@[j]) ==> no_later(
                            o.package().0,
                            files@[i],
                            files@[j],
                        ))
            })),
            old(self)@.phase == Phase::Linking && e is Done ==> begins(
                final(self)@,
                r,
                old(self)@.index + 1,
            ),
            r is Extract || r is StoreCache ==> archive_digest(final(self)@.archive) == strip_hash_tag(
                final(self)@.package().3,
            ),
    {
        proof {
            use_type_invariant(&*self);
        }
        match self.phase {
            Phase::Dirs => match e {
                InstallEvent::Done => self.begin(0),
                _ => self.fail(InstallError::UnexpectedEvent),
            },
            Phase::Lookup => match e {
                InstallEvent::CacheLookup { present } => {
                    if present {
                        let path = self.cache_path();
                        self.phase = Phase::Reading;
                        InstallAction::ReadCache { path }
                    } else {
                        let url = self.current().source.clone();
                        self.phase = Phase::Downloading;
                        InstallAction::Download { url }
                    }
                },
                _ => self.fail(InstallError::UnexpectedEvent),
            },
            Phase::Reading => match e {
                InstallEvent::Archive { bytes } => {
                    let actual = archive_hash(bytes.as_slice());
                    let p = self.current();
                    if hash_matches(actual.as_str(), p.hash.as_str()) {
                        self.archive = bytes;
                        proof {
                            reveal_strlit(".zip");
                        }
                        self.extract()
                    } else {
                        let expected = crate::util::format_hash(p.hash.as_str());
                        let path = self.cache_path();
                        self.fail(InstallError::IntegrityError { expected, actual, path })
                    }
                },
                _ => self.fail(InstallError::UnexpectedEvent),
            },
            Phase::Downloading => match e {
                InstallEvent::Response { status, body } => {
                    let url = self.current().source.clone();
                    if !(200 <= status && status < 300) {
                        return self.fail(
                            InstallError::DownloadError { url, status: Some(status) },
                        );
                    }
                    let actual = archive_hash(body.as_slice());
                    let p = self.current();
                    if hash_matches(actual.as_str(), p.hash.as_str()) {
                        self.archive = body;
                        let path = self.cache_path();
                        self.phase = Phase::Storing;
                        InstallAction::StoreCache { path }
                    } else {
                        let expected = crate::util::format_hash(p.hash.as_str());
                        self.fail(InstallError::IntegrityError { expected, actual, path: url })
                    }
                },
                InstallEvent::Unreachable => {
                    let url = self.current().source.clone();
                    self.fail(InstallError::DownloadError { url, status: None })
                },
                _ => self.fail(InstallError::UnexpectedEvent),
            },
            Phase::Storing => match e {
                InstallEvent::Done => self.extract(),
                _ => self.fail(InstallError::UnexpectedEvent),
            },
            Phase::Extracting => match e {
                InstallEvent::Done => {
                    let dir = self.dest_dir();
                    self.phase = Phase::Listing;
                    InstallAction::ListFiles { dir }
                },
                _ => self.fail(InstallError::UnexpectedEvent),
            },
            Phase::Listing => match e {
                InstallEvent::Files { files } => {
                    let name = self.current().name.clone();
                    match select_binary(name.as_str(), &files, &self.host) {
                        None => self.fail(InstallError::BinaryNotFound { name }),
                        Some(i) => {
                            let target = files[i].path.clone();
                            let stem = file_stem(files[i].name.as_str());
                            let shim = shim_path(self.shims_dir.as_str(), stem.as_str(), &self.host);
                            self.phase = Phase::Linking;
                            InstallAction::CreateShim { target, shim }
                        },
                    }
                },
                _ => self.fail(InstallError::UnexpectedEvent),
            },
            Phase::Linking => match e {
                InstallEvent::Done => {
                    let n = self.packages.len();
                    let next = if self.index < n {
                        self.index + 1
                    } else {
                        n
                    };
                    self.begin(next)
                },
                _ => self.fail(InstallError::UnexpectedEvent),
            },
            Phase::Finished | Phase::Failed => self.fail(InstallError::UnexpectedEvent),
        }
    }
}

/// Starts the install of every package of a lockfile into the `.frate`
/// directory of `project_root`, with archives cached under `cache_dir`.
/// The first action creates the directories; then the packages follow in
/// the lockfile's order (see [`InstallSession::step`]).
pub fn install_packages(lock: &FrateLock, project_root: &str, cache_dir: &str, host: &Host) -> (r: (
    InstallSession,
    InstallAction,
))
    ensures
        r.0@.packages == lock@,
        r.0@.frate_dir == frate_dir_of(project_root@, host.is_windows_spec()),
        r.0@.bin_dir == bin_dir_of(project_root@, host.is_windows_spec()),
        r.0@.shims_dir == shims_dir_of(project_root@, host.is_windows_spec()),
        r.0@.cache_dir == cache_dir@,
        r.0@.windows == host.is_windows_spec(),
        r.0@.index == 0,
        r.0@.phase == Phase::Dirs,
        r.0@.archive.len() == 0,
        r.1 matches InstallAction::EnsureDirs { frate_dir, bin_dir, shims_dir } && frate_dir@
            == r.0@.frate_dir && bin_dir@ == r.0@.bin_dir && shims_dir@ == r.0@.shims_dir,
{
    let mut packages: Vec<LockedPackage> = Vec::new();
    let mut i: usize = 0;
    while i < lock.packages.len()
        invariant
            i <= lock@.len(),
            lock@.len() == lock.packages@.len(),
            packages@.map_values(|p: LockedPackage| p@) == lock@.subrange(0, i as int),
        decreases lock.packages.len() - i,
    {
        let ghost before = packages@.map_values(|p: LockedPackage| p@);
        let p = lock.packages[i].duplicate();
        packages.push(p);
        assert(packages@.map_values(|p: LockedPackage| p@) =~= before.push(p@));
        assert(lock@.subrange(0, i + 1) =~= lock@.subrange(0, i as int).push(lock@[i as int]));
        i += 1;
    }
    assert(lock@.subrange(0, i as int) =~= lock@);
    let frate_dir = get_frate_dir(project_root, host);
    let bin_dir = get_frate_bin_dir(project_root, host);
    let shims_dir = get_frate_shims_dir(project_root, host);
    let action = InstallAction::EnsureDirs {
        frate_dir: frate_dir.clone(),
        bin_dir: bin_dir.clone(),
        shims_dir: shims_dir.clone(),
    };
    let session = InstallSession {
        packages,
        frate_dir,
        bin_dir,
        shims_dir,
        cache_dir: cache_dir.to_owned(),
        host: Host { arch: host.arch.clone(), os: host.os.clone() },
        index: 0,
        phase: Phase::Dirs,
        archive: Vec::new(),
    };
    (session, action)
}

/// What uninstalling a package removes: its directory under `bin` and its shim.
pub fn uninstall_targets(project_root: &str, name: &str, host: &Host) -> (r: (String, String))
    ensures
        r.0@ == joined(bin_dir_of(project_root@, host.is_windows_spec()), name@, host.is_windows_spec()),
        r.1@ == shim_path_of(
            shims_dir_of(project_root@, host.is_windows_spec()),
            name@,
            host.is_windows_spec(),
        ),
{
    let bin_dir = get_frate_bin_dir(project_root, host);
    let shims_dir = get_frate_shims_dir(project_root, host);
    (join_path(bin_dir.as_str(), name, host), shim_path(shims_dir.as_str(), name, host))
}

/// What uninstalling a package removes, of what is there: its directory
/// under `bin` where `bin_present`, its shim where `shim_present`. Nothing
/// is removed of a package that was never installed.
pub fn uninstall_package(
    project_root: &str,
    name: &str,
    host: &Host,
    bin_present: bool,
    shim_present: bool,
) -> (r: (Option<String>, Option<String>))
    ensures
        r.0 is Some <==> bin_present,
        r.1 is Some <==> shim_present,
        r.0 matches Some(d) ==> d@ == joined(
            bin_dir_of(project_root@, host.is_windows_spec()),
            name@,
            host.is_windows_spec(),
        ),
        r.1 matches Some(f) ==> f@ == shim_path_of(
            shims_dir_of(project_root@, host.is_windows_spec()),
            name@,
            host.is_windows_spec(),
        ),
{
    let (bin, shim) = uninstall_targets(project_root, name, host);
    (if bin_present {
        Some(bin)
    } else {
        None
    }, if shim_present {
        Some(shim)
    } else {
        None
    })
}

} // verus!
