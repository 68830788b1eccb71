use frate::{
    archive_file_name, archive_hash, archive_kind, entries_to_evict, get_cached_archive,
    hash_matches, install_packages, is_cached, registry_document_url, select_binary, shim_path,
    uninstall_targets, windows_shim_script, ArchiveKind, FileEntry, FrateLock, Host,
    InstallAction, InstallError, InstallEvent, LockedPackage, Phase,
};

const ABC_SHA256: &str = "ba7816bf8f01cfea414140de5dae2223b00361a396177a9cb410ff61f20015ad";

fn linux() -> Host {
    Host { arch: "x86_64".to_string(), os: "linux".to_string() }
}

fn lock_of(source: &str, hash: &str) -> FrateLock {
    FrateLock {
        packages: vec![LockedPackage {
            name: "just".to_string(),
            version: "1.42.1".to_string(),
            source: source.to_string(),
            hash: hash.to_string(),
        }],
    }
}

fn file(path: &str, name: &str, mode: u32) -> FileEntry {
    FileEntry { path: path.to_string(), name: name.to_string(), mode }
}

#[test]
fn digest_of_known_bytes() {
    assert_eq!(archive_hash(b"abc"), ABC_SHA256);
    assert!(hash_matches(ABC_SHA256, &format!("sha256:{}", ABC_SHA256)));
    assert!(hash_matches(ABC_SHA256, ABC_SHA256));
    assert!(!hash_matches(ABC_SHA256, "sha256:00"));
}

#[test]
fn archive_kinds_by_suffix() {
    assert_eq!(archive_kind("https://x/just.tar.gz"), Some(ArchiveKind::TarGz));
    assert_eq!(archive_kind("https://x/just.zip"), Some(ArchiveKind::Zip));
    assert_eq!(archive_kind("https://x/just.tar.xz"), None);
    assert_eq!(archive_kind("https://x/just.gz"), None);
}

#[test]
fn cache_names_and_paths() {
    assert_eq!(archive_file_name("https://x/a/just-1.42.1.tar.gz"), "just-1.42.1.tar.gz");
    assert_eq!(archive_file_name("plain.zip"), "plain.zip");
    assert_eq!(
        get_cached_archive("/home/u/.cache/frate", "https://x/a/just.zip", &linux()),
        "/home/u/.cache/frate/just.zip"
    );
}

#[test]
fn evict_removes_only_matching_entries() {
    let entries = vec![
        "/c/just-1.42.1-x86_64.tar.gz".to_string(),
        "/c/ripgrep-14.zip".to_string(),
        "/c/justfile-tool.zip".to_string(),
    ];
    let gone = entries_to_evict(&entries, "just");
    assert_eq!(gone, vec!["/c/just-1.42.1-x86_64.tar.gz".to_string(), "/c/justfile-tool.zip".to_string()]);
    assert!(entries_to_evict(&entries, "fd").is_empty());
    assert!(is_cached(&entries, "ripgrep"));
    assert!(!is_cached(&entries, "bat"));
}

#[test]
fn primary_executable_prefers_tool_name_then_path() {
    let files = vec![
        file("/b/just/zzz-helper", "zzz-helper", 0o755),
        file("/b/just/README.md", "README.md", 0o644),
        file("/b/just/just", "just", 0o755),
        file("/b/just/completions/just-complete", "just-complete", 0o755),
        file("/b/just/aaa-helper", "aaa-helper", 0o755),
    ];
    assert_eq!(select_binary("just", &files, &linux()), Some(3));
    let others = vec![file("/b/x/zzz", "zzz", 0o755), file("/b/x/aaa", "aaa", 0o700)];
    assert_eq!(select_binary("just", &others, &linux()), Some(1));
    let none = vec![file("/b/x/doc.txt", "doc.txt", 0o644)];
    assert_eq!(select_binary("just", &none, &linux()), None);
}

#[test]
fn shims_and_uninstall_targets() {
    let windows = Host { arch: "x86_64".to_string(), os: "windows".to_string() };
    assert_eq!(shim_path("/p/.frate/shims", "just", &linux()), "/p/.frate/shims/just");
    assert_eq!(shim_path("C:\\p\\.frate\\shims", "just", &windows), "C:\\p\\.frate\\shims\\just.bat");
    assert_eq!(windows_shim_script("C:\\t\\just.exe"), "@echo off\r\ncall \"C:\\t\\just.exe\" %*\r\n");
    let (bin, shim) = uninstall_targets("/p", "never-installed", &linux());
    assert_eq!(bin, "/p/.frate/bin/never-installed");
    assert_eq!(shim, "/p/.frate/shims/never-installed");
}

#[test]
fn registry_location() {
    assert_eq!(
        registry_document_url("just"),
        "https://raw.githubusercontent.com/konni332/frate-registry/refs/heads/master/tools/just.json"
    );
}

fn expect_lookup(a: &InstallAction) {
    match a {
        InstallAction::LookupCache { path } => assert_eq!(path, "/cache/just.tar.gz"),
        _ => panic!("expected a cache lookup"),
    }
}

#[test]
fn install_from_download() {
    let lock = lock_of("https://x/just.tar.gz", &format!("sha256:{}", ABC_SHA256));
    let (mut s, a) = install_packages(&lock, "/p", "/cache", &linux());
    match a {
        InstallAction::EnsureDirs { frate_dir, bin_dir, shims_dir } => {
            assert_eq!(frate_dir, "/p/.frate");
            assert_eq!(bin_dir, "/p/.frate/bin");
            assert_eq!(shims_dir, "/p/.frate/shims");
        }
        _ => panic!("expected the directories first"),
    }
    let a = s.step(InstallEvent::Done);
    expect_lookup(&a);
    match s.step(InstallEvent::CacheLookup { present: false }) {
        InstallAction::Download { url } => assert_eq!(url, "https://x/just.tar.gz"),
        _ => panic!("expected a download"),
    }
    match s.step(InstallEvent::Response { status: 200, body: b"abc".to_vec() }) {
        InstallAction::StoreCache { path } => assert_eq!(path, "/cache/just.tar.gz"),
        _ => panic!("expected the cache write"),
    }
    assert_eq!(s.archive(), &b"abc".to_vec());
    match s.step(InstallEvent::Done) {
        InstallAction::Extract { kind, dest_dir } => {
            assert_eq!(kind, ArchiveKind::TarGz);
            assert_eq!(dest_dir, "/p/.frate/bin/just");
        }
        _ => panic!("expected the extraction"),
    }
    match s.step(InstallEvent::Done) {
        InstallAction::ListFiles { dir } => assert_eq!(dir, "/p/.frate/bin/just"),
        _ => panic!("expected the listing"),
    }
    let files = vec![
        file("/p/.frate/bin/just/LICENSE", "LICENSE", 0o644),
        file("/p/.frate/bin/just/just", "just", 0o755),
    ];
    match s.step(InstallEvent::Files { files }) {
        InstallAction::CreateShim { target, shim } => {
            assert_eq!(target, "/p/.frate/bin/just/just");
            assert_eq!(shim, "/p/.frate/shims/just");
        }
        _ => panic!("expected the shim"),
    }
    assert!(matches!(s.step(InstallEvent::Done), InstallAction::Finished));
    assert_eq!(s.phase(), Phase::Finished);
}

#[test]
fn install_from_cache() {
    let lock = lock_of("https://x/just.tar.gz", ABC_SHA256);
    let (mut s, _) = install_packages(&lock, "/p", "/cache", &linux());
    expect_lookup(&s.step(InstallEvent::Done));
    match s.step(InstallEvent::CacheLookup { present: true }) {
        InstallAction::ReadCache { path } => assert_eq!(path, "/cache/just.tar.gz"),
        _ => panic!("expected a cache read"),
    }
    assert!(matches!(
        s.step(InstallEvent::Archive { bytes: b"abc".to_vec() }),
        InstallAction::Extract { kind: ArchiveKind::TarGz, .. }
    ));
}

#[test]
fn corrupted_archive_fails_integrity_before_extraction() {
    let lock = lock_of("https://x/just.tar.gz", ABC_SHA256);
    let (mut s, _) = install_packages(&lock, "/p", "/cache", &linux());
    s.step(InstallEvent::Done);
    s.step(InstallEvent::CacheLookup { present: true });
    match s.step(InstallEvent::Archive { bytes: b"abd".to_vec() }) {
        InstallAction::Failed(InstallError::IntegrityError { expected, actual, path }) => {
            assert_eq!(expected, ABC_SHA256);
            assert_ne!(actual, ABC_SHA256);
            assert_eq!(actual, archive_hash(b"abd"));
            assert_eq!(path, "/cache/just.tar.gz");
        }
        _ => panic!("expected an integrity error"),
    }
    assert_eq!(s.phase(), Phase::Failed);
    assert!(matches!(s.step(InstallEvent::Done), InstallAction::Failed(InstallError::UnexpectedEvent)));
}

#[test]
fn corrupted_download_is_neither_cached_nor_extracted() {
    let lock = lock_of("https://x/just.zip", ABC_SHA256);
    let (mut s, _) = install_packages(&lock, "/p", "/cache", &linux());
    s.step(InstallEvent::Done);
    s.step(InstallEvent::CacheLookup { present: false });
    match s.step(InstallEvent::Response { status: 200, body: b"xbc".to_vec() }) {
        InstallAction::Failed(InstallError::IntegrityError { path, .. }) => {
            assert_eq!(path, "https://x/just.zip")
        }
        _ => panic!("expected an integrity error"),
    }
}

#[test]
fn unsupported_archive_fails_before_any_lookup() {
    let lock = lock_of("https://x/just.tar.xz", ABC_SHA256);
    let (mut s, _) = install_packages(&lock, "/p", "/cache", &linux());
    match s.step(InstallEvent::Done) {
        InstallAction::Failed(InstallError::UnsupportedArchiveType { file }) => {
            assert_eq!(file, "just.tar.xz")
        }
        _ => panic!("expected an unsupported archive"),
    }
}

#[test]
fn download_errors() {
    let lock = lock_of("https://x/just.zip", ABC_SHA256);
    let (mut s, _) = install_packages(&lock, "/p", "/cache", &linux());
    s.step(InstallEvent::Done);
    s.step(InstallEvent::CacheLookup { present: false });
    match s.step(InstallEvent::Response { status: 404, body: vec![] }) {
        InstallAction::Failed(InstallError::DownloadError { url, status }) => {
            assert_eq!(url, "https://x/just.zip");
            assert_eq!(status, Some(404));
        }
        _ => panic!("expected a download error"),
    }
    let (mut s, _) = install_packages(&lock, "/p", "/cache", &linux());
    s.step(InstallEvent::Done);
    s.step(InstallEvent::CacheLookup { present: false });
    assert!(matches!(
        s.step(InstallEvent::Unreachable),
        InstallAction::Failed(InstallError::DownloadError { status: None, .. })
    ));
}

#[test]
fn archive_without_executable_fails() {
    let lock = lock_of("https://x/just.zip", ABC_SHA256);
    let (mut s, _) = install_packages(&lock, "/p", "/cache", &linux());
    s.step(InstallEvent::Done);
    s.step(InstallEvent::CacheLookup { present: true });
    s.step(InstallEvent::Archive { bytes: b"abc".to_vec() });
    s.step(InstallEvent::Done);
    match s.step(InstallEvent::Files { files: vec![file("/p/.frate/bin/just/README", "README", 0o644)] }) {
        InstallAction::Failed(InstallError::BinaryNotFound { name }) => assert_eq!(name, "just"),
        _ => panic!("expected BinaryNotFound"),
    }
}

fn run_cached_install(lock: &FrateLock) -> Vec<String> {
    let (mut s, _) = install_packages(lock, "/p", "/cache", &linux());
    let mut seen = Vec::new();
    let events = vec![
        InstallEvent::Done,
        InstallEvent::CacheLookup { present: true },
        InstallEvent::Archive { bytes: b"abc".to_vec() },
        InstallEvent::Done,
        InstallEvent::Files { files: vec![file("/p/.frate/bin/just/just", "just", 0o755)] },
        InstallEvent::Done,
    ];
    for e in events {
        let a = s.step(e);
        seen.push(match a {
            InstallAction::LookupCache { path } => format!("lookup {}", path),
            InstallAction::ReadCache { path } => format!("read {}", path),
            InstallAction::Extract { dest_dir, .. } => format!("extract {}", dest_dir),
            InstallAction::ListFiles { dir } => format!("list {}", dir),
            InstallAction::CreateShim { target, shim } => format!("shim {} {}", target, shim),
            InstallAction::Finished => "finished".to_string(),
            _ => "other".to_string(),
        });
    }
    seen
}

#[test]
fn reinstalling_repeats_the_same_actions() {
    let lock = lock_of("https://x/just.tar.gz", ABC_SHA256);
    let first = run_cached_install(&lock);
    let second = run_cached_install(&lock);
    assert_eq!(first, second);
    assert_eq!(first.last().unwrap(), "finished");
    assert_eq!(first[2], "extract /p/.frate/bin/just");
}

#[test]
fn out_of_order_event_fails() {
    let lock = lock_of("https://x/just.zip", ABC_SHA256);
    let (mut s, _) = install_packages(&lock, "/p", "/cache", &linux());
    assert!(matches!(
        s.step(InstallEvent::CacheLookup { present: true }),
        InstallAction::Failed(InstallError::UnexpectedEvent)
    ));
}

#[test]
fn empty_lock_installs_nothing() {
    let (mut s, _) = install_packages(&FrateLock::new(), "/p", "/cache", &linux());
    assert!(matches!(s.step(InstallEvent::Done), InstallAction::Finished));
}

#[test]
fn uninstalling_what_was_never_installed_removes_nothing() {
    let (dir, file) = frate::uninstall_package("/p", "never-installed", &linux(), false, false);
    assert!(dir.is_none());
    assert!(file.is_none());
    let (dir, file) = frate::uninstall_package("/p", "just", &linux(), true, false);
    assert_eq!(dir.unwrap(), "/p/.frate/bin/just");
    assert!(file.is_none());
}

#[test]
fn pick_binary_ranks_named_files_first() {
    let files = vec![
        file("/b/t/aaa", "aaa", 0o755),
        file("/b/t/zzz", "zzz", 0o755),
        file("/b/t/mmm", "mmm", 0o755),
        file("/b/t/doc", "doc", 0o644),
    ];
    assert_eq!(frate::pick_binary(&files, &vec![false, true, true, true], &linux()), Some(2));
    assert_eq!(frate::pick_binary(&files, &vec![false, false, false, true], &linux()), Some(0));
    assert_eq!(frate::pick_binary(&files, &vec![false, true], &linux()), Some(1));
    let docs = vec![file("/b/t/doc", "doc", 0o644)];
    assert_eq!(frate::pick_binary(&docs, &vec![true], &linux()), None);
}

#[test]
fn tool_names_are_matched_literally() {
    let files = vec![file("/b/a", "a", 0o755), file("/b/z/c++-tool", "c++-tool", 0o755)];
    assert_eq!(select_binary("c++", &files, &linux()), Some(1));
    let files = vec![file("/b/a", "a", 0o755), file("/b/z/JUST.sh", "JUST.sh", 0o755)];
    assert_eq!(select_binary("just", &files, &linux()), Some(1));
    let files = vec![file("/b/a", "a", 0o755), file("/b/z/adjust", "adjust", 0o755)];
    assert_eq!(select_binary("just", &files, &linux()), Some(0));
}
