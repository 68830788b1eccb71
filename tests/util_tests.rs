use frate::{
    convert_url_to_api_url, current_target_triple, expand_version, extract_name_at_version,
    format_hash, get_frate_bin_dir, get_frate_lock_file, get_frate_shims_dir, is_executable, Host,
};

fn host(arch: &str, os: &str) -> Host {
    Host { arch: arch.to_string(), os: os.to_string() }
}

#[test]
fn test_format_hash_removes_prefix() {
    let input = "sha256:abcdef123456";
    let expected = "abcdef123456";
    assert_eq!(format_hash(input), expected);
}

#[test]
fn test_format_hash_without_prefix() {
    let input = "abcdef123456";
    assert_eq!(format_hash(input), input);
}

#[test]
fn test_expand_version_appends_triple() {
    let h = host("x86_64", "linux");
    let version = "1.2.3";
    let triple = current_target_triple(&h);
    let expected = format!("1.2.3-{}", triple);
    assert_eq!(expand_version(version, &h), expected);
}

#[test]
fn expand_version_appends_the_same_triple_for_one_host() {
    let h = host("aarch64", "macos");
    assert_eq!(expand_version("1.0.0", &h), "1.0.0-aarch64-apple-darwin");
    assert_eq!(expand_version("2.3.4", &h), "2.3.4-aarch64-apple-darwin");
    assert_eq!(expand_version("1.0.0", &h), expand_version("1.0.0", &h));
}

#[test]
fn target_triples_by_table_and_fallback() {
    assert_eq!(current_target_triple(&host("x86_64", "linux")), "x86_64-unknown-linux-gnu");
    assert_eq!(current_target_triple(&host("x86", "windows")), "i686-pc-windows-msvc");
    assert_eq!(current_target_triple(&host("x86_64", "windows")), "x86_64-pc-windows-msvc");
    assert_eq!(current_target_triple(&host("aarch64", "linux")), "aarch64-unknown-linux-gnu");
    assert_eq!(current_target_triple(&host("x86_64", "macos")), "x86_64-apple-darwin");
    assert_eq!(current_target_triple(&host("riscv64", "freebsd")), "riscv64-unknown-freebsd");
}

#[test]
fn hash_tag_only_stripped_at_start() {
    assert_eq!(format_hash("sha256:"), "");
    assert_eq!(format_hash("abc:sha256:"), "abc:sha256:");
    assert_eq!(format_hash(""), "");
}

#[test]
fn project_layout_paths() {
    let posix = host("x86_64", "linux");
    assert_eq!(get_frate_bin_dir("/work/p", &posix), "/work/p/.frate/bin");
    assert_eq!(get_frate_shims_dir("/work/p/", &posix), "/work/p/.frate/shims");
    assert_eq!(get_frate_lock_file("/work/p", &posix), "/work/p/frate.lock");
    let windows = host("x86_64", "windows");
    assert_eq!(get_frate_bin_dir("C:\\p", &windows), "C:\\p\\.frate\\bin");
}

#[test]
fn executables_by_platform() {
    let posix = host("x86_64", "linux");
    assert!(is_executable(&posix, "just", 0o755));
    assert!(is_executable(&posix, "just", 0o100));
    assert!(!is_executable(&posix, "README.md", 0o644));
    let windows = host("x86_64", "windows");
    assert!(is_executable(&windows, "just.EXE", 0));
    assert!(is_executable(&windows, "run.cmd", 0));
    assert!(is_executable(&windows, "run.Bat", 0));
    assert!(!is_executable(&windows, "just", 0o755));
    assert!(!is_executable(&windows, ".exe", 0));
}

#[test]
fn name_at_version_split() {
    assert_eq!(
        extract_name_at_version("hello@1.0.0"),
        Some(("hello".to_string(), "1.0.0".to_string()))
    );
    assert_eq!(
        extract_name_at_version("a@b@c"),
        Some(("a".to_string(), "b".to_string()))
    );
    assert_eq!(extract_name_at_version("hello"), None);
}

#[test]
fn api_url_of_repository() {
    assert_eq!(
        convert_url_to_api_url("https://github.com/casey/just/").unwrap(),
        "https://api.github.com/repos/casey/just"
    );
    assert_eq!(
        convert_url_to_api_url("casey/just").unwrap(),
        "https://api.github.com/repos/casey/just"
    );
    assert!(convert_url_to_api_url("just").is_none());
}
