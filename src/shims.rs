//! Shims: stable entry points that forward to an installed executable.
use vstd::prelude::*;
use crate::text::{concat, concat3};
use crate::util::{joined, join_path, Host};

verus! {

/// The file name of a shim: the stem, with `.bat` on Windows.
pub open spec fn shim_name_of(stem: Seq<char>, windows: bool) -> Seq<char> {
    if windows {
        stem + ".bat"@
    } else {
        stem
    }
}

/// Where the shim named after `stem` lives.
pub open spec fn shim_path_of(shims_dir: Seq<char>, stem: Seq<char>, windows: bool) -> Seq<char> {
    joined(shims_dir, shim_name_of(stem, windows), windows)
}

/// Returns the path of the shim named after `stem` in the shims directory.
pub fn shim_path(shims_dir: &str, stem: &str, host: &Host) -> (r: String)
    ensures
        r@ == shim_path_of(shims_dir@, stem@, host.is_windows_spec()),
{
    if host.is_windows() {
        let name = concat(stem, ".bat");
        join_path(shims_dir, name.as_str(), host)
    } else {
        join_path(shims_dir, stem, host)
    }
}

/// The batch script of a Windows shim: it calls the target with all arguments.
pub open spec fn windows_shim_of(target: Seq<char>) -> Seq<char> {
    "@echo off\r\ncall \""@ + target + "\" %*\r\n"@
}

/// Returns the batch script that forwards to `target` on Windows.
pub fn windows_shim_script(target: &str) -> (r: String)
    ensures
        r@ == windows_shim_of(target@),
{
    concat3("@echo off\r\ncall \"", target, "\" %*\r\n")
}

} // verus!
