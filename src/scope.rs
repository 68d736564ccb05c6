use vstd::prelude::*;
use crate::text::str_eq;

verus! {

/// Scope name that selects the global document of the native platform.
pub const GLOBAL_WINDOWS_ID: &'static str = "Global (Windows)";

/// Scope name that selects the global document inside the nested Linux environment.
pub const GLOBAL_WSL_ID: &'static str = "Global (WSL)";

/// Older scope name for the global document, still accepted.
pub const GLOBAL_PROJECT_ID: &'static str = "Global";

/// The scope names that select a global document rather than a project.
pub open spec fn is_global_scope(working_dir: Seq<char>) -> bool {
    working_dir == GLOBAL_PROJECT_ID@ || working_dir == GLOBAL_WINDOWS_ID@ || working_dir
        == GLOBAL_WSL_ID@
}

/// A path in POSIX form: it starts with `/`.
pub open spec fn is_posix_path(path: Seq<char>) -> bool {
    path.len() > 0 && path[0] == '/'
}

/// True when the scope names any global document.
pub fn is_global_config(working_dir: &str) -> (r: bool)
    ensures
        r == is_global_scope(working_dir@),
{
    str_eq(working_dir, GLOBAL_PROJECT_ID) || str_eq(working_dir, GLOBAL_WINDOWS_ID) || str_eq(
        working_dir,
        GLOBAL_WSL_ID,
    )
}

/// True when the scope names the global document of the native platform.
pub fn is_windows_global(working_dir: &str) -> (r: bool)
    ensures
        r == (working_dir@ == GLOBAL_WINDOWS_ID@),
{
    str_eq(working_dir, GLOBAL_WINDOWS_ID)
}

/// True when the scope names the global document of the nested environment.
pub fn is_wsl_global(working_dir: &str) -> (r: bool)
    ensures
        r == (working_dir@ == GLOBAL_WSL_ID@),
{
    str_eq(working_dir, GLOBAL_WSL_ID)
}

/// True when `path` is written in POSIX form.
pub fn is_linux_path(path: &str) -> (r: bool)
    ensures
        r == is_posix_path(path@),
{
    let n = path.unicode_len();
    n > 0 && path.get_char(0) == '/'
}

} // verus!
