use vstd::prelude::*;
use crate::scope::{
    GLOBAL_WINDOWS_ID, GLOBAL_WSL_ID, is_global_scope, is_posix_path, is_global_config, is_windows_global,
    is_wsl_global, is_linux_path,
};
use crate::entry::opt_view;
use crate::store::{ErrorKind, StoreError};

verus! {

/// Whether the host can reach a nested Linux environment with its own home
/// directories.
#[derive(PartialEq, Eq, Structural, Clone, Copy, Debug)]
pub enum Platform {
    NativeOnly,
    NativeWithNested,
}

/// Where the document of a scope lives: the native path, or the nested one
/// where that applies, or the reason there is none.
pub open spec fn resolve(
    working_dir: Seq<char>,
    platform: Platform,
    native: Option<Seq<char>>,
    native_exists: bool,
    nested: Option<Seq<char>>,
) -> Result<Seq<char>, ErrorKind> {
    let nested_here = if platform == Platform::NativeWithNested {
        nested
    } else {
        None
    };
    let native_or_error = match native {
        Some(p) => Ok(p),
        None => Err(ErrorKind::HomeDirectoryUnavailable),
    };
    if working_dir == GLOBAL_WINDOWS_ID@ {
        native_or_error
    } else if working_dir == GLOBAL_WSL_ID@ {
        match nested_here {
            Some(p) => Ok(p),
            None => Err(ErrorKind::NestedEnvironmentUnavailable),
        }
    } else if platform == Platform::NativeWithNested && working_dir.len() > 0 && !is_global_scope(
        working_dir,
    ) && !is_posix_path(working_dir) {
        native_or_error
    } else if platform == Platform::NativeWithNested && working_dir.len() > 0 && !is_global_scope(
        working_dir,
    ) && nested_here is Some {
        Ok(nested_here->0)
    } else {
        match native {
            None => Err(ErrorKind::HomeDirectoryUnavailable),
            Some(p) => if native_exists {
                Ok(p)
            } else {
                match nested_here {
                    Some(q) => Ok(q),
                    None => Ok(p),
                }
            },
        }
    }
}

/// The nested document, on a platform that has a nested environment.
pub fn get_wsl_config_path(platform: Platform, found: Option<String>) -> (r: Option<String>)
    ensures
        platform == Platform::NativeOnly ==> r is None,
        platform == Platform::NativeWithNested ==> r == found,
{
    match platform {
        Platform::NativeOnly => None,
        Platform::NativeWithNested => found,
    }
}

fn home_missing() -> (r: StoreError)
    ensures
        r.kind == ErrorKind::HomeDirectoryUnavailable,
{
    StoreError {
        kind: ErrorKind::HomeDirectoryUnavailable,
        message: String::from_str("Unable to find home directory"),
    }
}

/// Picks the document for a scope. `native` is the document's path in the
/// user's home directory (`None` where no home directory is known),
/// `native_exists` whether a file is there, and `nested` the document found
/// inside the nested environment, if any.
pub fn get_claude_config_path(
    working_dir: &str,
    platform: Platform,
    native: Option<String>,
    native_exists: bool,
    nested: Option<String>,
) -> (r: Result<String, StoreError>)
    ensures
        match r {
            Ok(p) => resolve(working_dir@, platform, opt_view(native), native_exists, opt_view(nested))
                == Ok::<Seq<char>, ErrorKind>(p@),
            Err(e) => resolve(working_dir@, platform, opt_view(native), native_exists, opt_view(nested))
                == Err::<Seq<char>, ErrorKind>(e.kind),
        },
{
    let nested_here = get_wsl_config_path(platform, nested);
    if is_windows_global(working_dir) {
        return match native {
            Some(p) => Ok(p),
            None => Err(home_missing()),
        };
    }
    if is_wsl_global(working_dir) {
        return match nested_here {
            Some(p) => Ok(p),
            None => Err(
                StoreError {
                    kind: ErrorKind::NestedEnvironmentUnavailable,
                    message: match platform {
                        Platform::NativeWithNested => String::from_str("WSL config not found"),
                        Platform::NativeOnly => String::from_str("WSL is only available on Windows"),
                    },
                },
            ),
        };
    }
    let project = working_dir.unicode_len() > 0 && !is_global_config(working_dir);
    if platform == Platform::NativeWithNested && project {
        if !is_linux_path(working_dir) {
            return match native {
                Some(p) => Ok(p),
                None => Err(home_missing()),
            };
        }
        if nested_here.is_some() {
            return match nested_here {
                Some(p) => Ok(p),
                None => Err(home_missing()),
            };
        }
    }
    match native {
        None => Err(home_missing()),
        Some(p) => if native_exists {
            Ok(p)
        } else {
            match nested_here {
                Some(q) => Ok(q),
                None => Ok(p),
            }
        },
    }
}

/// A configuration file exists where the native one is, or, on a platform
/// with a nested environment, where a nested one was found.
pub fn check_claude_config_exists(platform: Platform, native_exists: bool, nested_found: bool) -> (r: bool)
    ensures
        r == (native_exists || (platform == Platform::NativeWithNested && nested_found)),
{
    native_exists || (platform == Platform::NativeWithNested && nested_found)
}

/// The digit character for `d`.
pub open spec fn digit_char(d: nat) -> char {
    if d == 0 { '0' } else if d == 1 { '1' } else if d == 2 { '2' } else if d == 3 { '3' }
    else if d == 4 { '4' } else if d == 5 { '5' } else if d == 6 { '6' } else if d == 7 { '7' }
    else if d == 8 { '8' } else { '9' }
}

/// The decimal text of `n`, without leading zeros.
pub open spec fn decimal(n: nat) -> Seq<char>
    decreases n,
{
    if n < 10 {
        seq![digit_char(n)]
    } else {
        decimal(n / 10).push(digit_char(n % 10))
    }
}

fn digit_text(d: u64) -> (r: &'static str)
    requires
        d < 10,
    ensures
        r@ == seq![digit_char(d as nat)],
{
    let r = if d == 0 { "0" } else if d == 1 { "1" } else if d == 2 { "2" } else if d == 3 { "3" }
    else if d == 4 { "4" } else if d == 5 { "5" } else if d == 6 { "6" } else if d == 7 { "7" }
    else if d == 8 { "8" } else { "9" };
    proof {
        reveal_strlit("0");
        reveal_strlit("1");
        reveal_strlit("2");
        reveal_strlit("3");
        reveal_strlit("4");
        reveal_strlit("5");
        reveal_strlit("6");
        reveal_strlit("7");
        reveal_strlit("8");
        reveal_strlit("9");
    }
    r
}

/// The decimal text of `n`.
pub fn decimal_text(n: u64) -> (r: String)
    ensures
        r@ == decimal(n as nat),
    decreases n,
{
    if n < 10 {
        String::from_str(digit_text(n))
    } else {
        let mut s = decimal_text(n / 10);
        s.append(digit_text(n % 10));
        s
    }
}

/// The path of the backup taken of `config_path` at `timestamp` (seconds
/// since the Unix epoch): the path with ".backup.<seconds>" appended.
pub fn backup_path_for(config_path: &str, timestamp: u64) -> (r: String)
    ensures
        r@ == config_path@ + ".backup."@ + decimal(timestamp as nat),
{
    let mut r = String::from_str(config_path);
    r.append(".backup.");
    let digits = decimal_text(timestamp);
    r.append(digits.as_str());
    r
}

} // verus!
