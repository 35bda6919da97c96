//! XDG directories of the client and home path expansion.
//!
//! Environment variables are read by the caller and passed in; the home
//! directory comes from the `home` crate.

use vstd::prelude::*;

use crate::paths::{join_str, path_join};
use crate::text::{chars_of, opt_view, push_range, string_of};

verus! {

/// The user's home directory could not be found.
#[derive(Debug, PartialEq, Eq, Structural, Clone, Copy)]
pub enum DirsError {
    NoHome,
}

/// Looks the home directory up with `home::home_dir`. The answer depends on
/// the environment and the user database, so nothing is claimed about it.
/// Paths are held as text here: a home path that is not valid UTF-8 has
/// its invalid bytes replaced (`to_string_lossy`).
#[verifier::external_body]
fn lookup_home_dir() -> (r: Option<String>) {
    let p = home::home_dir()?;
    Some(p.to_string_lossy().into_owned())
}

/// User home directory.
pub fn home_dir() -> (r: Result<String, DirsError>) {
    match lookup_home_dir() {
        Some(h) => Ok(h),
        None => Err(DirsError::NoHome),
    }
}

/// An environment value that is set and not empty.
pub open spec fn env_value(value: Option<Seq<char>>) -> Option<Seq<char>> {
    match value {
        Some(v) => if v.len() > 0 {
            Some(v)
        } else {
            None
        },
        None => None,
    }
}

/// Resolve a path from an environment variable's value: unset and empty
/// values give none.
pub fn env_path(value: Option<String>) -> (r: Option<String>)
    ensures
        r matches Some(p) ==> env_value(opt_view(value)) == Some(p@),
        r is None ==> env_value(opt_view(value)) is None,
{
    match value {
        Some(v) => if v.as_str().unicode_len() > 0 {
            Some(v)
        } else {
            None
        },
        None => None,
    }
}

/// An XDG directory: the environment value when set, else `rel` below the
/// home directory.
pub open spec fn xdg_dir(env: Option<Seq<char>>, home: Option<Seq<char>>, rel: Seq<char>) -> Option<
    Seq<char>,
> {
    match env_value(env) {
        Some(e) => Some(e),
        None => match home {
            Some(h) => Some(path_join(h, rel)),
            None => None,
        },
    }
}

/// Whether `r` is what resolving an XDG directory gives for some home
/// directory (the home directory is looked up at run time).
pub open spec fn xdg_outcome(r: Result<String, DirsError>, env: Option<Seq<char>>, rel: Seq<char>) -> bool {
    exists|home: Option<Seq<char>>|
        match #[trigger] xdg_dir(env, home, rel) {
            Some(p) => r matches Ok(q) && q@ == p,
            None => r is Err,
        }
}

/// Resolves an XDG directory from the environment value and the home directory.
pub fn xdg_dir_from(env: Option<String>, home: Option<String>, rel: &str) -> (r: Result<
    String,
    DirsError,
>)
    ensures
        match xdg_dir(opt_view(env), opt_view(home), rel@) {
            Some(p) => r matches Ok(q) && q@ == p,
            None => r is Err,
        },
{
    match env_path(env) {
        Some(p) => Ok(p),
        None => match home {
            Some(h) => Ok(join_str(h.as_str(), rel)),
            None => Err(DirsError::NoHome),
        },
    }
}

/// Resolves an XDG directory, looking the home directory up.
fn xdg_dir_lookup(env: Option<String>, rel: &str) -> (r: Result<String, DirsError>)
    ensures
        xdg_outcome(r, opt_view(env), rel@),
{
    let ghost e = opt_view(env);
    let home = lookup_home_dir();
    let ghost h = opt_view(home);
    let r = xdg_dir_from(env, home, rel);
    assert(match xdg_dir(e, h, rel@) {
        Some(p) => r matches Ok(q) && q@ == p,
        None => r is Err,
    });
    r
}

/// Resolve XDG data directory: `$XDG_DATA_HOME` (its value is passed in) or
/// `~/.local/share`.
pub fn data_dir(xdg_data_home: Option<String>) -> (r: Result<String, DirsError>)
    ensures
        xdg_outcome(r, opt_view(xdg_data_home), ".local/share"@),
{
    xdg_dir_lookup(xdg_data_home, ".local/share")
}

/// Resolve XDG config directory: `$XDG_CONFIG_HOME` (its value is passed in)
/// or `~/.config`.
pub fn config_dir(xdg_config_home: Option<String>) -> (r: Result<String, DirsError>)
    ensures
        xdg_outcome(r, opt_view(xdg_config_home), ".config"@),
{
    xdg_dir_lookup(xdg_config_home, ".config")
}

/// Resolve XDG state directory: `$XDG_STATE_HOME` (its value is passed in)
/// or `~/.local/state`.
pub fn state_dir(xdg_state_home: Option<String>) -> (r: Result<String, DirsError>)
    ensures
        xdg_outcome(r, opt_view(xdg_state_home), ".local/state"@),
{
    xdg_dir_lookup(xdg_state_home, ".local/state")
}

/// XDG binary directory: `~/.local/bin`.
pub fn bin_dir() -> (r: Result<String, DirsError>)
    ensures
        xdg_outcome(r, None, ".local/bin"@),
{
    xdg_dir_lookup(None, ".local/bin")
}

/// A path with a leading `~` (alone or followed by `/`) taken from `home`.
pub open spec fn expanded_home_path(path: Seq<char>, home: Seq<char>) -> Seq<char> {
    if path.len() > 0 && path[0] == '~' && (path.len() == 1 || path[1] == '/') {
        let suffix = path.skip(1);
        let rest = if suffix.len() > 0 && suffix[0] == '/' {
            suffix.skip(1)
        } else {
            suffix
        };
        path_join(home, rest)
    } else {
        path
    }
}

/// Expand leading tildes to the user's home path.
pub fn expand_home_path(path: &str, home: &str) -> (r: String)
    ensures
        r@ == expanded_home_path(path@, home@),
{
    let p = chars_of(path);
    if p.len() > 0 && p[0] == '~' && (p.len() == 1 || p[1] == '/') {
        let mut rest: Vec<char> = Vec::new();
        let start: usize = if p.len() > 1 {
            2
        } else {
            1
        };
        push_range(&mut rest, &p, start, p.len());
        proof {
            let suffix = p@.skip(1);
            if p@.len() > 1 {
                assert(rest@ =~= suffix.skip(1));
            } else {
                assert(rest@ =~= suffix);
            }
        }
        let h = chars_of(home);
        let joined = crate::paths::join(&h, &rest);
        string_of(&joined)
    } else {
        String::from_str(path)
    }
}

} // verus!
