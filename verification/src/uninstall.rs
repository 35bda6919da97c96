//! Removing the installer's shell configuration.

use vstd::prelude::*;

use crate::dirs::{home_dir, DirsError};
use crate::paths::{join_str, path_join};
use crate::text::{chars_of, contains_chars, contains_seq, push_lit, push_str, replace_all, replaced, string_of};

verus! {

/// Supported shells.
#[derive(Debug, Clone, Copy, PartialEq, Eq, Structural)]
pub enum Shell {
    Bash,
    Zsh,
}

/// The shell's configuration file below the home directory.
pub open spec fn rc_file(shell: Shell) -> Seq<char> {
    match shell {
        Shell::Bash => ".bashrc"@,
        Shell::Zsh => ".zshrc"@,
    }
}

/// The installer's configuration file for the shell below `<data>/phylum`.
pub open spec fn phylum_rc_file(shell: Shell) -> Seq<char> {
    match shell {
        Shell::Bash => "bashrc"@,
        Shell::Zsh => "zshrc"@,
    }
}

/// The line the installer adds to a shell configuration.
pub open spec fn source_line(phylum_path: Seq<char>) -> Seq<char> {
    "source "@ + phylum_path + "\n"@
}

impl Shell {
    /// Get the shell's config path below the home directory.
    pub fn rc_path(&self) -> (r: Result<String, DirsError>)
        ensures
            r matches Ok(p) ==> exists|h: Seq<char>| p@ == path_join(h, rc_file(*self)),
    {
        let home = home_dir()?;
        let p = match self {
            Shell::Bash => join_str(home.as_str(), ".bashrc"),
            Shell::Zsh => join_str(home.as_str(), ".zshrc"),
        };
        assert(p@ == path_join(home@, rc_file(*self)));
        Ok(p)
    }

    /// Get the shell's phylum config path.
    pub fn phylum_path(&self, data_dir: &str) -> (r: String)
        ensures
            r@ == path_join(path_join(data_dir@, "phylum"@), phylum_rc_file(*self)),
    {
        let phylum_data = join_str(data_dir, "phylum");
        match self {
            Shell::Bash => join_str(phylum_data.as_str(), "bashrc"),
            Shell::Zsh => join_str(phylum_data.as_str(), "zshrc"),
        }
    }
}

/// The shell configuration without the line that sources Phylum's own
/// configuration (every occurrence of it), or `None` where it holds no such
/// line.
pub fn remove_source_lines(rc_content: &str, phylum_path: &str) -> (r: Option<String>)
    ensures
        r is None <==> !contains_seq(rc_content@, source_line(phylum_path@)),
        r matches Some(c) ==> c@ == replaced(rc_content@, source_line(phylum_path@), Seq::<char>::empty()),
{
    let mut line: Vec<char> = Vec::new();
    push_lit(&mut line, "source ");
    push_str(&mut line, phylum_path);
    push_lit(&mut line, "\n");
    let content = chars_of(rc_content);
    if !contains_chars(&content, &line) {
        return None;
    }
    proof {
        reveal_strlit("source ");
    }
    let empty: Vec<char> = Vec::new();
    let out = replace_all(&content, &line, &empty);
    Some(string_of(&out))
}

/// An I/O error.
#[verifier::external_type_specification]
#[verifier::external_body]
pub struct ExIoError(std::io::Error);

/// The kind of an I/O error, as far as removal decides on it.
#[derive(Debug, Clone, Copy, PartialEq, Eq, Structural)]
pub enum IoErrorKind {
    /// The file or directory does not exist.
    NotFound,
    /// Any other failure.
    Other,
}

/// Treats a missing file as success: removing what is not there is done.
/// Any other error is handed back as it is.
pub fn ignore_not_found(err: std::io::Error, kind: IoErrorKind) -> (r: Result<(), std::io::Error>)
    ensures
        r is Ok <==> kind == IoErrorKind::NotFound,
        r matches Err(e) ==> e == err,
{
    match kind {
        IoErrorKind::NotFound => Ok(()),
        IoErrorKind::Other => Err(err),
    }
}

} // verus!
