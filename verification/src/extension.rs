//! Extension manifests, names and install locations.

use vstd::prelude::*;

use crate::dirs::{data_dir, state_dir, xdg_dir, DirsError};
use crate::paths::{join_str, path_join};
use crate::permissions::{perm_view, Permission, Permissions};
use crate::format::{paint, painted, Paint};
use crate::text::{opt_view, push_all, push_lit, push_str, repeat_lit, repeat_seq, string_of};

verus! {

/// File name of an extension's manifest.
pub const MANIFEST_NAME: &'static str = "PhylumExt.toml";

/// The contents of an extension manifest.
#[derive(Debug)]
pub struct ExtensionManifest {
    pub name: String,
    pub description: Option<String>,
    pub entry_point: Option<String>,
    pub permissions: Option<Permissions>,
}

/// The entry point a manifest names, `main.ts` by default.
pub open spec fn manifest_entry_point(m: &ExtensionManifest) -> Seq<char> {
    match m.entry_point {
        Some(e) => e@,
        None => "main.ts"@,
    }
}

impl ExtensionManifest {
    /// A manifest with only a name.
    pub fn new(name: String) -> (r: Self)
        ensures
            r.name == name,
            r.description is None,
            r.entry_point is None,
            r.permissions is None,
    {
        ExtensionManifest { name, description: None, entry_point: None, permissions: None }
    }

    /// The entry point file name.
    pub fn entry_point(&self) -> (r: &str)
        ensures
            r@ == manifest_entry_point(self),
    {
        match &self.entry_point {
            Some(e) => e.as_str(),
            None => "main.ts",
        }
    }
}

/// An extension: its absolute directory and its manifest.
#[derive(Debug)]
pub struct Extension {
    pub path: String,
    pub manifest: ExtensionManifest,
}

/// Why an extension could not be used.
#[derive(Debug)]
pub enum ExtensionError {
    /// The name is not a lowercase letter followed by lowercase letters,
    /// digits or dashes.
    InvalidName(String),
    /// The extension's directory could not be found.
    Dirs(DirsError),
}

/// Whether `regex::Regex` built from `pattern` matches `text`; `None` where
/// the pattern does not compile.
pub uninterp spec fn regex_match_result(pattern: Seq<char>, text: Seq<char>) -> Option<bool>;

/// Whether `text` is a lowercase ASCII letter followed by one or more
/// lowercase ASCII letters, digits or dashes.
pub open spec fn valid_extension_name(text: Seq<char>) -> bool {
    &&& text.len() >= 2
    &&& 'a' <= text[0] <= 'z'
    &&& forall|i: int|
        1 <= i < text.len() ==> ('a' <= #[trigger] text[i] <= 'z' || '0' <= text[i] <= '9' || text[i] == '-')
}

/// Compiles `pattern` with `regex::Regex::new` and calls `is_match`.
/// Trusted: the outcome is the one `regex_match_result` names; and for the
/// pattern of extension names, as the `regex` syntax defines it (`^` and `$`
/// anchor at the ends of the text, the classes are the ASCII ranges
/// written, `+` repeats one or more times), it compiles and matches exactly
/// the texts `valid_extension_name` describes.
#[verifier::external_body]
fn regex_is_match(pattern: &str, text: &str) -> (r: Option<bool>)
    ensures
        r == regex_match_result(pattern@, text@),
        pattern@ == extension_name_pattern() ==> r == Some(valid_extension_name(text@)),
{
    let re = regex::Regex::new(pattern).ok()?;
    Some(re.is_match(text))
}

/// The pattern extension names must match.
pub open spec fn extension_name_pattern() -> Seq<char> {
    "^[a-z][a-z0-9-]+$"@
}

/// Check extension name for validity.
pub fn validate_name(name: &str) -> (r: Result<(), ExtensionError>)
    ensures
        r is Ok <==> regex_match_result(extension_name_pattern(), name@) == Some(true),
        r is Ok <==> valid_extension_name(name@),
        r matches Err(ExtensionError::InvalidName(n)) ==> n@ == name@,
        !(r matches Err(ExtensionError::Dirs(_))),
{
    match regex_is_match("^[a-z][a-z0-9-]+$", name) {
        Some(true) => Ok(()),
        _ => Err(ExtensionError::InvalidName(String::from_str(name))),
    }
}

/// The permissions an extension asks for: none when the manifest names none.
pub open spec fn extension_permissions(e: &Extension) -> Permissions {
    match e.manifest.permissions {
        Some(p) => p,
        None => Permissions {
            read: Permission::Boolean(false),
            write: Permission::Boolean(false),
            env: Permission::Boolean(false),
            run: Permission::Boolean(false),
            net: Permission::Boolean(false),
        },
    }
}

impl Extension {
    /// Checks a manifest read from an extension directory and makes the
    /// extension; the name must be valid.
    pub fn from_manifest(path: String, manifest: ExtensionManifest) -> (r: Result<
        Extension,
        ExtensionError,
    >)
        ensures
            r is Ok <==> regex_match_result(extension_name_pattern(), manifest.name@) == Some(
                true,
            ),
            r is Ok <==> valid_extension_name(manifest.name@),
            r matches Ok(e) ==> e.path == path && e.manifest == manifest,
    {
        match validate_name(manifest.name.as_str()) {
            Ok(()) => Ok(Extension { path, manifest }),
            Err(e) => Err(e),
        }
    }

    /// The extension's name.
    pub fn name(&self) -> (r: &str)
        ensures
            r@ == self.manifest.name@,
    {
        self.manifest.name.as_str()
    }

    /// The extension's description, if it has one.
    pub fn description(&self) -> (r: Option<&str>)
        ensures
            r matches Some(d) ==> self.manifest.description matches Some(m) && d@ == m@,
            r is None <==> self.manifest.description is None,
    {
        match &self.manifest.description {
            Some(d) => Some(d.as_str()),
            None => None,
        }
    }

    /// The permissions the extension asks for.
    pub fn permissions(&self) -> (r: Permissions)
        ensures
            perm_view(r.read) == perm_view(extension_permissions(self).read),
            perm_view(r.write) == perm_view(extension_permissions(self).write),
            perm_view(r.env) == perm_view(extension_permissions(self).env),
            perm_view(r.run) == perm_view(extension_permissions(self).run),
            perm_view(r.net) == perm_view(extension_permissions(self).net),
    {
        match &self.manifest.permissions {
            Some(p) => p.clone(),
            None => Permissions::default(),
        }
    }

    /// Return the path to this extension.
    pub fn path(&self) -> (r: String)
        ensures
            r@ == self.path@,
    {
        self.path.clone()
    }

    /// Return the path to this extension's entry point.
    pub fn entry_point(&self) -> (r: String)
        ensures
            r@ == path_join(self.path@, manifest_entry_point(&self.manifest)),
    {
        join_str(self.path.as_str(), self.manifest.entry_point())
    }

    /// A directory where installed extensions can store state:
    /// `$XDG_STATE_HOME/phylum/extensions/<name>` (the variable's value is
    /// passed in), for an extension that lives at `installed_path`, the
    /// canonical path of its install location.
    pub fn state_path(&self, installed_path: Option<String>, xdg_state_home: Option<String>) -> (r:
        Option<String>)
        ensures
            opt_view(installed_path) != Some(self.path@) ==> r is None,
            opt_view(installed_path) == Some(self.path@) ==> exists|home: Option<Seq<char>>|
                match #[trigger] xdg_dir(opt_view(xdg_state_home), home, ".local/state"@) {
                    Some(d) => r matches Some(q) && q@ == path_join(
                        path_join(d, "phylum/extensions"@),
                        self.manifest.name@,
                    ),
                    None => r is None,
                },
    {
        if !self.installed(installed_path) {
            return None;
        }
        match extension_state_path(xdg_state_home, self.name()) {
            Ok(p) => Some(p),
            Err(_) => None,
        }
    }

    /// Whether this extension lives at `installed_path`, the canonical path of
    /// its install location (when that could be resolved).
    pub fn installed(&self, installed_path: Option<String>) -> (b: bool)
        ensures
            b == (opt_view(installed_path) == Some(self.path@)),
    {
        match installed_path {
            Some(p) => p == self.path,
            None => false,
        }
    }
}

/// The extensions directory below a data directory.
pub open spec fn extensions_dir(data: Seq<char>) -> Seq<char> {
    path_join(path_join(data, "phylum"@), "extensions"@)
}

/// Whether `r` is what resolving a path below the data directory gives for
/// some home directory.
pub open spec fn below_data_dir(
    r: Result<String, ExtensionError>,
    xdg_data_home: Option<Seq<char>>,
    below: spec_fn(Seq<char>) -> Seq<char>,
) -> bool {
    exists|home: Option<Seq<char>>|
        match #[trigger] xdg_dir(xdg_data_home, home, ".local/share"@) {
            Some(d) => r matches Ok(q) && q@ == below(d),
            None => r matches Err(ExtensionError::Dirs(_)),
        }
}

/// Construct and return the extension path: `$XDG_DATA_HOME/phylum/extensions`.
pub fn extensions_path(xdg_data_home: Option<String>) -> (r: Result<String, ExtensionError>)
    ensures
        below_data_dir(r, opt_view(xdg_data_home), |d: Seq<char>| extensions_dir(d)),
{
    let ghost env = opt_view(xdg_data_home);
    let data = data_dir(xdg_data_home);
    let ghost home = choose|home: Option<Seq<char>>|
        match #[trigger] xdg_dir(env, home, ".local/share"@) {
            Some(p) => data matches Ok(q) && q@ == p,
            None => data is Err,
        };
    match data {
        Ok(d) => {
            let p = join_str(d.as_str(), "phylum");
            let r = join_str(p.as_str(), "extensions");
            assert(match xdg_dir(env, home, ".local/share"@) {
                Some(dd) => Ok::<String, ExtensionError>(r) matches Ok(q) && q@ == extensions_dir(
                    dd,
                ),
                None => false,
            });
            Ok(r)
        },
        Err(e) => Err(ExtensionError::Dirs(e)),
    }
}

/// The directory of the installed extension `name`.
pub fn extension_path(xdg_data_home: Option<String>, name: &str) -> (r: Result<
    String,
    ExtensionError,
>)
    ensures
        below_data_dir(
            r,
            opt_view(xdg_data_home),
            |d: Seq<char>| path_join(extensions_dir(d), name@),
        ),
{
    let ghost env = opt_view(xdg_data_home);
    let base = extensions_path(xdg_data_home);
    let ghost home = choose|home: Option<Seq<char>>|
        match #[trigger] xdg_dir(env, home, ".local/share"@) {
            Some(d) => base matches Ok(q) && q@ == extensions_dir(d),
            None => base matches Err(ExtensionError::Dirs(_)),
        };
    match base {
        Ok(b) => {
            let r = join_str(b.as_str(), name);
            assert(match xdg_dir(env, home, ".local/share"@) {
                Some(dd) => Ok::<String, ExtensionError>(r) matches Ok(q) && q@ == path_join(
                    extensions_dir(dd),
                    name@,
                ),
                None => false,
            });
            Ok(r)
        },
        Err(e) => Err(e),
    }
}

/// The state directory of the extension `name`:
/// `$XDG_STATE_HOME/phylum/extensions/<name>`.
pub fn extension_state_path(xdg_state_home: Option<String>, name: &str) -> (r: Result<
    String,
    DirsError,
>)
    ensures
        exists|home: Option<Seq<char>>|
            match #[trigger] xdg_dir(opt_view(xdg_state_home), home, ".local/state"@) {
                Some(d) => r matches Ok(q) && q@ == path_join(path_join(d, "phylum/extensions"@), name@),
                None => r is Err,
            },
{
    let ghost env = opt_view(xdg_state_home);
    let state = state_dir(xdg_state_home);
    let ghost home = choose|home: Option<Seq<char>>|
        match #[trigger] xdg_dir(env, home, ".local/state"@) {
            Some(p) => state matches Ok(q) && q@ == p,
            None => state is Err,
        };
    match state {
        Ok(d) => {
            let base = join_str(d.as_str(), "phylum/extensions");
            let r = join_str(base.as_str(), name);
            assert(match xdg_dir(env, home, ".local/state"@) {
                Some(dd) => Ok::<String, DirsError>(r) matches Ok(q) && q@ == path_join(
                    path_join(dd, "phylum/extensions"@),
                    name@,
                ),
                None => false,
            });
            Ok(r)
        },
        Err(e) => Err(e),
    }
}

/// `s` padded with spaces to `width` characters.
pub open spec fn padded_chars(s: Seq<char>, width: nat) -> Seq<char> {
    if s.len() < width {
        s + repeat_seq(" "@, (width - s.len()) as nat)
    } else {
        s
    }
}

/// The lines of the first `n` extensions: the name in a column of twenty,
/// then the description.
pub open spec fn extension_lines(exts: Seq<Extension>, n: nat) -> Seq<char>
    decreases n,
{
    if n == 0 || n > exts.len() {
        Seq::<char>::empty()
    } else {
        extension_lines(exts, (n - 1) as nat) + extension_line(exts[n - 1])
    }
}

/// The line of one extension: the name in a column of twenty, then the
/// description.
pub open spec fn extension_line(e: Extension) -> Seq<char> {
    padded_chars(e.manifest.name@, 20) + "   "@ + match e.manifest.description {
        Some(d) => d@,
        None => Seq::<char>::empty(),
    } + "\n"@
}

/// Appends the line of one extension.
fn push_extension_line(out: &mut Vec<char>, e: &Extension)
    ensures
        final(out)@ == old(out)@ + extension_line(*e),
{
    let name = crate::text::chars_of(e.name());
    push_all(out, &name);
    if name.len() < 20 {
        let pad = repeat_lit(" ", 20 - name.len());
        push_all(out, &pad);
    }
    push_lit(out, "   ");
    match e.description() {
        Some(d) => push_str(out, d),
        None => {},
    }
    push_lit(out, "\n");
}

/// The listing of installed extensions: a note when there are none, else a
/// blue heading and one line each.
pub open spec fn extensions_listing(exts: Seq<Extension>) -> Seq<char> {
    if exts.len() == 0 {
        "No extensions are currently installed.\n"@
    } else {
        painted("Extension Name         Description"@, Paint::Blue, true) + "\n"@ + extension_lines(
            exts,
            exts.len(),
        )
    }
}

/// Lists installed extensions.
pub fn list_extensions(extensions: &Vec<Extension>) -> (r: String)
    ensures
        r@ == extensions_listing(extensions@),
{
    if extensions.len() == 0 {
        return String::from_str("No extensions are currently installed.\n");
    }
    let heading = paint("Extension Name         Description", Paint::Blue, true);
    let mut out: Vec<char> = Vec::new();
    push_str(&mut out, heading.as_str());
    push_lit(&mut out, "\n");
    let ghost start = out@;
    let mut i: usize = 0;
    while i < extensions.len()
        invariant
            i <= extensions@.len(),
            out@ == start + extension_lines(extensions@, i as nat),
        decreases extensions@.len() - i,
    {
        push_extension_line(&mut out, &extensions[i]);
        i = i + 1;
    }
    string_of(&out)
}

} // verus!
