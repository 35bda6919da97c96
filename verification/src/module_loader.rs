//! How an extension's JavaScript modules are loaded: which ones are
//! allowed, where their code comes from and whether it is transpiled.

use vstd::prelude::*;

verus! {

/// The media type of a module, as its specifier's file extension or
/// content type names it.
#[derive(Debug, Clone, Copy, PartialEq, Eq, Structural)]
pub enum MediaKind {
    JavaScript,
    Mjs,
    Cjs,
    TypeScript,
    Jsx,
    Mts,
    Cts,
    Dts,
    Dmts,
    Dcts,
    Tsx,
    Json,
    /// Anything else (WebAssembly, source maps, unknown files).
    Other,
}

/// What kind of module the runtime gets.
#[derive(Debug, Clone, Copy, PartialEq, Eq, Structural)]
pub enum ModuleKind {
    JavaScript,
    Json,
}

/// Where a module's code comes from.
#[derive(Debug, Clone, Copy, PartialEq, Eq, Structural)]
pub enum ModuleOrigin {
    /// The built-in Phylum API module.
    PhylumApi,
    /// A file below the extension's directory.
    File,
    /// A remote module, fetched over HTTPS.
    Remote,
}

/// How to load a module: from where, as what, and whether its code is
/// transpiled first.
#[derive(Debug, Clone, Copy, PartialEq, Eq, Structural)]
pub struct LoadPlan {
    pub origin: ModuleOrigin,
    pub kind: ModuleKind,
    pub transpile: bool,
}

/// Why a module cannot be loaded.
#[derive(Debug, PartialEq, Eq)]
pub enum LoadError {
    /// The module is neither JavaScript, TypeScript nor JSON.
    UnknownFormat(String),
    /// The module is neither a local file nor an HTTPS URL.
    UnsupportedSpecifier(String),
}

/// The module kind and transpiling of a media type; `None` where it is no
/// module format.
pub open spec fn media_module(media: MediaKind) -> Option<(ModuleKind, bool)> {
    match media {
        MediaKind::JavaScript | MediaKind::Mjs | MediaKind::Cjs => Some((ModuleKind::JavaScript, false)),
        MediaKind::TypeScript | MediaKind::Jsx | MediaKind::Mts | MediaKind::Cts | MediaKind::Dts
        | MediaKind::Dmts | MediaKind::Dcts | MediaKind::Tsx => Some((ModuleKind::JavaScript, true)),
        MediaKind::Json => Some((ModuleKind::Json, false)),
        MediaKind::Other => None,
    }
}

/// The specifier of the built-in Phylum API module.
pub open spec fn phylum_specifier() -> Seq<char> {
    "deno:phylum"@
}

/// Whether `s` begins with `prefix`.
pub open spec fn has_prefix(s: Seq<char>, prefix: Seq<char>) -> bool {
    prefix.len() <= s.len() && s.subrange(0, prefix.len() as int) == prefix
}

/// How a module is loaded, given its specifier (a URL as written out, so
/// its scheme is the text before the first `:`) and its media type. The
/// Phylum API module is built in; other modules must be JavaScript,
/// TypeScript or JSON, and come from a file or over HTTPS.
pub open spec fn load_plan(specifier: Seq<char>, media: MediaKind) -> Result<LoadPlan, ()> {
    if specifier == phylum_specifier() {
        Ok(LoadPlan { origin: ModuleOrigin::PhylumApi, kind: ModuleKind::JavaScript, transpile: false })
    } else {
        match media_module(media) {
            None => Err(()),
            Some((kind, transpile)) => if has_prefix(specifier, "file:"@) {
                Ok(LoadPlan { origin: ModuleOrigin::File, kind, transpile })
            } else if has_prefix(specifier, "https:"@) {
                Ok(LoadPlan { origin: ModuleOrigin::Remote, kind, transpile })
            } else {
                Err(())
            },
        }
    }
}

/// Whether the characters of `s` begin with those of `prefix`.
fn starts_with_str(s: &str, prefix: &str) -> (r: bool)
    ensures
        r == has_prefix(s@, prefix@),
{
    let n = prefix.unicode_len();
    let m = s.unicode_len();
    if n > m {
        return false;
    }
    let mut i: usize = 0;
    while i < n
        invariant
            n == prefix@.len(),
            m == s@.len(),
            n <= m,
            i <= n,
            forall|j: int| 0 <= j < i ==> s@[j] == prefix@[j],
        decreases n - i,
    {
        if s.get_char(i) != prefix.get_char(i) {
            assert(s@.subrange(0, n as int)[i as int] != prefix@[i as int]);
            return false;
        }
        i = i + 1;
    }
    assert(s@.subrange(0, n as int) =~= prefix@);
    true
}

/// Decides how to load a module. Media types that are no module format are
/// refused first, then specifiers that are neither files nor HTTPS URLs;
/// each error carries the specifier.
pub fn module_load_plan(specifier: &str, media: MediaKind) -> (r: Result<LoadPlan, LoadError>)
    ensures
        match load_plan(specifier@, media) {
            Ok(plan) => r == Ok::<LoadPlan, LoadError>(plan),
            Err(_) => match r {
                Err(LoadError::UnknownFormat(s)) => s@ == specifier@ && media_module(media) is None,
                Err(LoadError::UnsupportedSpecifier(s)) => s@ == specifier@ && media_module(media) is Some,
                Ok(_) => false,
            },
        },
{
    if starts_with_str(specifier, "deno:phylum") && specifier.unicode_len() == 11 {
        proof {
            reveal_strlit("deno:phylum");
            assert(specifier@ =~= phylum_specifier());
        }
        return Ok(LoadPlan { origin: ModuleOrigin::PhylumApi, kind: ModuleKind::JavaScript, transpile: false });
    }
    proof {
        reveal_strlit("deno:phylum");
        if specifier@ == phylum_specifier() {
            assert(specifier@.subrange(0, 11) =~= specifier@);
        }
        assert(specifier@ != phylum_specifier());
    }
    let (kind, transpile) = match media {
        MediaKind::JavaScript | MediaKind::Mjs | MediaKind::Cjs => (ModuleKind::JavaScript, false),
        MediaKind::TypeScript | MediaKind::Jsx | MediaKind::Mts | MediaKind::Cts | MediaKind::Dts
        | MediaKind::Dmts | MediaKind::Dcts | MediaKind::Tsx => (ModuleKind::JavaScript, true),
        MediaKind::Json => (ModuleKind::Json, false),
        MediaKind::Other => {
            return Err(LoadError::UnknownFormat(String::from_str(specifier)));
        },
    };
    if starts_with_str(specifier, "file:") {
        Ok(LoadPlan { origin: ModuleOrigin::File, kind, transpile })
    } else if starts_with_str(specifier, "https:") {
        Ok(LoadPlan { origin: ModuleOrigin::Remote, kind, transpile })
    } else {
        Err(LoadError::UnsupportedSpecifier(String::from_str(specifier)))
    }
}

/// The specifier an import names: `phylum` is the built-in Phylum API
/// module; any other is resolved against the importing module (`None`).
pub fn builtin_import(specifier: &str) -> (r: Option<String>)
    ensures
        specifier@ == "phylum"@ ==> (r matches Some(s) && s@ == phylum_specifier()),
        specifier@ != "phylum"@ ==> r is None,
{
    if starts_with_str(specifier, "phylum") && specifier.unicode_len() == 6 {
        proof {
            reveal_strlit("phylum");
            assert(specifier@ =~= "phylum"@);
        }
        Some(String::from_str("deno:phylum"))
    } else {
        proof {
            reveal_strlit("phylum");
            if specifier@ == "phylum"@ {
                assert(specifier@.subrange(0, 6) =~= "phylum"@);
            }
        }
        None
    }
}

} // verus!
