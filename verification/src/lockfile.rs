//! Which dependency files a command works on, and which lockfile format
//! each is read as, from its name.

use vstd::prelude::*;

use crate::text::{chars_of, eq_lit};

verus! {

/// The lockfile formats packages can be read from.
#[derive(Debug, Clone, Copy, PartialEq, Eq, Structural)]
pub enum LockfileKind {
    GemLock,
    PackageLock,
    YarnLock,
    PyRequirements,
    PipFile,
    Poetry,
    Pom,
    GradleDeps,
    CSProj,
}

/// The position of the last `.` in `s`, if any.
pub open spec fn last_dot(s: Seq<char>) -> Option<int>
    decreases s.len(),
{
    if s.len() == 0 {
        None
    } else if s.last() == '.' {
        Some(s.len() - 1)
    } else {
        last_dot(s.drop_last())
    }
}

/// The last `.` lies within the text.
proof fn lemma_last_dot_within(s: Seq<char>)
    ensures
        match last_dot(s) {
            Some(i) => 0 <= i < s.len() && s[i] == '.',
            None => true,
        },
    decreases s.len(),
{
    if s.len() > 0 && s.last() != '.' {
        lemma_last_dot_within(s.drop_last());
    }
}

/// The extension of a file name, as `Path::extension` gives it: what
/// follows the last `.`, unless the name is `..` or its only `.` leads it.
pub open spec fn extension_of(file: Seq<char>) -> Option<Seq<char>> {
    if file == ".."@ {
        None
    } else {
        match last_dot(file) {
            Some(i) => if i == 0 {
                None
            } else {
                Some(file.subrange(i + 1, file.len() as int))
            },
            None => None,
        }
    }
}

/// The format a file name stands for; `None` where every format is to be
/// tried in turn. Any `.csproj` file is a C# project.
pub open spec fn kind_for_name(file: Seq<char>) -> Option<LockfileKind> {
    let pattern = if extension_of(file) == Some("csproj"@) {
        ".csproj"@
    } else {
        file
    };
    if pattern == "Gemfile.lock"@ {
        Some(LockfileKind::GemLock)
    } else if pattern == "package-lock.json"@ {
        Some(LockfileKind::PackageLock)
    } else if pattern == "yarn.lock"@ {
        Some(LockfileKind::YarnLock)
    } else if pattern == "requirements.txt"@ {
        Some(LockfileKind::PyRequirements)
    } else if pattern == "Pipfile.txt"@ || pattern == "Pipfile.lock"@ {
        Some(LockfileKind::PipFile)
    } else if pattern == "poetry.lock"@ {
        Some(LockfileKind::Poetry)
    } else if pattern == "effective-pom.xml"@ {
        Some(LockfileKind::Pom)
    } else if pattern == "gradle-dependencies.txt"@ {
        Some(LockfileKind::GradleDeps)
    } else if pattern == ".csproj"@ {
        Some(LockfileKind::CSProj)
    } else {
        None
    }
}

/// Finds the last `.` of a file name.
fn find_last_dot(v: &Vec<char>) -> (r: Option<usize>)
    ensures
        match r {
            Some(i) => last_dot(v@) == Some(i as int),
            None => last_dot(v@) is None,
        },
{
    let mut n: usize = v.len();
    assert(v@.take(v@.len() as int) =~= v@);
    while n > 0
        invariant
            n <= v@.len(),
            last_dot(v@) == last_dot(v@.take(n as int)),
        decreases n,
    {
        proof {
            assert(v@.take(n as int).drop_last() =~= v@.take(n - 1));
        }
        if v[n - 1] == '.' {
            return Some(n - 1);
        }
        n = n - 1;
    }
    None
}

/// The extension of a file name.
fn file_extension(v: &Vec<char>) -> (r: Option<Vec<char>>)
    ensures
        match r {
            Some(e) => extension_of(v@) == Some(e@),
            None => extension_of(v@) is None,
        },
{
    if eq_lit(v, "..") {
        return None;
    }
    let found = find_last_dot(v);
    proof {
        lemma_last_dot_within(v@);
    }
    match found {
        Some(i) => if i == 0 {
            None
        } else {
            let len = v.len();
            assert(last_dot(v@) == Some(i as int));
            assert(i < len);
            let mut out: Vec<char> = Vec::new();
            let mut j: usize = i + 1;
            assert(out@ =~= v@.subrange(i + 1, j as int));
            while j < v.len()
                invariant
                    i < v@.len(),
                    i + 1 <= j <= v@.len(),
                    out@ == v@.subrange(i + 1, j as int),
                decreases v@.len() - j,
            {
                out.push(v[j]);
                proof {
                    assert(out@ =~= v@.subrange(i + 1, j + 1));
                }
                j = j + 1;
            }
            Some(out)
        },
        None => None,
    }
}

/// The format a dependency file is read as, from its file name; `None`
/// where every format is to be tried in turn.
pub fn lockfile_kind(file_name: &str) -> (r: Option<LockfileKind>)
    ensures
        r == kind_for_name(file_name@),
{
    let file = chars_of(file_name);
    let is_csproj = match file_extension(&file) {
        Some(ext) => eq_lit(&ext, "csproj"),
        None => false,
    };
    if is_csproj || eq_lit(&file, ".csproj") {
        proof {
            reveal_strlit(".csproj");
            reveal_strlit("Gemfile.lock");
            reveal_strlit("package-lock.json");
            reveal_strlit("yarn.lock");
            reveal_strlit("requirements.txt");
            reveal_strlit("Pipfile.txt");
            reveal_strlit("Pipfile.lock");
            reveal_strlit("poetry.lock");
            reveal_strlit("effective-pom.xml");
            reveal_strlit("gradle-dependencies.txt");
            reveal_strlit("csproj");
            assert(extension_of(file@) == Some("csproj"@) || file@ == ".csproj"@);
            assert(".csproj"@ != "Gemfile.lock"@);
            assert(kind_for_name(".csproj"@) == Some(LockfileKind::CSProj));
        }
        return Some(LockfileKind::CSProj);
    }
    if eq_lit(&file, "Gemfile.lock") {
        Some(LockfileKind::GemLock)
    } else if eq_lit(&file, "package-lock.json") {
        Some(LockfileKind::PackageLock)
    } else if eq_lit(&file, "yarn.lock") {
        Some(LockfileKind::YarnLock)
    } else if eq_lit(&file, "requirements.txt") {
        Some(LockfileKind::PyRequirements)
    } else if eq_lit(&file, "Pipfile.txt") || eq_lit(&file, "Pipfile.lock") {
        Some(LockfileKind::PipFile)
    } else if eq_lit(&file, "poetry.lock") {
        Some(LockfileKind::Poetry)
    } else if eq_lit(&file, "effective-pom.xml") {
        Some(LockfileKind::Pom)
    } else if eq_lit(&file, "gradle-dependencies.txt") {
        Some(LockfileKind::GradleDeps)
    } else {
        None
    }
}

/// The order in which formats are tried on a file whose name names none;
/// the first that yields packages is taken.
pub open spec fn tried_kinds() -> Seq<LockfileKind> {
    seq![
        LockfileKind::YarnLock,
        LockfileKind::PackageLock,
        LockfileKind::GemLock,
        LockfileKind::PyRequirements,
        LockfileKind::PipFile,
        LockfileKind::Poetry,
        LockfileKind::Pom,
        LockfileKind::GradleDeps,
        LockfileKind::CSProj,
    ]
}

/// The formats to try on a file whose name names none, in order.
pub fn kinds_to_try() -> (r: Vec<LockfileKind>)
    ensures
        r@ == tried_kinds(),
{
    let r = vec![
        LockfileKind::YarnLock,
        LockfileKind::PackageLock,
        LockfileKind::GemLock,
        LockfileKind::PyRequirements,
        LockfileKind::PipFile,
        LockfileKind::Poetry,
        LockfileKind::Pom,
        LockfileKind::GradleDeps,
        LockfileKind::CSProj,
    ];
    assert(r@ =~= tried_kinds());
    r
}

/// A dependency file with the type it is read as (a format name, or
/// `auto`).
#[derive(Debug, PartialEq, Eq)]
pub struct DepfileConfig {
    pub path: String,
    pub depfile_type: String,
}

/// The view of a dependency file: path and type.
pub open spec fn depfile_view(d: DepfileConfig) -> (Seq<char>, Seq<char>) {
    (d.path@, d.depfile_type@)
}

/// The views of dependency files.
pub open spec fn depfile_views(v: Seq<DepfileConfig>) -> Seq<(Seq<char>, Seq<char>)> {
    v.map_values(|d: DepfileConfig| depfile_view(d))
}

/// No dependency file was given, none is configured, and none was found.
#[derive(Debug, PartialEq, Eq)]
pub struct MissingDepfile;

/// The dependency files a command works on: those given on the command
/// line, each with the type given (else `auto`); else those of the current
/// project; else those found below the current directory. An empty list
/// from the project or the search is an error.
pub open spec fn chosen_depfiles(
    cli: Option<Seq<Seq<char>>>,
    cli_type: Option<Seq<char>>,
    project: Option<Seq<(Seq<char>, Seq<char>)>>,
    found: Option<Seq<(Seq<char>, Seq<char>)>>,
) -> Option<Seq<(Seq<char>, Seq<char>)>> {
    match cli {
        Some(paths) => {
            let t = match cli_type {
                Some(t) => t,
                None => "auto"@,
            };
            Some(paths.map_values(|p: Seq<char>| (p, t)))
        },
        None => {
            let list = match project {
                Some(l) => l,
                None => found->0,
            };
            if list.len() == 0 {
                None
            } else {
                Some(list)
            }
        },
    }
}

/// Copies a list of dependency files.
fn copy_depfiles(v: &Vec<DepfileConfig>) -> (r: Vec<DepfileConfig>)
    ensures
        depfile_views(r@) == depfile_views(v@),
{
    let mut out: Vec<DepfileConfig> = Vec::new();
    let mut i: usize = 0;
    while i < v.len()
        invariant
            i <= v@.len(),
            depfile_views(out@) == depfile_views(v@).take(i as int),
        decreases v@.len() - i,
    {
        let d = DepfileConfig {
            path: String::from_str(v[i].path.as_str()),
            depfile_type: String::from_str(v[i].depfile_type.as_str()),
        };
        let ghost dv = depfile_view(d);
        let ghost before = out@;
        out.push(d);
        proof {
            assert(dv == depfile_views(v@)[i as int]);
            assert(depfile_views(out@) =~= depfile_views(before).push(dv));
            assert(depfile_views(out@) =~= depfile_views(v@).take(i + 1));
        }
        i = i + 1;
    }
    proof {
        assert(depfile_views(v@).take(v@.len() as int) =~= depfile_views(v@));
    }
    out
}

/// Chooses the dependency files of a command. The search below the current
/// directory is only needed, and only passed, where neither the command
/// line nor a project names any.
pub fn choose_depfiles(
    cli: Option<&Vec<String>>,
    cli_type: Option<&str>,
    project: Option<&Vec<DepfileConfig>>,
    found: Option<&Vec<DepfileConfig>>,
) -> (r: Result<Vec<DepfileConfig>, MissingDepfile>)
    requires
        cli is None && project is None ==> found is Some,
    ensures
        match chosen_depfiles(
            match cli {
                Some(v) => Some(crate::markdown::views(v@)),
                None => None,
            },
            crate::text::opt_str(cli_type),
            match project {
                Some(v) => Some(depfile_views(v@)),
                None => None,
            },
            match found {
                Some(v) => Some(depfile_views(v@)),
                None => None,
            },
        ) {
            Some(list) => r matches Ok(v) && depfile_views(v@) == list,
            None => r is Err,
        },
{
    match cli {
        Some(paths) => {
            let ghost t = match cli_type {
                Some(t) => t@,
                None => "auto"@,
            };
            let ghost want = crate::markdown::views(paths@).map_values(|p: Seq<char>| (p, t));
            let mut out: Vec<DepfileConfig> = Vec::new();
            let mut i: usize = 0;
            while i < paths.len()
                invariant
                    i <= paths@.len(),
                    want == crate::markdown::views(paths@).map_values(|p: Seq<char>| (p, t)),
                    t == match cli_type {
                        Some(t) => t@,
                        None => "auto"@,
                    },
                    depfile_views(out@) == want.take(i as int),
                decreases paths@.len() - i,
            {
                let depfile_type = match cli_type {
                    Some(t) => String::from_str(t),
                    None => String::from_str("auto"),
                };
                let d = DepfileConfig { path: String::from_str(paths[i].as_str()), depfile_type };
                let ghost dv = depfile_view(d);
                let ghost before = out@;
                out.push(d);
                proof {
                    assert(dv == want[i as int]);
                    assert(depfile_views(out@) =~= depfile_views(before).push(dv));
                    assert(depfile_views(out@) =~= want.take(i + 1));
                }
                i = i + 1;
            }
            proof {
                assert(want.take(paths@.len() as int) =~= want);
            }
            Ok(out)
        },
        None => {
            let list = match project {
                Some(l) => l,
                None => match found {
                    Some(l) => l,
                    None => {
                        return Err(MissingDepfile);
                    },
                },
            };
            if list.len() == 0 {
                Err(MissingDepfile)
            } else {
                Ok(copy_depfiles(list))
            }
        },
    }
}

} // verus!
