# phylum_cli

The verified core of the Phylum command line client, written in Verus.

`src/` is the library. Its functions carry contracts that Verus proves;
the calls into outside crates (`url`, `chrono`, `regex`, `base64`, `sha2`,
`rand`, `console`, `textwrap`, `unicode-width`, `uuid`, `home`, `purl`) and a few std
functions stand behind small trusted wrappers, each with a doc comment
saying what its contract assumes of the call. A wrapper whose result
depends on the machine (the home directory, the file system, the clock, a
random source) states only what holds of every outcome. Job IDs are
UUIDs, read with the `uuid` crate.

- `filter` — risk filters (`crit,aut,...`), which issues they keep.
- `api` — job identifiers, groups and the routes of the Phylum API.
- `auth` — PKCE codes, authorization URLs, token request bodies, bearer
  token parts and the redirect handler of the login flow.
- `config`, `dirs`, `paths` — settings, XDG directories and Unix paths
  (joining, components, relative paths).
- `permissions`, `extension` — extension manifests, permissions, how they
  narrow one another, and the sandbox exceptions they grant.
- `markdown` — markdown pages of a command line.
- `deno_error` — JavaScript errors of extensions, rendered for the terminal.
- `report`, `format` — human-readable reports and text tables.
- `analyze` — the decisions of `phylum analyze`, one step at a time: which
  dependency file to parse, how parse failures map to exit codes, when a job
  is submitted, and how its policy outcome ends the command.
- `project_update` — the steps of `phylum project update`, one at a time:
  nothing to do without a change, which questions an interactive update
  asks, and what each project field becomes.
- `exception`, `init`, `lockfile` — the logic of `phylum exception` and
  `phylum init`: which suppressions a removal offers, where a new
  suppression's version comes from, which dependency files are picked and
  which lockfile format a file name stands for.
- `module_loader` — which JavaScript modules an extension may load, and how.
- `firewall`, `groups` — the filter of a firewall log request, and the
  order groups are listed in.
- `tokens` — how a stored token authenticates, and which tokens a
  selection revokes.
- `fs_compare`, `ninja`, `uninstall`, `exit_code` — directory comparison
  steps, build graph parsing, shell cleanup and exit codes.

Public proof functions named `law_*` state properties that span several
functions (filtering twice equals filtering once, paths-subset is a
preorder, distinct job IDs print differently, and so on);
`law_analyze_ends` shows that every analysis ends.

`app/` is the program around the library: argument handling, files,
network requests and terminal output. `tests/` exercises the library on
concrete values.
