use phylum_cli::module_loader::{
    builtin_import, module_load_plan, LoadError, LoadPlan, MediaKind, ModuleKind, ModuleOrigin,
};

#[test]
fn the_phylum_module_is_built_in() {
    assert_eq!(builtin_import("phylum"), Some("deno:phylum".to_string()));
    assert_eq!(builtin_import("phylum2"), None);
    assert_eq!(builtin_import("./lib.ts"), None);
    assert_eq!(
        module_load_plan("deno:phylum", MediaKind::Other),
        Ok(LoadPlan { origin: ModuleOrigin::PhylumApi, kind: ModuleKind::JavaScript, transpile: false })
    );
}

#[test]
fn local_and_remote_modules_load_by_format() {
    assert_eq!(
        module_load_plan("file:///ext/main.ts", MediaKind::TypeScript),
        Ok(LoadPlan { origin: ModuleOrigin::File, kind: ModuleKind::JavaScript, transpile: true })
    );
    assert_eq!(
        module_load_plan("file:///ext/lib.mjs", MediaKind::Mjs),
        Ok(LoadPlan { origin: ModuleOrigin::File, kind: ModuleKind::JavaScript, transpile: false })
    );
    assert_eq!(
        module_load_plan("https://deno.land/std/x.json", MediaKind::Json),
        Ok(LoadPlan { origin: ModuleOrigin::Remote, kind: ModuleKind::Json, transpile: false })
    );
}

#[test]
fn other_modules_are_refused() {
    assert_eq!(
        module_load_plan("file:///ext/x.wasm", MediaKind::Other),
        Err(LoadError::UnknownFormat("file:///ext/x.wasm".into()))
    );
    assert_eq!(
        module_load_plan("http://example.com/x.js", MediaKind::JavaScript),
        Err(LoadError::UnsupportedSpecifier("http://example.com/x.js".into()))
    );
    assert_eq!(
        module_load_plan("deno:phylumx", MediaKind::JavaScript),
        Err(LoadError::UnsupportedSpecifier("deno:phylumx".into()))
    );
}
