use phylum_cli::ninja::{parse_ninja_deps, parse_ninja_graph};

const MOCK_GRAPH: &str = r#"
digraph ninja {
rankdir="LR"
node [fontsize=10, shape=box, height=0.25]
edge [fontsize=10]
"0x7fc3c040c210" [label="default"]
"0x7fc3c040a7f0" -> "0x7fc3c040c210" [label=" phony"]
"0x7fc3c040a7f0" [label="obj/default.stamp"]
"0x7fc3c040a790" [label="stamp", shape=ellipse]
"0x7fc3c040a790" -> "0x7fc3c040a7f0"
"0x7fc3c040a6c0" -> "0x7fc3c040a790" [arrowhead=none]
"0x7fc3c040a8a0" -> "0x7fc3c040a790" [arrowhead=none]
"0x7fc3c040a920" -> "0x7fc3c040a790" [arrowhead=none]
"0x7fc3c040a6c0" [label="obj/count_bytes.stamp"]
"0x7fc3c040a4d0" -> "0x7fc3c040a6c0" [label=" stamp"]
"0x7fc3c040a4d0" [label="gen/output.txt"]
"0x7fc3c040a400" [label="___count_bytes___build_toolchain_mac_clang_x64__rule", shape=ellipse]
"0x7fc3c040a400" -> "0x7fc3c040a4d0"
"0x7fc3c040a580" -> "0x7fc3c040a400" [arrowhead=none]
"0x7fc3c040a620" -> "0x7fc3c040a400" [arrowhead=none]
"0x7fc3c040a580" [label="../../../example/src/count_bytes.py"]
"0x7fc3c040a620" [label="../../../example/src/input.txt"]
"0x7fc3c040a8a0" [label="foo"]
"0x7fc3c040b5e0" [label="link", shape=ellipse]
"0x7fc3c040b5e0" -> "0x7fc3c040a8a0"
"0x7fc3c040b5e0" -> "0x7fc3c040b6d0"
"0x7fc3c040b5e0" -> "0x7fc3c040b780"
"0x7fc3c040b5e0" -> "0x7fc3c040b820"
"0x7fc3c040b020" -> "0x7fc3c040b5e0" [arrowhead=none]
"0x7fc3c040a920" -> "0x7fc3c040b5e0" [arrowhead=none]
"0x7fc3c040b020" [label="obj/foo/foo.o"]
"0x7fc3c040b0d0" -> "0x7fc3c040b020" [label=" cxx"]
"0x7fc3c040b0d0" [label="../../../example/src/foo.cc"]
"0x7fc3c040a920" [label="obj/libhello.a"]
"0x7fc3c040be00" -> "0x7fc3c040a920" [label=" alink"]
"0x7fc3c040be00" [label="obj/hello/hello.o"]
"0x7fc3c040beb0" -> "0x7fc3c040be00" [label=" cxx"]
"0x7fc3c040beb0" [label="../../../example/src/hello.cc"]
}
  "#;

#[test]
fn test_parse_ninja_graph() {
    let files = parse_ninja_graph(MOCK_GRAPH);
    assert!(files.contains(&"../../../example/src/input.txt".to_string()));
    assert!(files.contains(&"../../../example/src/count_bytes.py".to_string()));
    assert!(!files.contains(&"obj/hello/hello.o".to_string()));
}

#[test]
fn graph_files_are_the_source_labels_once_each() {
    let mut files = parse_ninja_graph(MOCK_GRAPH);
    files.sort();
    assert_eq!(files, vec![
        "../../../example/src/count_bytes.py".to_string(),
        "../../../example/src/foo.cc".to_string(),
        "../../../example/src/hello.cc".to_string(),
        "../../../example/src/input.txt".to_string(),
    ]);
    let twice = "\"a\" [label=\"../x.c\"]\n\"b\" [label=\"../x.c\"]\n";
    assert_eq!(parse_ninja_graph(twice), vec!["../x.c".to_string()]);
}

#[test]
fn deps_lists_indented_files() {
    let deps = "obj/foo.o: #deps 2, deps mtime 1 (VALID)\n    ../src/foo.cc\n    ../src/foo.h\n\nobj/bar.o: #deps 1\n    ../src/foo.h\n";
    let mut files = parse_ninja_deps(deps);
    files.sort();
    assert_eq!(files, vec!["../src/foo.cc".to_string(), "../src/foo.h".to_string()]);
}
