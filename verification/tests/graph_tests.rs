use vitest_linter::models::{ModuleGraph, ParsedModule};
use vitest_linter::parser::TsParser;

fn parse(content: &str, name: &str) -> ParsedModule {
    TsParser::new().unwrap().parse_file(name, content).unwrap()
}

fn module(path: &str, imports: &[&str]) -> ParsedModule {
    ParsedModule {
        file_path: path.to_string(),
        imports: imports.iter().map(|s| s.to_string()).collect(),
        ..ParsedModule::default()
    }
}

#[test]
fn graph_resolves_relative_imports_by_extension_order() {
    let test = parse(
        "import { x } from './util';\nimport y from 'lib';\nimport z from '../shared/z';\n",
        "src/a.test.ts",
    );
    let tests = vec![test];
    let sources = vec![
        module("src/util.js", &[]),
        module("src/util.ts", &[]),
        module("shared/z.tsx", &[]),
        module("lib.ts", &[]),
    ];
    let g = ModuleGraph::new(&tests, &sources);
    let deps: Vec<&str> = g
        .get_dependencies("src/a.test.ts")
        .iter()
        .map(|m| m.file_path.as_str())
        .collect();
    // `../shared/z` joins to `src/../shared/z`, whose components are not
    // those of `shared/z.tsx`: paths are compared without resolving `..`.
    assert_eq!(deps, vec!["src/util.ts"]);
    assert!(g.get_dependencies("src/util.ts").is_empty());
    assert!(g.get_dependencies("missing.test.ts").is_empty());
    let r = g.resolve_relative("src/a.test.ts", "./util").unwrap();
    assert_eq!(r.file_path, "src/util.ts");
    assert!(g.resolve_relative("src/a.test.ts", "./nothing").is_none());
}

#[test]
fn graph_lookup_by_path_components_and_last_module_wins() {
    let tests = vec![module("a.test.ts", &["first"])];
    let sources = vec![
        module("lib/m.ts", &["one"]),
        module("lib//m.ts", &["two"]),
    ];
    let g = ModuleGraph::new(&tests, &sources);
    let m = g.get_module("lib/./m.ts").unwrap();
    assert_eq!(m.imports, vec!["two".to_string()]);
    assert_eq!(g.get_module("a.test.ts").unwrap().imports, vec!["first".to_string()]);
    assert!(g.get_module("lib/n.ts").is_none());
}
