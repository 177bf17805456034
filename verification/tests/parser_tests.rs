use vitest_linter::models::{HookKind, MockScope};
use vitest_linter::parser::TsParser;

#[test]
fn parse_simple_test_file() {
    const SOURCE: &str = r#"
import { test, expect } from 'vitest';

test('adds numbers', () => {
    expect(1 + 1).toBe(2);
});
"#;
    let parser = TsParser::new().unwrap();
    let module = parser.parse_file("simple.test.ts", SOURCE).unwrap();

    assert_eq!(module.test_blocks.len(), 1);
    assert_eq!(module.test_blocks[0].name, "adds numbers");
    assert!(module.test_blocks[0].has_assertions);
    assert_eq!(module.test_blocks[0].assertion_count, 1);
    assert!(!module.test_blocks[0].is_skipped);
    assert!(!module.test_blocks[0].is_nested);
}

#[test]
fn parse_detects_fake_timers() {
    const SOURCE: &str = r#"
import { test, expect, vi } from 'vitest';

test('with fake timers', () => {
    vi.useFakeTimers();
    expect(true).toBe(true);
});
"#;
    let parser = TsParser::new().unwrap();
    let module = parser.parse_file("fake.test.ts", SOURCE).unwrap();

    assert!(module.has_fake_timers);
}

#[test]
fn parse_skipped_test() {
    const SOURCE: &str = r#"
import { test, expect } from 'vitest';

test.skip('skipped', () => {
    expect(1).toBe(1);
});
"#;
    let parser = TsParser::new().unwrap();
    let module = parser.parse_file("skip.test.ts", SOURCE).unwrap();

    assert_eq!(module.test_blocks.len(), 1);
    assert!(module.test_blocks[0].is_skipped);
}

#[test]
fn parse_nested_describe() {
    const SOURCE: &str = r#"
import { describe, test, expect } from 'vitest';

describe('level1', () => {
    describe('level2', () => {
    describe('level3', () => {
        describe('level4', () => {
            test('deeply nested', () => {
                expect(1).toBe(1);
            });
        });
    });
    });
});
"#;
    let parser = TsParser::new().unwrap();
    let module = parser.parse_file("nested.test.ts", SOURCE).unwrap();

    assert_eq!(module.test_blocks.len(), 1);
    assert!(module.test_blocks[0].is_nested);
}

#[test]
fn parse_imports() {
    const SOURCE: &str = r#"
import { test, expect } from 'vitest';
import axios from 'axios';
"#;
    let parser = TsParser::new().unwrap();
    let module = parser.parse_file("imports.test.ts", SOURCE).unwrap();

    assert!(module.imports.iter().any(|i| i.contains("axios")));
    assert!(module.imports.iter().any(|i| i.contains("vitest")));
}

#[test]
fn parse_describe_with_extra_args() {
    const SOURCE: &str = r#"
import { describe, test, expect } from 'vitest';

describe('with extra', () => {
    test('inside', () => {
    expect(1).toBe(1);
    });
}, extraConfig);
"#;
    let parser = TsParser::new().unwrap();
    let module = parser.parse_file("extra.test.ts", SOURCE).unwrap();

    assert_eq!(module.test_blocks.len(), 1);
    assert_eq!(module.test_blocks[0].name, "inside");
    assert!(module.test_blocks[0].has_assertions);
}

#[test]
fn parse_test_name_only_no_callback() {
    const SOURCE: &str = r#"
import { test } from 'vitest';

test('name only');
"#;
    let parser = TsParser::new().unwrap();
    let module = parser.parse_file("nameonly.test.ts", SOURCE).unwrap();

    assert_eq!(module.test_blocks.len(), 1);
    assert_eq!(module.test_blocks[0].name, "name only");
    assert!(!module.test_blocks[0].has_assertions);
}

#[test]
fn parse_test_with_function_expression() {
    const SOURCE: &str = r#"
import { test, expect } from 'vitest';

test('function expr', function() {
    expect(1).toBe(1);
});
"#;
    let parser = TsParser::new().unwrap();
    let module = parser.parse_file("funcexpr.test.ts", SOURCE).unwrap();

    assert_eq!(module.test_blocks.len(), 1);
    assert!(module.test_blocks[0].has_assertions);
    assert_eq!(module.test_blocks[0].assertion_count, 1);
}

#[test]
fn parse_single_describe_not_nested() {
    const SOURCE: &str = r#"
import { describe, test, expect } from 'vitest';

describe('only one level', () => {
    test('not nested', () => {
    expect(1).toBe(1);
    });
});
"#;
    let parser = TsParser::new().unwrap();
    let module = parser.parse_file("single.test.ts", SOURCE).unwrap();

    assert_eq!(module.test_blocks.len(), 1);
    assert!(!module.test_blocks[0].is_nested);
}

#[test]
fn parse_line_number_correct() {
    const SOURCE: &str = r#"import { test, expect } from 'vitest';

test('line check', () => {
    expect(1).toBe(1);
});"#;
    let parser = TsParser::new().unwrap();
    let module = parser.parse_file("line.test.ts", SOURCE).unwrap();

    assert_eq!(module.test_blocks.len(), 1);
    assert_eq!(module.test_blocks[0].line, 3);
}

#[test]
fn parse_single_assertion_not_multiple() {
    const SOURCE: &str = r#"
import { test, expect } from 'vitest';

test('one assert', () => {
    expect(1).toBe(1);
});
"#;
    let parser = TsParser::new().unwrap();
    let module = parser.parse_file("one.test.ts", SOURCE).unwrap();

    assert_eq!(module.test_blocks.len(), 1);
    assert_eq!(module.test_blocks[0].assertion_count, 1);
    assert!(!module.test_blocks[0].has_multiple_expects);
}

#[test]
fn parse_two_assertions_is_multiple() {
    const SOURCE: &str = r#"
import { test, expect } from 'vitest';

test('two asserts', () => {
    expect(1).toBe(1);
    expect(2).toBe(2);
});
"#;
    let parser = TsParser::new().unwrap();
    let module = parser.parse_file("two.test.ts", SOURCE).unwrap();

    assert_eq!(module.test_blocks.len(), 1);
    assert_eq!(module.test_blocks[0].assertion_count, 2);
    assert!(module.test_blocks[0].has_multiple_expects);
}

#[test]
fn parse_tsx_file_with_jsx() {
    const SOURCE: &str = r#"
import { render, screen } from '@testing-library/react';
import { test, expect } from 'vitest';
import MyComponent from './MyComponent';

test('renders label', () => {
    render(<MyComponent />);
    expect(screen.getByText('hello')).toBeTruthy();
});
"#;
    let parser = TsParser::new().unwrap();
    let module = parser.parse_file("component.test.tsx", SOURCE).unwrap();

    assert_eq!(module.test_blocks.len(), 1);
    assert_eq!(module.test_blocks[0].name, "renders label");
    assert!(module.test_blocks[0].has_assertions);
}

#[test]
fn parse_deeply_nested_describe_with_extra_args() {
    const SOURCE: &str = r#"
import { describe, test, expect } from 'vitest';

describe('level1', () => {
    describe('level2', () => {
    describe('level3', () => {
        describe('level4', () => {
            test('deep', () => {
                expect(1).toBe(1);
            });
        });
    });
    });
}, config);
"#;
    let parser = TsParser::new().unwrap();
    let module = parser.parse_file("deep.test.ts", SOURCE).unwrap();

    assert_eq!(module.test_blocks.len(), 1);
    assert!(
        module.test_blocks[0].is_nested,
        "test inside 4-level nested describe should be is_nested"
    );
    assert!(module.test_blocks[0].has_assertions);
}

#[test]
fn parse_vi_mock_module_scope() {
    const SOURCE: &str = r#"
import { vi } from 'vitest';

vi.mock('../infrastructure/database', () => ({ db: {} }));
"#;
    let parser = TsParser::new().unwrap();
    let module = parser.parse_file("mock.test.ts", SOURCE).unwrap();

    assert_eq!(module.vi_mocks.len(), 1);
    assert_eq!(module.vi_mocks[0].source, "../infrastructure/database");
    assert_eq!(module.vi_mocks[0].scope, MockScope::Module);
}

#[test]
fn parse_imports_structured_named_default_namespace() {
    const SOURCE: &str = r#"
import { test, expect } from 'vitest';
import axios from 'axios';
import * as fs from 'fs';
import { progressPersistence } from './progress-persistence';
"#;
    let parser = TsParser::new().unwrap();
    let module = parser.parse_file("structured.test.ts", SOURCE).unwrap();

    let vitest = module
        .imports_parsed
        .iter()
        .find(|e| e.source == "vitest")
        .unwrap();
    assert!(vitest.named.contains(&"test".to_string()));
    assert!(vitest.named.contains(&"expect".to_string()));

    let axios = module
        .imports_parsed
        .iter()
        .find(|e| e.source == "axios")
        .unwrap();
    assert_eq!(axios.default.as_deref(), Some("axios"));

    let fs_imp = module
        .imports_parsed
        .iter()
        .find(|e| e.source == "fs")
        .unwrap();
    assert_eq!(fs_imp.namespace.as_deref(), Some("fs"));

    let pp = module
        .imports_parsed
        .iter()
        .find(|e| e.source == "./progress-persistence")
        .unwrap();
    assert!(pp.named.contains(&"progressPersistence".to_string()));
}

#[test]
fn parse_hook_calls_capture_vi_methods() {
    const SOURCE: &str = r#"
import { beforeEach, afterEach, vi } from 'vitest';

beforeEach(() => {
    vi.resetModules();
    vi.restoreAllMocks();
});

afterEach(() => {
    vi.clearAllMocks();
});
"#;
    let parser = TsParser::new().unwrap();
    let module = parser.parse_file("hooks.test.ts", SOURCE).unwrap();

    assert_eq!(module.hook_calls.len(), 2);
    let before = module
        .hook_calls
        .iter()
        .find(|h| h.kind == HookKind::BeforeEach)
        .unwrap();
    assert!(before.vi_calls.iter().any(|c| c == "vi.resetModules"));
    assert!(before.vi_calls.iter().any(|c| c == "vi.restoreAllMocks"));
    let after = module
        .hook_calls
        .iter()
        .find(|h| h.kind == HookKind::AfterEach)
        .unwrap();
    assert!(after.vi_calls.iter().any(|c| c == "vi.clearAllMocks"));
}

#[test]
fn parse_vi_mock_dynamic_import() {
    const SOURCE: &str = r#"
import { vi } from 'vitest';

vi.mock(import('../infrastructure/database'));
"#;
    let parser = TsParser::new().unwrap();
    let module = parser.parse_file("dynmock.test.ts", SOURCE).unwrap();

    assert_eq!(module.vi_mocks.len(), 1);
    assert_eq!(module.vi_mocks[0].source, "../infrastructure/database");
    assert_eq!(module.vi_mocks[0].scope, MockScope::Module);
}

#[test]
fn parse_vi_mock_template_interpolation_ignored() {
    const SOURCE: &str = r#"
import { vi } from 'vitest';

vi.mock(`../${name}`);
"#;
    let parser = TsParser::new().unwrap();
    let module = parser.parse_file("interp.test.ts", SOURCE).unwrap();

    assert_eq!(module.vi_mocks.len(), 0);
}
