use use_prompt::directive::{scan_directive, starts_with_prompt_prefix, BodyStmt, DirectiveScan};
use use_prompt::engine::{
    hygiene_prefix, make_imports_from_parsed, FnAction, PendingPolicy, SubstitutionVisitor,
    CODE_PARSE_FAILED, INCOMPLETE_PROMPT, MISSING_SUBSTITUTION,
};
use use_prompt::finalize::{finalize_module, FixImportsVisitor};
use use_prompt::hygiene::{IdentMap, RenameIdentVisitor, RenameImportsVisitor};
use use_prompt::module::{ImportDecl, ImportSpecifier, ModuleItem};
use use_prompt::store::{to_decimal, StoreEntry, Substitution, SubstitutionStore};

fn lit(s: &str) -> BodyStmt {
    BodyStmt::Literal(s.to_string())
}

fn entry(start: &str, end: &str, prompt: &str, code: &str, imports: Option<&str>) -> StoreEntry {
    StoreEntry {
        start: start.to_string(),
        end: end.to_string(),
        prompt: prompt.to_string(),
        substitution: Substitution {
            code: code.to_string(),
            imports: imports.map(|s| s.to_string()),
        },
    }
}

fn store_with(entries: Vec<StoreEntry>) -> SubstitutionStore {
    let mut store = SubstitutionStore::new();
    for e in entries {
        store.insert(e);
    }
    store
}

fn named(local: &str, imported: Option<&str>) -> ImportSpecifier {
    ImportSpecifier::Named {
        local: local.to_string(),
        imported: imported.map(|s| s.to_string()),
    }
}

fn import(specifiers: Vec<ImportSpecifier>, src: &str) -> ModuleItem {
    ModuleItem::Import(ImportDecl {
        specifiers,
        src: src.to_string(),
        type_only: false,
    })
}

fn default_import(local: &str, src: &str) -> ModuleItem {
    import(vec![ImportSpecifier::Default { local: local.to_string() }], src)
}

#[test]
fn scan_without_directive_is_not_found() {
    let body = vec![lit("use strict"), BodyStmt::Other];
    assert_eq!(scan_directive(&body), DirectiveScan::NotFound);
    assert_eq!(scan_directive(&vec![]), DirectiveScan::NotFound);
}

#[test]
fn scan_stops_at_first_non_literal() {
    let body = vec![BodyStmt::Other, lit("use prompt: a button")];
    assert_eq!(scan_directive(&body), DirectiveScan::NotFound);
}

#[test]
fn scan_finds_trimmed_text() {
    let body = vec![lit("use prompt:   a red button  "), BodyStmt::Other];
    assert_eq!(
        scan_directive(&body),
        DirectiveScan::Found("a red button".to_string())
    );
}

#[test]
fn scan_skips_other_prologue_literals() {
    let body = vec![lit("use strict"), lit("use prompt: foo"), lit("use prompt: bar")];
    assert_eq!(scan_directive(&body), DirectiveScan::Found("foo".to_string()));
}

#[test]
fn scan_empty_directive() {
    assert_eq!(scan_directive(&vec![lit("use prompt: ")]), DirectiveScan::Empty);
    assert_eq!(scan_directive(&vec![lit("use prompt:")]), DirectiveScan::Empty);
}

#[test]
fn prefix_is_exact() {
    assert!(starts_with_prompt_prefix("use prompt:x"));
    assert!(!starts_with_prompt_prefix("use prompt x"));
    assert!(!starts_with_prompt_prefix("Use prompt: x"));
    assert!(!starts_with_prompt_prefix("use prompt"));
}

#[test]
fn decimal_offsets() {
    assert_eq!(to_decimal(0), "0");
    assert_eq!(to_decimal(7), "7");
    assert_eq!(to_decimal(10), "10");
    assert_eq!(to_decimal(4294967295), "4294967295");
}

#[test]
fn store_matches_all_three_parts() {
    let store = store_with(vec![entry("10", "20", "foo", "return 1;", None)]);
    let found = store.lookup(10, 20, &"foo".to_string()).unwrap();
    assert_eq!(found.code, "return 1;");
    assert!(store.lookup(10, 21, &"foo".to_string()).is_none());
    assert!(store.lookup(11, 20, &"foo".to_string()).is_none());
    assert!(store.lookup(10, 20, &"fo".to_string()).is_none());
}

#[test]
fn store_keys_are_decimal_text() {
    let store = store_with(vec![entry("010", "20", "foo", "return 1;", None)]);
    assert!(store.lookup(10, 20, &"foo".to_string()).is_none());
}

#[test]
fn store_later_entry_replaces_earlier() {
    let store = store_with(vec![
        entry("1", "2", "p", "return 1;", None),
        entry("1", "2", "p", "return 2;", None),
    ]);
    assert_eq!(store.lookup(1, 2, &"p".to_string()).unwrap().code, "return 2;");
}

#[test]
fn function_without_directive_is_kept() {
    let store = store_with(vec![entry("10", "20", "foo", "return 1;", None)]);
    let mut vis = SubstitutionVisitor::new(store, PendingPolicy::Diagnostic);
    let body = vec![lit("use strict"), BodyStmt::Other];
    assert_eq!(vis.transform_fn_body(&body, 10, 20), FnAction::Keep);
    assert_eq!(vis.transform_fn_body(&vec![], 10, 20), FnAction::Keep);
    assert_eq!(vis.visited, 0);
}

#[test]
fn empty_directive_throws_whatever_the_store() {
    let store = store_with(vec![entry("10", "20", "", "return 1;", None)]);
    let mut vis = SubstitutionVisitor::new(store, PendingPolicy::Silent);
    let body = vec![lit("use prompt: ")];
    assert_eq!(
        vis.transform_fn_body(&body, 10, 20),
        FnAction::Throw(INCOMPLETE_PROMPT.to_string())
    );
    assert_eq!(vis.visited, 0);
}

#[test]
fn matching_entry_without_imports_is_spliced() {
    let store = store_with(vec![entry("10", "20", "foo", "return 1;", None)]);
    let mut vis = SubstitutionVisitor::new(store, PendingPolicy::Silent);
    let body = vec![lit("use prompt: foo"), BodyStmt::Other];
    assert_eq!(
        vis.transform_fn_body(&body, 10, 20),
        FnAction::Splice {
            code: "return 1;".to_string(),
            imports: None,
            prefix: "__swcPluginUsePromptImport__0_".to_string(),
        }
    );
    assert_eq!(vis.visited, 1);
    assert_eq!(vis.finish_splice(vec![], true), None);
    assert_eq!(vis.succeeded, 1);
}

#[test]
fn imports_are_renamed_with_the_visit_prefix() {
    let store = store_with(vec![entry(
        "10",
        "20",
        "foo",
        "return bar();",
        Some("import { bar } from 'x';"),
    )]);
    let mut vis = SubstitutionVisitor::new(store, PendingPolicy::Silent);
    vis.visited = 2;
    let action = vis.transform_fn_body(&vec![lit("use prompt: foo")], 10, 20);
    let prefix = match action {
        FnAction::Splice { code, imports, prefix } => {
            assert_eq!(code, "return bar();");
            assert_eq!(imports.as_deref(), Some("import { bar } from 'x';"));
            prefix
        }
        other => panic!("unexpected action {:?}", other),
    };
    assert_eq!(prefix, "__swcPluginUsePromptImport__2_");
    let parsed = vec![import(vec![named("bar", None)], "x")];
    let (renamed, map) = make_imports_from_parsed(Ok(parsed), &prefix).unwrap();
    assert_eq!(
        renamed,
        vec![import(
            vec![named("__swcPluginUsePromptImport__2_bar", Some("bar"))],
            "x"
        )]
    );
    let renamer = RenameIdentVisitor::new(map);
    assert_eq!(
        renamer.rename(&"bar".to_string()),
        "__swcPluginUsePromptImport__2_bar"
    );
    assert_eq!(renamer.rename(&"baz".to_string()), "baz");
    assert_eq!(vis.finish_splice(renamed, true), None);
    assert_eq!(vis.imports.len(), 1);
}

#[test]
fn renaming_keeps_exported_names_and_other_items() {
    let mut vis = RenameImportsVisitor::new("P_");
    let items = vec![
        import(
            vec![
                named("b", Some("a")),
                ImportSpecifier::Default { local: "D".to_string() },
                ImportSpecifier::Namespace { local: "ns".to_string() },
            ],
            "m",
        ),
        ModuleItem::Opaque(7),
    ];
    let out = vis.visit_module(items);
    assert_eq!(
        out,
        vec![
            import(
                vec![
                    named("P_b", Some("a")),
                    ImportSpecifier::Default { local: "P_D".to_string() },
                    ImportSpecifier::Namespace { local: "P_ns".to_string() },
                ],
                "m",
            ),
            ModuleItem::Opaque(7),
        ]
    );
    assert_eq!(vis.ident_map.get(&"b".to_string()), Some(&"P_b".to_string()));
    assert_eq!(vis.ident_map.get(&"ns".to_string()), Some(&"P_ns".to_string()));
    assert_eq!(vis.ident_map.get(&"a".to_string()), None);
}

#[test]
fn distinct_prefixes_per_visit() {
    assert_eq!(hygiene_prefix(0), "__swcPluginUsePromptImport__0_");
    assert_eq!(hygiene_prefix(12), "__swcPluginUsePromptImport__12_");
    let mut m = IdentMap::new();
    m.insert("x".to_string(), "y".to_string());
    m.insert("x".to_string(), "z".to_string());
    assert_eq!(m.get(&"x".to_string()), Some(&"z".to_string()));
}

#[test]
fn missing_substitution_follows_policy() {
    let body = vec![lit("use prompt: foo")];
    let mut silent = SubstitutionVisitor::new(SubstitutionStore::new(), PendingPolicy::Silent);
    assert_eq!(silent.transform_fn_body(&body, 1, 2), FnAction::Keep);
    assert_eq!(silent.visited, 1);
    let mut loud = SubstitutionVisitor::new(SubstitutionStore::new(), PendingPolicy::Diagnostic);
    assert_eq!(
        loud.transform_fn_body(&body, 1, 2),
        FnAction::Throw(MISSING_SUBSTITUTION.to_string())
    );
}

#[test]
fn parse_failures_give_messages() {
    let r = make_imports_from_parsed(Err("boom".to_string()), "P_");
    assert_eq!(r.err(), Some("uh oh: boom".to_string()));
    let mut vis = SubstitutionVisitor::new(SubstitutionStore::new(), PendingPolicy::Silent);
    let imports = vec![default_import("x", "y")];
    assert_eq!(
        vis.finish_splice(imports, false),
        Some(CODE_PARSE_FAILED.to_string())
    );
    assert!(vis.imports.is_empty());
    assert_eq!(vis.succeeded, 0);
}

#[test]
fn finalize_adds_directive_imports_and_framework() {
    let mut items = vec![ModuleItem::Opaque(1)];
    let acc = vec![default_import("P_x", "x")];
    finalize_module(&mut items, true, acc);
    assert_eq!(
        items,
        vec![
            ModuleItem::Literal("use client".to_string()),
            ModuleItem::Opaque(1),
            default_import("P_x", "x"),
            default_import("React", "react"),
        ]
    );
}

#[test]
fn finalize_twice_changes_nothing() {
    let mut items = vec![ModuleItem::Opaque(1), ModuleItem::Opaque(2)];
    finalize_module(&mut items, true, vec![default_import("P_x", "x")]);
    let once = format!("{:?}", items);
    finalize_module(&mut items, true, vec![]);
    assert_eq!(format!("{:?}", items), once);
    assert_eq!(items.len(), 5);
}

#[test]
fn finalize_without_success_adds_no_directive() {
    let mut items = vec![ModuleItem::Literal("use client".to_string())];
    finalize_module(&mut items, true, vec![]);
    assert_eq!(items.len(), 2);
    let mut plain = vec![ModuleItem::Opaque(3)];
    finalize_module(&mut plain, false, vec![]);
    assert_eq!(
        plain,
        vec![ModuleItem::Opaque(3), default_import("React", "react")]
    );
}

#[test]
fn framework_import_only_by_default_binding() {
    let mut fix = FixImportsVisitor::new();
    assert!(!fix.has_react);
    let mut items = vec![default_import("React", "preact/compat")];
    fix.visit_module(&mut items);
    assert!(fix.has_react);
    assert_eq!(items.len(), 1);
    let mut fix = FixImportsVisitor::new();
    let mut items = vec![import(vec![named("React", None)], "react")];
    fix.visit_module(&mut items);
    assert_eq!(items.len(), 2);
}

#[test]
fn two_passes_decide_alike() {
    let run = || {
        let store = store_with(vec![
            entry("10", "20", "foo", "return 1;", Some("import a from 'a';")),
            entry("30", "40", "bar", "return 2;", None),
        ]);
        let mut vis = SubstitutionVisitor::new(store, PendingPolicy::Diagnostic);
        let mut out = vec![];
        out.push(vis.transform_fn_body(&vec![lit("use prompt: foo")], 10, 20));
        out.push(vis.transform_fn_body(&vec![lit("use prompt: bar")], 30, 40));
        out.push(vis.transform_fn_body(&vec![lit("use prompt: baz")], 50, 60));
        format!("{:?}", out)
    };
    assert_eq!(run(), run());
}
