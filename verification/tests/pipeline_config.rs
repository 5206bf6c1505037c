use dalbit::ast::{Block, Expr, Field, FunctionCall, IndexSuffix, LastStmt, Stmt, StmtItem, Suffix};
use dalbit::cli::{Dal, CliSubcommand, GlobalOptions, LevelFilter, TranspileCommand};
use dalbit::config::ConfigMap;
use dalbit::errors::TranspileError;
use dalbit::exports::get_exports_from_last_stmt;
use dalbit::manifest::{Manifest, default_injected_polyfill_name};
use dalbit::modifier::{Modifier, VisitorKind, get_modifier_by_name};
use dalbit::pipeline::{
    RunState, dec_text, error_report, materialize_modifiers, next_state, process_tree,
    replace_extension,
};
use dalbit::polyfill::Polyfill;
use dalbit::transpiler::Transpiler;

fn config(entries: Vec<(&str, bool)>) -> ConfigMap {
    let mut m = ConfigMap::new();
    for (name, value) in entries {
        m.insert(String::from(name), value);
    }
    m
}

fn bare_call_block(prefix: &str, method: &str) -> Block {
    let fc = FunctionCall {
        prefix: String::from(prefix),
        suffixes: vec![
            Suffix::Index(IndexSuffix::Dot(String::from(method))),
            Suffix::Call(vec![
                Expr::Number(String::from("1")),
                Expr::Number(String::from("2")),
            ]),
        ],
    };
    Block {
        stmts: vec![StmtItem {
            leading: Vec::new(),
            stmt: Stmt::FunctionCall(fc),
            semicolon: None,
            trailing: Vec::new(),
        }],
        last_stmt: None,
        trailing: Vec::new(),
    }
}

#[test]
fn unknown_modifier_name_is_configuration_error() {
    match get_modifier_by_name(&String::from("does_not_exist")) {
        Err(TranspileError::Configuration(msg)) => assert_eq!(msg, "does_not_exist"),
        _ => panic!("expected a configuration error"),
    }
}

#[test]
fn materialize_fails_fast_on_unknown_enabled_name() {
    let cfg = config(vec![("remove_types", true), ("mystery", true), ("remove_spaces", true)]);
    match materialize_modifiers(&cfg) {
        Err(TranspileError::Configuration(msg)) => assert_eq!(msg, "mystery"),
        _ => panic!("expected a configuration error"),
    }
}

#[test]
fn disabled_unknown_name_is_ignored() {
    let cfg = config(vec![("mystery", false), ("remove_types", true)]);
    let m = materialize_modifiers(&cfg).unwrap();
    assert_eq!(m.rules, vec![String::from("remove_types")]);
    assert!(m.visitors.is_empty());
}

#[test]
fn materialize_partitions_rules_and_visitors_in_order() {
    let cfg = config(vec![
        ("remove_types", true),
        ("convert_bit32", true),
        ("remove_comments", true),
        ("remove_empty_do", true),
        ("remove_spaces", false),
    ]);
    let m = materialize_modifiers(&cfg).unwrap();
    assert_eq!(m.rules, vec![String::from("remove_types"), String::from("remove_comments")]);
    assert_eq!(m.visitors, vec![VisitorKind::ConvertBit32, VisitorKind::RemoveEmptyDo]);
}

#[test]
fn known_names_resolve_to_their_kind() {
    match get_modifier_by_name(&String::from("convert_bit32")).unwrap() {
        Modifier::FullMoonVisitor(VisitorKind::ConvertBit32) => {},
        _ => panic!("expected the bitwise-conversion visitor"),
    }
    match get_modifier_by_name(&String::from("remove_generalized_iteration")).unwrap() {
        Modifier::DarkluaRule(name) => assert_eq!(name, "remove_generalized_iteration"),
        _ => panic!("expected a rule"),
    }
}

#[test]
fn engine_catalog_names_resolve_as_rules() {
    for name in [
        "rename_variables",
        "remove_assertions",
        "inject_global_value",
        "convert_luau_number",
        "remove_method_definition",
        "remove_generalized_iteration",
        "remove_redeclared_keys",
        "remove_number_literals",
    ] {
        match get_modifier_by_name(&String::from(name)).unwrap() {
            Modifier::DarkluaRule(n) => assert_eq!(n, name),
            _ => panic!("expected a rule"),
        }
    }
}

#[test]
fn parsing_a_modifier_name_matches_resolution() {
    match "convert_bit32".parse::<Modifier>().unwrap() {
        Modifier::FullMoonVisitor(VisitorKind::ConvertBit32) => {},
        _ => panic!("expected the bitwise-conversion visitor"),
    }
    match "rename_variables".parse::<Modifier>().unwrap() {
        Modifier::DarkluaRule(n) => assert_eq!(n, "rename_variables"),
        _ => panic!("expected a rule"),
    }
    match "no_such_rule".parse::<Modifier>() {
        Err(TranspileError::Configuration(msg)) => assert_eq!(msg, "no_such_rule"),
        _ => panic!("expected a configuration error"),
    }
}

#[test]
fn converted_bare_call_and_empty_do_removal_leave_no_trace() {
    let cfg = config(vec![("convert_bit32", true), ("remove_empty_do", true)]);
    let m = materialize_modifiers(&cfg).unwrap();
    let b = bare_call_block("bit32", "band");
    let out = process_tree(&m.visitors, &b);
    assert_eq!(out, "");
    assert!(!out.contains("bit32"));
    assert!(!out.contains("do"));
}

#[test]
fn assigned_call_converts_in_place_without_placeholder() {
    let cfg = config(vec![("convert_bit32", true), ("remove_empty_do", true)]);
    let m = materialize_modifiers(&cfg).unwrap();
    let fc = FunctionCall {
        prefix: String::from("bit32"),
        suffixes: vec![
            Suffix::Index(IndexSuffix::Dot(String::from("band"))),
            Suffix::Call(vec![
                Expr::Number(String::from("1")),
                Expr::Number(String::from("2")),
            ]),
        ],
    };
    let b = Block {
        stmts: vec![StmtItem {
            leading: Vec::new(),
            stmt: Stmt::Assignment(
                vec![dalbit::ast::Var::Name(String::from("localX"))],
                vec![Expr::Call(fc)],
            ),
            semicolon: None,
            trailing: Vec::new(),
        }],
        last_stmt: None,
        trailing: Vec::new(),
    };
    let out = process_tree(&m.visitors, &b);
    assert_eq!(out, "localX = ((1 & 2) & 0xFFFFFFFF)");
    assert!(!out.contains("bit32"));
}

#[test]
fn placeholder_stays_when_removal_pass_disabled() {
    let cfg = config(vec![("convert_bit32", true)]);
    let m = materialize_modifiers(&cfg).unwrap();
    let b = bare_call_block("bit32", "band");
    assert_eq!(process_tree(&m.visitors, &b), "do end");
}

#[test]
fn repeated_runs_give_byte_identical_output() {
    let cfg = config(vec![("convert_bit32", true), ("remove_empty_do", true)]);
    let m1 = materialize_modifiers(&cfg).unwrap();
    let m2 = materialize_modifiers(&cfg).unwrap();
    let first = process_tree(&m1.visitors, &bare_call_block("bit32", "band"));
    let second = process_tree(&m2.visitors, &bare_call_block("bit32", "band"));
    assert_eq!(first, second);
}

#[test]
fn config_insert_updates_in_place_and_appends_new() {
    let mut m = ConfigMap::new();
    m.insert(String::from("a"), true);
    m.insert(String::from("b"), true);
    m.insert(String::from("a"), false);
    assert_eq!(m.len(), 2);
    assert_eq!(m.name_at(0).as_str(), "a");
    assert_eq!(m.enabled_at(0), false);
    assert_eq!(m.name_at(1).as_str(), "b");
    assert_eq!(m.enabled_at(1), true);
    assert_eq!(m.get(&String::from("a")), Some(false));
    assert_eq!(m.get(&String::from("c")), None);
}

#[test]
fn override_false_always_wins() {
    let t = Transpiler::default();
    let overrides = config(vec![("remove_types", false)]);
    let t = t.with_modifiers(&overrides);
    assert_eq!(t.modifiers.get(&String::from("remove_types")), Some(false));
}

#[test]
fn absent_override_keeps_default() {
    let t = Transpiler::default().with_modifiers(&config(vec![("remove_types", false)]));
    assert_eq!(t.modifiers.get(&String::from("remove_continue")), Some(true));
}

#[test]
fn override_of_new_name_takes_its_value() {
    let t = Transpiler::default().with_modifiers(&config(vec![("convert_bit32", true)]));
    assert_eq!(t.modifiers.get(&String::from("convert_bit32")), Some(true));
}

#[test]
fn minifying_modifiers_enable_empty_do_removal() {
    let t = Transpiler::default().with_minifying_modifiers();
    assert_eq!(t.modifiers.get(&String::from("remove_empty_do")), Some(true));
    assert_eq!(t.modifiers.get(&String::from("remove_spaces")), Some(true));
}

#[test]
fn with_manifest_takes_extension_version_and_minify() {
    let manifest = Manifest::default();
    let t = Transpiler::default().with_manifest(&manifest);
    assert_eq!(t.extension.as_deref(), Some("lua"));
    assert_eq!(t.target_version, dalbit::version::TargetVersion::Lua53);
    assert_eq!(t.modifiers.get(&String::from("remove_empty_do")), Some(true));
}

#[test]
fn manifest_defaults() {
    let m = Manifest::default();
    assert_eq!(m.input().as_str(), "input.luau");
    assert_eq!(m.output().as_str(), "output.lua");
    assert_eq!(m.file_extension().as_deref(), Some("lua"));
    assert_eq!(m.injected_polyfill_name().as_str(), "__polyfill__");
    assert!(m.minify);
    assert_eq!(m.polyfills().len(), 1);
    assert_eq!(m.polyfills()[0].location, "");
    assert_eq!(m.polyfills()[0].config.len(), 0);
    assert!(m.polyfills()[0].exports.is_empty());
    assert_eq!(default_injected_polyfill_name(), "__polyfill__");
}

#[test]
fn log_level_mapping() {
    assert_eq!(GlobalOptions { verbose: 0 }.get_log_level_filter(), LevelFilter::Warn);
    assert_eq!(GlobalOptions { verbose: 1 }.get_log_level_filter(), LevelFilter::Info);
    assert_eq!(GlobalOptions { verbose: 2 }.get_log_level_filter(), LevelFilter::Debug);
    assert_eq!(GlobalOptions { verbose: 7 }.get_log_level_filter(), LevelFilter::Trace);
    let dal = Dal {
        global_options: GlobalOptions { verbose: 1 },
        subcommand: CliSubcommand::Transpile(TranspileCommand {}),
    };
    assert_eq!(dal.get_log_level_filter(), LevelFilter::Info);
}

#[test]
fn polyfill_injections_carry_prefix_and_defaults() {
    let p = Polyfill::new(
        String::from("pf"),
        config(vec![("strict", true), ("debug", false)]),
        vec![String::from("math")],
    );
    let plan = p.plan_injections();
    assert_eq!(plan.len(), 2);
    assert_eq!(plan[0].name, "DALBIT_strict");
    assert!(plan[0].value);
    assert_eq!(plan[1].name, "DALBIT_debug");
    assert!(!plan[1].value);
    assert_eq!(p.bundle_output_dir(), "pf/bundled");
}

#[test]
fn replace_extension_swaps_or_appends() {
    assert_eq!(replace_extension(&String::from("out/file.tmp"), &String::from("lua")), "out/file.lua");
    assert_eq!(replace_extension(&String::from("file"), &String::from("lua")), "file.lua");
    assert_eq!(replace_extension(&String::from("a.b/c"), &String::from("lua")), "a.b/c.lua");
    assert_eq!(replace_extension(&String::from("x.luau"), &String::from("lua")), "x.lua");
    assert_eq!(
        replace_extension(&String::from("dir/.hidden"), &String::from("lua")),
        "dir/.hidden.lua"
    );
    assert_eq!(
        replace_extension(&String::from("dir/.hidden.tmp"), &String::from("lua")),
        "dir/.hidden.lua"
    );
}

#[test]
fn error_report_counts_and_lists() {
    assert_eq!(
        error_report(1, &vec![String::from("bad file")]),
        "but 1 error happened:\n-> bad file"
    );
    assert_eq!(
        error_report(0, &vec![String::from("one"), String::from("two")]),
        "2 errors happened:\n-> one\n-> two"
    );
    assert_eq!(dec_text(0), "0");
    assert_eq!(dec_text(105), "105");
}

#[test]
fn run_states_advance_and_fail() {
    assert_eq!(next_state(RunState::Configuring, true, true), RunState::RuleBasedApplication);
    assert_eq!(next_state(RunState::Configuring, false, true), RunState::Failed);
    assert_eq!(
        next_state(RunState::RuleBasedApplication, true, true),
        RunState::VisitorApplication
    );
    assert_eq!(next_state(RunState::RuleBasedApplication, true, false), RunState::Completed);
    assert_eq!(next_state(RunState::RuleBasedApplication, false, true), RunState::Failed);
    assert_eq!(next_state(RunState::VisitorApplication, true, false), RunState::Completed);
}

#[test]
fn exports_read_from_trailing_return_table() {
    let table = Expr::TableConstructor(vec![
        Field::NameKey(String::from("foo"), Expr::Number(String::from("1"))),
        Field::ExpressionKey(
            Box::new(Expr::Str(String::from("\"bar\""))),
            Box::new(Expr::Number(String::from("2"))),
        ),
        Field::NameKey(String::from("foo"), Expr::Number(String::from("3"))),
        Field::Positional(Expr::Number(String::from("4"))),
    ]);
    let b = Block {
        stmts: Vec::new(),
        last_stmt: Some(dalbit::ast::LastItem {
            leading: Vec::new(),
            stmt: LastStmt::Return(vec![table]),
            semicolon: None,
            trailing: Vec::new(),
        }),
        trailing: Vec::new(),
    };
    let exports = get_exports_from_last_stmt(&b).unwrap();
    assert_eq!(exports, vec![String::from("foo"), String::from("\"bar\"")]);
}

#[test]
fn no_exports_without_returned_table() {
    let b = Block { stmts: Vec::new(), last_stmt: None, trailing: Vec::new() };
    assert!(get_exports_from_last_stmt(&b).is_none());
    let b2 = Block {
        stmts: Vec::new(),
        last_stmt: Some(dalbit::ast::LastItem {
            leading: Vec::new(),
            stmt: LastStmt::Return(vec![Expr::Number(String::from("1"))]),
            semicolon: None,
            trailing: Vec::new(),
        }),
        trailing: Vec::new(),
    };
    assert!(get_exports_from_last_stmt(&b2).is_none());
}

#[test]
fn error_message_accessor_returns_payload() {
    let e = TranspileError::Parse(String::from("bad token"));
    assert_eq!(e.message().as_str(), "bad token");
    let e2 = TranspileError::Io(String::from("missing"));
    assert_eq!(e2.message().as_str(), "missing");
    let e3 = TranspileError::RuleApplication(String::from("rule failed"));
    assert_eq!(e3.message().as_str(), "rule failed");
}
