use dalbit::ast::{
    create_binary_operator, create_number, create_parentheses, BinOp, Block, Expr, Field,
    FunctionCall, IndexSuffix, LastStmt, Stmt, StmtItem, StmtPart, Suffix, Var,
};
use dalbit::bit32::{mask_32bit, Bit32Converter};
use dalbit::render::{render_block, render_expr};

fn item(stmt: Stmt) -> StmtItem {
    StmtItem { leading: Vec::new(), stmt, semicolon: None, trailing: Vec::new() }
}

fn num(text: &str) -> Expr {
    Expr::Number(String::from(text))
}

fn name_expr(name: &str) -> Expr {
    Expr::Var(Var::Name(String::from(name)))
}

fn call(prefix: &str, method: &str, args: Vec<Expr>) -> FunctionCall {
    FunctionCall {
        prefix: String::from(prefix),
        suffixes: vec![
            Suffix::Index(IndexSuffix::Dot(String::from(method))),
            Suffix::Call(args),
        ],
    }
}

fn local_assign(name: &str, value: Expr) -> Stmt {
    Stmt::LocalAssignment(vec![String::from(name)], vec![value])
}

fn block(stmts: Vec<Stmt>) -> Block {
    Block { stmts: stmts.into_iter().map(item).collect(), last_stmt: None, trailing: Vec::new() }
}

fn convert(b: &Block) -> String {
    let mut converter = Bit32Converter::new();
    let out = converter.visit_block(b);
    render_block(&out)
}

#[test]
fn bor_used_value_is_masked_expression() {
    let b = block(vec![local_assign(
        "y",
        Expr::Call(call("bit32", "bor", vec![num("1"), num("2")])),
    )]);
    assert_eq!(convert(&b), "local y = ((1 | 2) & 0xFFFFFFFF)");
}

#[test]
fn band_rewrite_uses_ampersand() {
    let b = block(vec![local_assign(
        "y",
        Expr::Call(call("bit32", "band", vec![num("1"), num("2")])),
    )]);
    assert_eq!(convert(&b), "local y = ((1 & 2) & 0xFFFFFFFF)");
}

#[test]
fn rshift_and_lshift_rewrites() {
    let b = block(vec![
        local_assign("a", Expr::Call(call("bit32", "rshift", vec![num("8"), num("2")]))),
        local_assign("b", Expr::Call(call("bit32", "lshift", vec![num("8"), num("2")]))),
    ]);
    assert_eq!(
        convert(&b),
        "local a = ((8 >> 2) & 0xFFFFFFFF)local b = ((8 << 2) & 0xFFFFFFFF)"
    );
}

#[test]
fn bnot_rewrite_masks_operand_and_result() {
    let b = block(vec![local_assign(
        "x",
        Expr::Call(call("bit32", "bnot", vec![num("5")])),
    )]);
    assert_eq!(convert(&b), "local x = ((~(5 & 0xFFFFFFFF)) & 0xFFFFFFFF)");
}

#[test]
fn bare_call_statement_becomes_empty_do() {
    let b = block(vec![Stmt::FunctionCall(call("bit32", "band", vec![num("1"), num("2")]))]);
    assert_eq!(convert(&b), "do end");
}

#[test]
fn too_few_arguments_left_unconverted() {
    let b = block(vec![local_assign(
        "y",
        Expr::Call(call("bit32", "band", vec![num("1")])),
    )]);
    assert_eq!(convert(&b), "local y = bit32.band(1)");
}

#[test]
fn unknown_method_left_unconverted() {
    let b = block(vec![local_assign(
        "y",
        Expr::Call(call("bit32", "countlz", vec![num("1")])),
    )]);
    assert_eq!(convert(&b), "local y = bit32.countlz(1)");
}

#[test]
fn root_alias_assignment_elided_and_tracked() {
    let b = block(vec![
        local_assign("b", name_expr("bit32")),
        local_assign("z", Expr::Call(call("b", "bxor", vec![num("5"), num("3")]))),
    ]);
    assert_eq!(convert(&b), "local z = ((5 ~ 3) & 0xFFFFFFFF)");
}

#[test]
fn method_alias_assignment_elided_and_call_rewritten() {
    let alias_rhs = Expr::Var(Var::Expr(dalbit::ast::VarExpr {
        prefix: String::from("bit32"),
        suffixes: vec![Suffix::Index(IndexSuffix::Dot(String::from("band")))],
    }));
    let aliased_call = FunctionCall {
        prefix: String::from("f"),
        suffixes: vec![Suffix::Call(vec![num("1"), num("2")])],
    };
    let b = block(vec![
        local_assign("f", alias_rhs),
        local_assign("w", Expr::Call(aliased_call)),
    ]);
    assert_eq!(convert(&b), "local w = ((1 & 2) & 0xFFFFFFFF)");
}

#[test]
fn reassigned_root_stops_matching_old_name() {
    let b = block(vec![
        local_assign("b", name_expr("bit32")),
        local_assign("y", Expr::Call(call("bit32", "band", vec![num("1"), num("2")]))),
    ]);
    assert_eq!(convert(&b), "local y = bit32.band(1, 2)");
}

#[test]
fn bracket_string_index_recognized() {
    let fc = FunctionCall {
        prefix: String::from("bit32"),
        suffixes: vec![
            Suffix::Index(IndexSuffix::Brackets(Box::new(Expr::Str(String::from("\"bor\""))))),
            Suffix::Call(vec![num("1"), num("2")]),
        ],
    };
    let b = block(vec![local_assign("y", Expr::Call(fc))]);
    assert_eq!(convert(&b), "local y = ((1 | 2) & 0xFFFFFFFF)");
}

#[test]
fn nested_call_arguments_are_converted() {
    let inner = Expr::Call(call("bit32", "band", vec![num("1"), num("2")]));
    let b = block(vec![local_assign(
        "y",
        Expr::Call(call("bit32", "bor", vec![inner, num("4")])),
    )]);
    assert_eq!(
        convert(&b),
        "local y = ((((1 & 2) & 0xFFFFFFFF) | 4) & 0xFFFFFFFF)"
    );
}

#[test]
fn is_bit32_identifier_follows_current_root() {
    let converter = Bit32Converter::new();
    assert!(converter.is_bit32_identifier(&String::from("bit32")));
    assert!(!converter.is_bit32_identifier(&String::from("bit64")));
}

#[test]
fn convert_api_rewrites_or_returns_unchanged() {
    let converter = Bit32Converter::new();
    match converter.convert(call("bit32", "bxor", vec![num("5"), num("3")])) {
        Ok(expr) => assert_eq!(render_expr(&expr), "((5 ~ 3) & 0xFFFFFFFF)"),
        Err(_) => panic!("expected a rewrite"),
    }
    match converter.convert(call("os", "time", vec![])) {
        Ok(_) => panic!("expected no rewrite"),
        Err(fc) => assert_eq!(fc.prefix, "os"),
    }
}

#[test]
fn renderer_spells_tables_strings_and_returns() {
    let table = Expr::TableConstructor(vec![
        Field::NameKey(String::from("a"), num("1")),
        Field::ExpressionKey(
            Box::new(Expr::Str(String::from("\"b\""))),
            Box::new(num("2")),
        ),
        Field::Positional(num("3")),
    ]);
    assert_eq!(render_expr(&table), "{a = 1, [\"b\"] = 2, 3}");
    let b = Block {
        stmts: Vec::new(),
        last_stmt: Some(dalbit::ast::LastItem {
            leading: vec![String::from("-- gives\n")],
            stmt: LastStmt::Return(vec![num("1"), num("2")]),
            semicolon: Some(String::from(";")),
            trailing: vec![String::from("\n")],
        }),
        trailing: Vec::new(),
    };
    assert_eq!(render_block(&b), "-- gives\nreturn 1, 2;\n");
}

#[test]
fn builders_shape_masked_expressions() {
    let sum = create_binary_operator(
        create_number(String::from("1")),
        BinOp::Pipe,
        create_number(String::from("2")),
    );
    let masked = mask_32bit(create_parentheses(sum));
    assert_eq!(render_expr(&masked), "(1 | 2) & 0xFFFFFFFF");
}

#[test]
fn unrelated_statements_pass_through() {
    let b = block(vec![
        Stmt::Raw(String::from("print(1)")),
        local_assign("q", num("7")),
    ]);
    assert_eq!(convert(&b), "print(1)local q = 7");
}

#[test]
fn calls_inside_compound_statements_are_converted() {
    let cond = Expr::Call(call("bit32", "band", vec![num("1"), num("2")]));
    let body = block(vec![local_assign(
        "y",
        Expr::Call(call("bit32", "bor", vec![num("3"), num("4")])),
    )]);
    let compound = Stmt::Compound(vec![
        StmtPart::Text(String::from("while ")),
        StmtPart::Expr(cond),
        StmtPart::Text(String::from(" do ")),
        StmtPart::Body(body),
        StmtPart::Text(String::from(" end")),
    ]);
    let b = block(vec![compound]);
    assert_eq!(
        convert(&b),
        "while ((1 & 2) & 0xFFFFFFFF) do local y = ((3 | 4) & 0xFFFFFFFF) end"
    );
}

#[test]
fn aliases_recorded_inside_compound_bodies_carry_on() {
    let inner = block(vec![local_assign("b", name_expr("bit32"))]);
    let compound = Stmt::Compound(vec![
        StmtPart::Text(String::from("if c then ")),
        StmtPart::Body(inner),
        StmtPart::Text(String::from("end ")),
    ]);
    let after = local_assign("z", Expr::Call(call("b", "bxor", vec![num("5"), num("3")])));
    let b = block(vec![compound, after]);
    assert_eq!(convert(&b), "if c then end local z = ((5 ~ 3) & 0xFFFFFFFF)");
}

#[test]
fn statement_semicolons_are_kept() {
    let mut it = item(local_assign(
        "y",
        Expr::Call(call("bit32", "bor", vec![num("1"), num("2")])),
    ));
    it.semicolon = Some(String::from(";"));
    let b = Block { stmts: vec![it], last_stmt: None, trailing: Vec::new() };
    assert_eq!(convert(&b), "local y = ((1 | 2) & 0xFFFFFFFF);");
}
