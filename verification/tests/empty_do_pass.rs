use dalbit::ast::{create_empty_do_from_node, Block, Expr, IndexSuffix, LastStmt, Stmt, StmtItem};
use dalbit::bit32::index_to_string;
use dalbit::empty_do::RemoveEmptyDo;
use dalbit::render::render_block;

fn empty_do_stmt() -> Stmt {
    Stmt::Do(Block { stmts: Vec::new(), last_stmt: None, trailing: Vec::new() })
}

fn raw_item(text: &str, leading: Vec<&str>, trailing: Vec<&str>) -> StmtItem {
    StmtItem {
        leading: leading.into_iter().map(String::from).collect(),
        stmt: Stmt::Raw(String::from(text)),
        semicolon: None,
        trailing: trailing.into_iter().map(String::from).collect(),
    }
}

fn do_item(leading: Vec<&str>, trailing: Vec<&str>) -> StmtItem {
    StmtItem {
        leading: leading.into_iter().map(String::from).collect(),
        stmt: empty_do_stmt(),
        semicolon: None,
        trailing: trailing.into_iter().map(String::from).collect(),
    }
}

fn run(b: &Block) -> Block {
    RemoveEmptyDo::new().visit_block(b)
}

#[test]
fn empty_do_is_deleted() {
    let b = Block { stmts: vec![do_item(vec![], vec![])], last_stmt: None, trailing: Vec::new() };
    let out = run(&b);
    assert_eq!(out.stmts.len(), 0);
    assert_eq!(render_block(&out), "");
}

#[test]
fn comment_moves_to_following_sibling() {
    let b = Block {
        stmts: vec![
            do_item(vec!["-- note\n"], vec![]),
            raw_item("x = 1", vec![], vec![]),
        ],
        last_stmt: None,
        trailing: Vec::new(),
    };
    let out = run(&b);
    assert_eq!(out.stmts.len(), 1);
    assert_eq!(render_block(&out), "-- note\nx = 1");
}

#[test]
fn trailing_trivia_of_deleted_do_precedes_sibling_leading() {
    let b = Block {
        stmts: vec![
            do_item(vec!["-- a\n"], vec!["-- b\n"]),
            raw_item("x = 1", vec!["-- c\n"], vec![]),
        ],
        last_stmt: None,
        trailing: Vec::new(),
    };
    let out = run(&b);
    assert_eq!(render_block(&out), "-- a\n-- b\n-- c\nx = 1");
}

#[test]
fn comment_dropped_when_no_sibling_follows() {
    let b = Block {
        stmts: vec![do_item(vec!["-- gone\n"], vec![])],
        last_stmt: None,
        trailing: Vec::new(),
    };
    let out = run(&b);
    assert_eq!(out.stmts.len(), 0);
    assert_eq!(render_block(&out), "");
}

#[test]
fn nonempty_do_survives() {
    let inner = Block {
        stmts: vec![raw_item("x = 1", vec![], vec![" "])],
        last_stmt: None,
        trailing: Vec::new(),
    };
    let b = Block {
        stmts: vec![StmtItem {
            leading: Vec::new(),
            stmt: Stmt::Do(inner),
            semicolon: None,
            trailing: Vec::new(),
        }],
        last_stmt: None,
        trailing: Vec::new(),
    };
    let out = run(&b);
    assert_eq!(out.stmts.len(), 1);
    assert_eq!(render_block(&out), "do x = 1 end");
}

#[test]
fn do_emptied_only_by_inner_removal_is_kept() {
    let inner = Block {
        stmts: vec![do_item(vec![], vec![])],
        last_stmt: None,
        trailing: Vec::new(),
    };
    let b = Block {
        stmts: vec![
            StmtItem {
                leading: Vec::new(),
                stmt: Stmt::Do(inner),
                semicolon: None,
                trailing: Vec::new(),
            },
            raw_item("y = 2", vec![], vec![]),
        ],
        last_stmt: None,
        trailing: Vec::new(),
    };
    let out = run(&b);
    assert_eq!(out.stmts.len(), 2);
    assert_eq!(render_block(&out), "do endy = 2");
}

#[test]
fn statement_count_drops_by_removed_count() {
    let b = Block {
        stmts: vec![
            raw_item("a = 1", vec![], vec![]),
            do_item(vec![], vec![]),
            raw_item("b = 2", vec![], vec![]),
            do_item(vec![], vec![]),
            do_item(vec![], vec![]),
        ],
        last_stmt: None,
        trailing: Vec::new(),
    };
    let out = run(&b);
    assert_eq!(out.stmts.len(), 2);
}

#[test]
fn block_last_statement_is_kept() {
    let b = Block {
        stmts: vec![do_item(vec![], vec![])],
        last_stmt: Some(dalbit::ast::LastItem {
            leading: vec![String::from("-- done\n")],
            stmt: LastStmt::Raw(String::from("return 1")),
            semicolon: None,
            trailing: Vec::new(),
        }),
        trailing: Vec::new(),
    };
    let out = run(&b);
    assert_eq!(render_block(&out), "-- done\nreturn 1");
}

#[test]
fn empty_do_placeholder_keeps_node_trivia() {
    let node = raw_item("x = 1", vec!["-- keep\n"], vec![" "]);
    let placeholder = create_empty_do_from_node(&node);
    assert_eq!(placeholder.leading, vec![String::from("-- keep\n")]);
    assert_eq!(placeholder.trailing, vec![String::from(" ")]);
    let b = Block { stmts: vec![placeholder], last_stmt: None, trailing: Vec::new() };
    assert_eq!(render_block(&b), "-- keep\ndo end ");
}

#[test]
fn index_to_string_reads_dot_and_string_brackets() {
    let dot = IndexSuffix::Dot(String::from("band"));
    assert_eq!(index_to_string(&dot), Some(String::from("band")));
    let brackets = IndexSuffix::Brackets(Box::new(Expr::Str(String::from("\"bor\""))));
    assert_eq!(index_to_string(&brackets), Some(String::from("bor")));
    let opaque = IndexSuffix::Brackets(Box::new(Expr::Number(String::from("1"))));
    assert_eq!(index_to_string(&opaque), None);
    let too_short = IndexSuffix::Brackets(Box::new(Expr::Str(String::from("x"))));
    assert_eq!(index_to_string(&too_short), None);
}

#[test]
fn interior_comment_of_deleted_do_migrates() {
    let inner = Block {
        stmts: Vec::new(),
        last_stmt: None,
        trailing: vec![String::from("-- inside\n")],
    };
    let b = Block {
        stmts: vec![
            StmtItem {
                leading: vec![String::from("-- before\n")],
                stmt: Stmt::Do(inner),
                semicolon: None,
                trailing: vec![String::from("-- after\n")],
            },
            raw_item("x = 1", vec![], vec![]),
        ],
        last_stmt: None,
        trailing: Vec::new(),
    };
    let out = run(&b);
    assert_eq!(render_block(&out), "-- before\n-- inside\n-- after\nx = 1");
}

#[test]
fn semicolon_of_survivor_is_kept_and_of_deleted_do_goes() {
    let mut kept = raw_item("x = 1", vec![], vec!["\n"]);
    kept.semicolon = Some(String::from(";"));
    let mut deleted = do_item(vec![], vec![]);
    deleted.semicolon = Some(String::from(";"));
    let b = Block { stmts: vec![deleted, kept], last_stmt: None, trailing: Vec::new() };
    let out = run(&b);
    assert_eq!(render_block(&out), "x = 1;\n");
}

#[test]
fn block_trailing_comment_is_preserved() {
    let b = Block {
        stmts: vec![raw_item("x = 1", vec![], vec![" "])],
        last_stmt: None,
        trailing: vec![String::from("-- tail\n")],
    };
    let out = run(&b);
    assert_eq!(render_block(&out), "x = 1 -- tail\n");
}
