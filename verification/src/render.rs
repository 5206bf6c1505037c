//! Serialization of syntax trees back to source text.
//!
//! All whitespace between statements lives in the statements' trivia, so the
//! renderer itself only inserts the separators that the grammar demands
//! (commas in lists, spaces around binary operators, keywords).  The exact
//! output text is pinned down by the `spec_render_*` functions over the
//! mathematical tree mirrors.
use vstd::prelude::*;

use crate::ast::{
    BinOp, Block, Expr, Field, FunctionCall, IndexSuffix, LastItem, LastStmt, SpecBlock, SpecExpr,
    SpecField, SpecIndexSuffix, SpecLastItem, SpecLastStmt, SpecStmt, SpecStmtItem, SpecStmtPart,
    SpecSuffix, SpecVar, Stmt, StmtItem, StmtPart, Suffix, UnOp, Var, lemma_view_exprs,
    lemma_view_stmt_parts, view_block, view_call, view_expr, view_exprs, view_field, view_fields,
    view_last_item, view_last_stmt, view_semicolon, view_stmt, view_stmt_item, view_stmt_items,
    view_stmt_part, view_stmt_parts, view_strings, view_suffix, view_suffixes, view_var, view_vars,
};

verus! {

broadcast use
    vstd::std_specs::vec::group_vec_axioms,
    vstd::seq::group_seq_axioms,
    crate::ast::group_view_lemmas;

// ----------------------------------------------------------------------
// Specification of the rendering.
// ----------------------------------------------------------------------
pub open spec fn spec_render_binop(op: BinOp) -> Seq<char> {
    match op {
        BinOp::Ampersand => "&"@,
        BinOp::Pipe => "|"@,
        BinOp::Tilde => "~"@,
        BinOp::DoubleLessThan => "<<"@,
        BinOp::DoubleGreaterThan => ">>"@,
    }
}

pub open spec fn spec_render_unop(op: UnOp) -> Seq<char> {
    match op {
        UnOp::Tilde => "~"@,
    }
}

pub open spec fn spec_render_expr(e: SpecExpr) -> Seq<char>
    decreases e,
{
    match e {
        SpecExpr::Number(t) => t,
        SpecExpr::Str(t) => t,
        SpecExpr::Var(v) => spec_render_var(v),
        SpecExpr::Call(c) => spec_render_prefixed(c.prefix, c.suffixes),
        SpecExpr::Parentheses(inner) => "("@ + spec_render_expr(*inner) + ")"@,
        SpecExpr::BinaryOperator(l, op, r) => spec_render_expr(*l) + " "@ + spec_render_binop(op)
            + " "@ + spec_render_expr(*r),
        SpecExpr::UnaryOperator(op, inner) => spec_render_unop(op) + spec_render_expr(*inner),
        SpecExpr::TableConstructor(fs) => "{"@ + spec_render_fields(fs, 0) + "}"@,
        SpecExpr::Raw(t) => t,
    }
}

pub open spec fn spec_render_exprs(es: Seq<SpecExpr>, i: int) -> Seq<char>
    decreases es, es.len() - i,
{
    if i < 0 || i >= es.len() {
        Seq::empty()
    } else {
        (if i > 0 {
            ", "@
        } else {
            Seq::empty()
        }) + spec_render_expr(es[i]) + spec_render_exprs(es, i + 1)
    }
}

pub open spec fn spec_render_var(v: SpecVar) -> Seq<char>
    decreases v,
{
    match v {
        SpecVar::Name(n) => n,
        SpecVar::Expr(ve) => spec_render_prefixed(ve.prefix, ve.suffixes),
        SpecVar::Raw(t) => t,
    }
}

pub open spec fn spec_render_vars(vs: Seq<SpecVar>, i: int) -> Seq<char>
    decreases vs, vs.len() - i,
{
    if i < 0 || i >= vs.len() {
        Seq::empty()
    } else {
        (if i > 0 {
            ", "@
        } else {
            Seq::empty()
        }) + spec_render_var(vs[i]) + spec_render_vars(vs, i + 1)
    }
}

pub open spec fn spec_render_suffix(s: SpecSuffix) -> Seq<char>
    decreases s,
{
    match s {
        SpecSuffix::Index(SpecIndexSuffix::Dot(n)) => "."@ + n,
        SpecSuffix::Index(SpecIndexSuffix::Brackets(e)) => "["@ + spec_render_expr(*e) + "]"@,
        SpecSuffix::Call(args) => "("@ + spec_render_exprs(args, 0) + ")"@,
    }
}

pub open spec fn spec_render_suffixes(ss: Seq<SpecSuffix>, i: int) -> Seq<char>
    decreases ss, ss.len() - i,
{
    if i < 0 || i >= ss.len() {
        Seq::empty()
    } else {
        spec_render_suffix(ss[i]) + spec_render_suffixes(ss, i + 1)
    }
}

pub open spec fn spec_render_prefixed(prefix: Seq<char>, ss: Seq<SpecSuffix>) -> Seq<char>
    decreases ss,
{
    prefix + spec_render_suffixes(ss, 0)
}

pub open spec fn spec_render_field(f: SpecField) -> Seq<char>
    decreases f,
{
    match f {
        SpecField::NameKey(n, v) => n + " = "@ + spec_render_expr(*v),
        SpecField::ExpressionKey(k, v) => "["@ + spec_render_expr(*k) + "] = "@ + spec_render_expr(
            *v,
        ),
        SpecField::Positional(v) => spec_render_expr(*v),
    }
}

pub open spec fn spec_render_fields(fs: Seq<SpecField>, i: int) -> Seq<char>
    decreases fs, fs.len() - i,
{
    if i < 0 || i >= fs.len() {
        Seq::empty()
    } else {
        (if i > 0 {
            ", "@
        } else {
            Seq::empty()
        }) + spec_render_field(fs[i]) + spec_render_fields(fs, i + 1)
    }
}

pub open spec fn spec_render_names(ns: Seq<Seq<char>>, i: int) -> Seq<char>
    decreases ns.len() - i,
{
    if i < 0 || i >= ns.len() {
        Seq::empty()
    } else {
        (if i > 0 {
            ", "@
        } else {
            Seq::empty()
        }) + ns[i] + spec_render_names(ns, i + 1)
    }
}

pub open spec fn spec_concat_texts(ts: Seq<Seq<char>>, i: int) -> Seq<char>
    decreases ts.len() - i,
{
    if i < 0 || i >= ts.len() {
        Seq::empty()
    } else {
        ts[i] + spec_concat_texts(ts, i + 1)
    }
}

pub open spec fn spec_render_stmt(s: SpecStmt) -> Seq<char>
    decreases s,
{
    match s {
        SpecStmt::LocalAssignment(names, exprs) => "local "@ + spec_render_names(names, 0) + (
        if exprs.len() > 0 {
            " = "@ + spec_render_exprs(exprs, 0)
        } else {
            Seq::empty()
        }),
        SpecStmt::Assignment(vars, exprs) => spec_render_vars(vars, 0) + (if exprs.len() > 0 {
            " = "@ + spec_render_exprs(exprs, 0)
        } else {
            Seq::empty()
        }),
        SpecStmt::FunctionCall(c) => spec_render_prefixed(c.prefix, c.suffixes),
        SpecStmt::Do(b) => "do "@ + spec_render_block(b) + "end"@,
        SpecStmt::Compound(parts) => spec_render_stmt_parts(parts, 0),
        SpecStmt::Raw(t) => t,
    }
}

pub open spec fn spec_render_stmt_part(p: SpecStmtPart) -> Seq<char>
    decreases p,
{
    match p {
        SpecStmtPart::Text(t) => t,
        SpecStmtPart::Expr(e) => spec_render_expr(*e),
        SpecStmtPart::Body(b) => spec_render_block(b),
    }
}

pub open spec fn spec_render_stmt_parts(ps: Seq<SpecStmtPart>, i: int) -> Seq<char>
    decreases ps, ps.len() - i,
{
    if i < 0 || i >= ps.len() {
        Seq::empty()
    } else {
        spec_render_stmt_part(ps[i]) + spec_render_stmt_parts(ps, i + 1)
    }
}

/// An optional semicolon's text.
pub open spec fn spec_render_semicolon(s: Option<Seq<char>>) -> Seq<char> {
    match s {
        Option::Some(t) => t,
        Option::None => Seq::empty(),
    }
}

pub open spec fn spec_render_stmt_item(x: SpecStmtItem) -> Seq<char>
    decreases x,
{
    spec_concat_texts(x.leading, 0) + spec_render_stmt(x.stmt) + spec_render_semicolon(x.semicolon)
        + spec_concat_texts(x.trailing, 0)
}

pub open spec fn spec_render_stmt_items(xs: Seq<SpecStmtItem>, i: int) -> Seq<char>
    decreases xs, xs.len() - i,
{
    if i < 0 || i >= xs.len() {
        Seq::empty()
    } else {
        spec_render_stmt_item(xs[i]) + spec_render_stmt_items(xs, i + 1)
    }
}

pub open spec fn spec_render_last_stmt(l: SpecLastStmt) -> Seq<char>
    decreases l,
{
    match l {
        SpecLastStmt::Return(es) => "return"@ + (if es.len() > 0 {
            " "@ + spec_render_exprs(es, 0)
        } else {
            Seq::empty()
        }),
        SpecLastStmt::Break => "break"@,
        SpecLastStmt::Raw(t) => t,
    }
}

pub open spec fn spec_render_last_item(x: SpecLastItem) -> Seq<char>
    decreases x,
{
    spec_concat_texts(x.leading, 0) + spec_render_last_stmt(x.stmt) + spec_render_semicolon(
        x.semicolon,
    ) + spec_concat_texts(x.trailing, 0)
}

pub open spec fn spec_render_block(b: SpecBlock) -> Seq<char>
    decreases b,
{
    match b.last_stmt {
        Option::Some(l) => spec_render_stmt_items(b.stmts, 0) + spec_render_last_item(l)
            + spec_concat_texts(b.trailing, 0),
        Option::None => spec_render_stmt_items(b.stmts, 0) + spec_concat_texts(b.trailing, 0),
    }
}

// ----------------------------------------------------------------------
// Executable rendering.
// ----------------------------------------------------------------------
pub fn render_expr(e: &Expr) -> (r: String)
    ensures
        r@ == spec_render_expr(view_expr(e)),
    decreases e,
{
    match e {
        Expr::Number(t) => t.clone(),
        Expr::Str(t) => t.clone(),
        Expr::Var(v) => {
            let out = render_var(v);
            proof {
                assert(view_expr(e) == SpecExpr::Var(view_var(v)));
            }
            out
        },
        Expr::Call(c) => {
            let out = render_prefixed(&c.prefix, &c.suffixes);
            proof {
                assert(view_expr(e) == SpecExpr::Call(view_call(c)));
            }
            out
        },
        Expr::Parentheses(inner) => {
            let mut s = String::from_str("(");
            let t = render_expr(&**inner);
            s.append(t.as_str());
            s.append(")");
            proof {
                assert(view_expr(e) == SpecExpr::Parentheses(Box::new(view_expr(&**inner))));
            }
            s
        },
        Expr::BinaryOperator(l, op, rhs) => {
            let mut s = render_expr(&**l);
            s.append(" ");
            s.append(render_binop(op));
            s.append(" ");
            let t = render_expr(&**rhs);
            s.append(t.as_str());
            proof {
                assert(view_expr(e) == SpecExpr::BinaryOperator(
                    Box::new(view_expr(&**l)),
                    *op,
                    Box::new(view_expr(&**rhs)),
                ));
            }
            s
        },
        Expr::UnaryOperator(op, inner) => {
            let mut s = String::from_str(render_unop(op));
            let t = render_expr(&**inner);
            s.append(t.as_str());
            proof {
                assert(view_expr(e) == SpecExpr::UnaryOperator(*op, Box::new(view_expr(&**inner))));
            }
            s
        },
        Expr::TableConstructor(fs) => {
            let mut s = String::from_str("{");
            let t = render_fields(fs, 0);
            s.append(t.as_str());
            s.append("}");
            proof {
                assert(view_expr(e) == SpecExpr::TableConstructor(view_fields(fs@)));
            }
            s
        },
        Expr::Raw(t) => t.clone(),
    }
}

pub fn render_binop(op: &BinOp) -> (r: &'static str)
    ensures
        r@ == spec_render_binop(*op),
{
    match op {
        BinOp::Ampersand => "&",
        BinOp::Pipe => "|",
        BinOp::Tilde => "~",
        BinOp::DoubleLessThan => "<<",
        BinOp::DoubleGreaterThan => ">>",
    }
}

pub fn render_unop(op: &UnOp) -> (r: &'static str)
    ensures
        r@ == spec_render_unop(*op),
{
    match op {
        UnOp::Tilde => "~",
    }
}

pub fn render_exprs(es: &Vec<Expr>, i: usize) -> (r: String)
    requires
        i <= es@.len(),
    ensures
        r@ == spec_render_exprs(view_exprs(es@), i as int),
    decreases es, es@.len() - i,
{
    let mut s = String::new();
    if i < es.len() {
        if i > 0 {
            s = String::from_str(", ");
        }
        let t = render_expr(&es[i]);
        s.append(t.as_str());
        let rest = render_exprs(es, i + 1);
        s.append(rest.as_str());
    }
    s
}

pub fn render_var(v: &Var) -> (r: String)
    ensures
        r@ == spec_render_var(view_var(v)),
    decreases v,
{
    match v {
        Var::Name(n) => n.clone(),
        Var::Expr(ve) => render_prefixed(&ve.prefix, &ve.suffixes),
        Var::Raw(t) => t.clone(),
    }
}

pub fn render_vars(vs: &Vec<Var>, i: usize) -> (r: String)
    requires
        i <= vs@.len(),
    ensures
        r@ == spec_render_vars(view_vars(vs@), i as int),
    decreases vs, vs@.len() - i,
{
    let mut s = String::new();
    if i < vs.len() {
        if i > 0 {
            s = String::from_str(", ");
        }
        let t = render_var(&vs[i]);
        s.append(t.as_str());
        let rest = render_vars(vs, i + 1);
        s.append(rest.as_str());
    }
    s
}

pub fn render_suffix(x: &Suffix) -> (r: String)
    ensures
        r@ == spec_render_suffix(view_suffix(x)),
    decreases x,
{
    match x {
        Suffix::Index(IndexSuffix::Dot(n)) => {
            let mut s = String::from_str(".");
            s.append(n.as_str());
            s
        },
        Suffix::Index(IndexSuffix::Brackets(e)) => {
            let mut s = String::from_str("[");
            let t = render_expr(&**e);
            s.append(t.as_str());
            s.append("]");
            s
        },
        Suffix::Call(args) => {
            let mut s = String::from_str("(");
            let t = render_exprs(args, 0);
            s.append(t.as_str());
            s.append(")");
            s
        },
    }
}

pub fn render_suffixes(ss: &Vec<Suffix>, i: usize) -> (r: String)
    requires
        i <= ss@.len(),
    ensures
        r@ == spec_render_suffixes(view_suffixes(ss@), i as int),
    decreases ss, ss@.len() - i,
{
    let mut s = String::new();
    if i < ss.len() {
        let t = render_suffix(&ss[i]);
        s.append(t.as_str());
        let rest = render_suffixes(ss, i + 1);
        s.append(rest.as_str());
    }
    s
}

pub fn render_prefixed(prefix: &String, ss: &Vec<Suffix>) -> (r: String)
    ensures
        r@ == spec_render_prefixed(prefix@, view_suffixes(ss@)),
    decreases ss,
{
    let mut s = prefix.clone();
    let t = render_suffixes(ss, 0);
    s.append(t.as_str());
    s
}

pub fn render_field(f: &Field) -> (r: String)
    ensures
        r@ == spec_render_field(view_field(f)),
    decreases f,
{
    match f {
        Field::NameKey(n, v) => {
            let mut s = n.clone();
            s.append(" = ");
            let t = render_expr(v);
            s.append(t.as_str());
            s
        },
        Field::ExpressionKey(k, v) => {
            let mut s = String::from_str("[");
            let tk = render_expr(&**k);
            s.append(tk.as_str());
            s.append("] = ");
            let tv = render_expr(&**v);
            s.append(tv.as_str());
            s
        },
        Field::Positional(v) => render_expr(v),
    }
}

pub fn render_fields(fs: &Vec<Field>, i: usize) -> (r: String)
    requires
        i <= fs@.len(),
    ensures
        r@ == spec_render_fields(view_fields(fs@), i as int),
    decreases fs, fs@.len() - i,
{
    let mut s = String::new();
    if i < fs.len() {
        if i > 0 {
            s = String::from_str(", ");
        }
        let t = render_field(&fs[i]);
        s.append(t.as_str());
        let rest = render_fields(fs, i + 1);
        s.append(rest.as_str());
    }
    s
}

pub fn render_names(ns: &Vec<String>, i: usize) -> (r: String)
    requires
        i <= ns@.len(),
    ensures
        r@ == spec_render_names(view_strings(ns@), i as int),
    decreases ns@.len() - i,
{
    let mut s = String::new();
    if i < ns.len() {
        if i > 0 {
            s = String::from_str(", ");
        }
        s.append(ns[i].as_str());
        let rest = render_names(ns, i + 1);
        s.append(rest.as_str());
    }
    s
}

pub fn concat_texts(ts: &Vec<String>, i: usize) -> (r: String)
    requires
        i <= ts@.len(),
    ensures
        r@ == spec_concat_texts(view_strings(ts@), i as int),
    decreases ts@.len() - i,
{
    let mut s = String::new();
    if i < ts.len() {
        s.append(ts[i].as_str());
        let rest = concat_texts(ts, i + 1);
        s.append(rest.as_str());
    }
    s
}

pub fn render_stmt(x: &Stmt) -> (r: String)
    ensures
        r@ == spec_render_stmt(view_stmt(x)),
    decreases x,
{
    match x {
        Stmt::LocalAssignment(names, exprs) => {
            let mut s = String::from_str("local ");
            let t = render_names(names, 0);
            s.append(t.as_str());
            let tail = if exprs.len() > 0 {
                let mut u = String::from_str(" = ");
                let v = render_exprs(exprs, 0);
                u.append(v.as_str());
                u
            } else {
                String::new()
            };
            s.append(tail.as_str());
            proof {
                lemma_view_exprs(exprs@);
            }
            s
        },
        Stmt::Assignment(vars, exprs) => {
            let mut s = render_vars(vars, 0);
            let tail = if exprs.len() > 0 {
                let mut u = String::from_str(" = ");
                let v = render_exprs(exprs, 0);
                u.append(v.as_str());
                u
            } else {
                String::new()
            };
            s.append(tail.as_str());
            proof {
                lemma_view_exprs(exprs@);
            }
            s
        },
        Stmt::FunctionCall(c) => render_prefixed(&c.prefix, &c.suffixes),
        Stmt::Do(b) => {
            let mut s = String::from_str("do ");
            let t = render_block(b);
            s.append(t.as_str());
            s.append("end");
            s
        },
        Stmt::Compound(parts) => {
            let r = render_stmt_parts(parts, 0);
            proof {
                assert(view_stmt(x) == SpecStmt::Compound(view_stmt_parts(parts@)));
            }
            r
        },
        Stmt::Raw(t) => t.clone(),
    }
}

pub fn render_stmt_part(p: &StmtPart) -> (r: String)
    ensures
        r@ == spec_render_stmt_part(view_stmt_part(p)),
    decreases p,
{
    match p {
        StmtPart::Text(t) => t.clone(),
        StmtPart::Expr(e) => {
            let r = render_expr(e);
            proof {
                assert(view_stmt_part(p) == SpecStmtPart::Expr(Box::new(view_expr(e))));
            }
            r
        },
        StmtPart::Body(b) => {
            let r = render_block(b);
            proof {
                assert(view_stmt_part(p) == SpecStmtPart::Body(view_block(b)));
            }
            r
        },
    }
}

pub fn render_stmt_parts(ps: &Vec<StmtPart>, i: usize) -> (r: String)
    requires
        i <= ps@.len(),
    ensures
        r@ == spec_render_stmt_parts(view_stmt_parts(ps@), i as int),
    decreases ps, ps@.len() - i,
{
    proof {
        lemma_view_stmt_parts(ps@);
    }
    let mut s = String::new();
    if i < ps.len() {
        let t = render_stmt_part(&ps[i]);
        s.append(t.as_str());
        let rest = render_stmt_parts(ps, i + 1);
        s.append(rest.as_str());
    }
    s
}

/// An optional semicolon's text.
pub fn render_semicolon(x: &Option<String>) -> (r: String)
    ensures
        r@ == spec_render_semicolon(view_semicolon(x)),
{
    match x {
        Option::Some(t) => t.clone(),
        Option::None => String::new(),
    }
}

pub fn render_stmt_item(x: &StmtItem) -> (r: String)
    ensures
        r@ == spec_render_stmt_item(view_stmt_item(x)),
    decreases x,
{
    let mut s = concat_texts(&x.leading, 0);
    let t = render_stmt(&x.stmt);
    s.append(t.as_str());
    let semi = render_semicolon(&x.semicolon);
    s.append(semi.as_str());
    let u = concat_texts(&x.trailing, 0);
    s.append(u.as_str());
    s
}

pub fn render_stmt_items(xs: &Vec<StmtItem>, i: usize) -> (r: String)
    requires
        i <= xs@.len(),
    ensures
        r@ == spec_render_stmt_items(view_stmt_items(xs@), i as int),
    decreases xs, xs@.len() - i,
{
    let mut s = String::new();
    if i < xs.len() {
        let t = render_stmt_item(&xs[i]);
        s.append(t.as_str());
        let rest = render_stmt_items(xs, i + 1);
        s.append(rest.as_str());
    }
    s
}

pub fn render_last_stmt(l: &LastStmt) -> (r: String)
    ensures
        r@ == spec_render_last_stmt(view_last_stmt(l)),
    decreases l,
{
    match l {
        LastStmt::Return(es) => {
            let mut s = String::from_str("return");
            let tail = if es.len() > 0 {
                let mut u = String::from_str(" ");
                let v = render_exprs(es, 0);
                u.append(v.as_str());
                u
            } else {
                String::new()
            };
            s.append(tail.as_str());
            proof {
                lemma_view_exprs(es@);
            }
            s
        },
        LastStmt::Break => String::from_str("break"),
        LastStmt::Raw(t) => t.clone(),
    }
}

pub fn render_last_item(x: &LastItem) -> (r: String)
    ensures
        r@ == spec_render_last_item(view_last_item(x)),
    decreases x,
{
    let mut s = concat_texts(&x.leading, 0);
    let t = render_last_stmt(&x.stmt);
    s.append(t.as_str());
    let semi = render_semicolon(&x.semicolon);
    s.append(semi.as_str());
    let u = concat_texts(&x.trailing, 0);
    s.append(u.as_str());
    s
}

/// Serializes a whole syntax tree back to source text.
pub fn render_block(b: &Block) -> (r: String)
    ensures
        r@ == spec_render_block(view_block(b)),
    decreases b,
{
    let mut s = render_stmt_items(&b.stmts, 0);
    match &b.last_stmt {
        Option::Some(l) => {
            let t = render_last_item(l);
            s.append(t.as_str());
        },
        Option::None => {},
    }
    let u = concat_texts(&b.trailing, 0);
    s.append(u.as_str());
    s
}

} // verus!
