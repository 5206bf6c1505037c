//! Syntax-tree model for the transpiler's rewriting passes.
//!
//! A `Block` owns an ordered sequence of statements plus an optional trailing
//! terminal statement.  Every statement carries its attached non-code trivia
//! (comments and whitespace), as lists of verbatim text pieces, so that a pass
//! that deletes a statement can move its trivia to a surviving neighbour.
//!
//! Each executable node type has a mathematical mirror (`SpecExpr`,
//! `SpecStmt`, ...) over `Seq<char>` and `Seq`, computed by the `view_*`
//! functions; all contracts in this crate are stated over those mirrors.
//!
//! Trivia is carried at statement granularity (and verbatim inside `Raw`,
//! `Text` and `Str` pieces); spacing inside an expression a pass rewrites
//! is normalized by the renderer.
use vstd::prelude::*;

verus! {

broadcast use vstd::std_specs::vec::group_vec_axioms, vstd::seq::group_seq_axioms;

/// The binary operators that rewriting passes emit or inspect.
#[derive(Clone, Copy, PartialEq, Eq, Structural, Debug)]
pub enum BinOp {
    Ampersand,
    Pipe,
    Tilde,
    DoubleLessThan,
    DoubleGreaterThan,
}

/// The unary operators that rewriting passes emit or inspect.
#[derive(Clone, Copy, PartialEq, Eq, Structural, Debug)]
pub enum UnOp {
    Tilde,
}

/// An index suffix: `.name` or `[expr]`.
pub enum IndexSuffix {
    Dot(String),
    Brackets(Box<Expr>),
}

/// One suffix of a prefixed expression: an index or an argument list.
pub enum Suffix {
    Index(IndexSuffix),
    Call(Vec<Expr>),
}

/// A call expression: a prefix name followed by suffixes,
/// e.g. `bit32.band(1, 2)` is prefix `bit32`, suffixes `.band` and `(1, 2)`.
pub struct FunctionCall {
    pub prefix: String,
    pub suffixes: Vec<Suffix>,
}

/// A variable expression with suffixes, e.g. `bit32.band` (no argument list).
pub struct VarExpr {
    pub prefix: String,
    pub suffixes: Vec<Suffix>,
}

/// A variable: a bare name, a suffixed expression, or other source text.
pub enum Var {
    Name(String),
    Expr(VarExpr),
    Raw(String),
}

/// One field of a table constructor.
pub enum Field {
    /// `name = value`
    NameKey(String, Expr),
    /// `[key] = value`
    ExpressionKey(Box<Expr>, Box<Expr>),
    /// `value`
    Positional(Expr),
}

/// An expression.  Nodes the passes do not inspect are carried as `Raw`
/// source text and passed through unchanged.
pub enum Expr {
    /// A numeral, as written in the source (decimal or `0x...`).
    Number(String),
    /// A string literal, verbatim, quotes included.
    Str(String),
    Var(Var),
    Call(FunctionCall),
    Parentheses(Box<Expr>),
    BinaryOperator(Box<Expr>, BinOp, Box<Expr>),
    UnaryOperator(UnOp, Box<Expr>),
    TableConstructor(Vec<Field>),
    Raw(String),
}

/// One piece of a compound statement: verbatim source text (keywords and
/// anything else the passes do not inspect), an embedded expression, or a
/// nested statement body.
pub enum StmtPart {
    Text(String),
    Expr(Expr),
    Body(Block),
}

/// A statement.  Statement forms with structure the passes rewrite are
/// modeled directly; control-flow and declaration forms are `Compound`
/// statements whose conditions and bodies the passes still walk; anything
/// else is `Raw` text.
pub enum Stmt {
    /// `local n1, n2 = e1, e2`
    LocalAssignment(Vec<String>, Vec<Expr>),
    /// `v1, v2 = e1, e2`
    Assignment(Vec<Var>, Vec<Expr>),
    /// A function call used as a statement.
    FunctionCall(FunctionCall),
    /// `do ... end`
    Do(Block),
    /// A statement such as `if`, `while`, `for`, `repeat` or a function
    /// declaration: interleaved source text, expressions and bodies.
    Compound(Vec<StmtPart>),
    Raw(String),
}

/// A statement together with its attached leading and trailing trivia
/// (comments and whitespace, verbatim) and its optional statement
/// separator, kept as the semicolon token's full text.
pub struct StmtItem {
    pub leading: Vec<String>,
    pub stmt: Stmt,
    pub semicolon: Option<String>,
    pub trailing: Vec<String>,
}

/// The optional terminal statement of a block.
pub enum LastStmt {
    Return(Vec<Expr>),
    Break,
    Raw(String),
}

/// The terminal statement of a block, with its trivia and optional
/// semicolon text.
pub struct LastItem {
    pub leading: Vec<String>,
    pub stmt: LastStmt,
    pub semicolon: Option<String>,
    pub trailing: Vec<String>,
}

/// A block: ordered statements, an optional terminal statement, and the
/// trivia standing inside the block after all statements (for example a
/// comment before the enclosing `end`).
pub struct Block {
    pub stmts: Vec<StmtItem>,
    pub last_stmt: Option<LastItem>,
    pub trailing: Vec<String>,
}

// ----------------------------------------------------------------------
// Mathematical mirrors.
// ----------------------------------------------------------------------
#[verifier::ext_equal]
pub enum SpecIndexSuffix {
    Dot(Seq<char>),
    Brackets(Box<SpecExpr>),
}

#[verifier::ext_equal]
pub enum SpecSuffix {
    Index(SpecIndexSuffix),
    Call(Seq<SpecExpr>),
}

#[verifier::ext_equal]
pub struct SpecFunctionCall {
    pub prefix: Seq<char>,
    pub suffixes: Seq<SpecSuffix>,
}

#[verifier::ext_equal]
pub struct SpecVarExpr {
    pub prefix: Seq<char>,
    pub suffixes: Seq<SpecSuffix>,
}

#[verifier::ext_equal]
pub enum SpecVar {
    Name(Seq<char>),
    Expr(SpecVarExpr),
    Raw(Seq<char>),
}

#[verifier::ext_equal]
pub enum SpecField {
    NameKey(Seq<char>, Box<SpecExpr>),
    ExpressionKey(Box<SpecExpr>, Box<SpecExpr>),
    Positional(Box<SpecExpr>),
}

#[verifier::ext_equal]
pub enum SpecExpr {
    Number(Seq<char>),
    Str(Seq<char>),
    Var(SpecVar),
    Call(SpecFunctionCall),
    Parentheses(Box<SpecExpr>),
    BinaryOperator(Box<SpecExpr>, BinOp, Box<SpecExpr>),
    UnaryOperator(UnOp, Box<SpecExpr>),
    TableConstructor(Seq<SpecField>),
    Raw(Seq<char>),
}

#[verifier::ext_equal]
pub enum SpecStmtPart {
    Text(Seq<char>),
    Expr(Box<SpecExpr>),
    Body(SpecBlock),
}

#[verifier::ext_equal]
pub enum SpecStmt {
    LocalAssignment(Seq<Seq<char>>, Seq<SpecExpr>),
    Assignment(Seq<SpecVar>, Seq<SpecExpr>),
    FunctionCall(SpecFunctionCall),
    Do(SpecBlock),
    Compound(Seq<SpecStmtPart>),
    Raw(Seq<char>),
}

#[verifier::ext_equal]
pub struct SpecStmtItem {
    pub leading: Seq<Seq<char>>,
    pub stmt: SpecStmt,
    pub semicolon: Option<Seq<char>>,
    pub trailing: Seq<Seq<char>>,
}

#[verifier::ext_equal]
pub enum SpecLastStmt {
    Return(Seq<SpecExpr>),
    Break,
    Raw(Seq<char>),
}

#[verifier::ext_equal]
pub struct SpecLastItem {
    pub leading: Seq<Seq<char>>,
    pub stmt: SpecLastStmt,
    pub semicolon: Option<Seq<char>>,
    pub trailing: Seq<Seq<char>>,
}

#[verifier::ext_equal]
pub struct SpecBlock {
    pub stmts: Seq<SpecStmtItem>,
    pub last_stmt: Option<SpecLastItem>,
    pub trailing: Seq<Seq<char>>,
}

// ----------------------------------------------------------------------
// View functions.
// ----------------------------------------------------------------------
/// The views of a list of strings, elementwise.
pub open spec fn view_strings(s: Seq<String>) -> Seq<Seq<char>> {
    Seq::new(s.len(), |i: int| s[i]@)
}

pub open spec fn view_index_suffix(x: &IndexSuffix) -> SpecIndexSuffix
    decreases x,
{
    match x {
        IndexSuffix::Dot(n) => SpecIndexSuffix::Dot(n@),
        IndexSuffix::Brackets(e) => SpecIndexSuffix::Brackets(Box::new(view_expr(e))),
    }
}

pub open spec fn view_suffix(x: &Suffix) -> SpecSuffix
    decreases x,
{
    match x {
        Suffix::Index(ix) => SpecSuffix::Index(view_index_suffix(ix)),
        Suffix::Call(args) => SpecSuffix::Call(view_exprs(args@)),
    }
}

pub open spec fn view_suffixes(s: Seq<Suffix>) -> Seq<SpecSuffix>
    decreases s,
{
    if s.len() == 0 {
        Seq::empty()
    } else {
        view_suffixes(s.drop_last()).push(view_suffix(&s.last()))
    }
}

pub open spec fn view_call(x: &FunctionCall) -> SpecFunctionCall
    decreases x,
{
    SpecFunctionCall { prefix: x.prefix@, suffixes: view_suffixes(x.suffixes@) }
}

pub open spec fn view_var_expr(x: &VarExpr) -> SpecVarExpr
    decreases x,
{
    SpecVarExpr { prefix: x.prefix@, suffixes: view_suffixes(x.suffixes@) }
}

pub open spec fn view_var(x: &Var) -> SpecVar
    decreases x,
{
    match x {
        Var::Name(n) => SpecVar::Name(n@),
        Var::Expr(ve) => SpecVar::Expr(view_var_expr(ve)),
        Var::Raw(t) => SpecVar::Raw(t@),
    }
}

pub open spec fn view_vars(s: Seq<Var>) -> Seq<SpecVar>
    decreases s,
{
    if s.len() == 0 {
        Seq::empty()
    } else {
        view_vars(s.drop_last()).push(view_var(&s.last()))
    }
}

pub open spec fn view_field(x: &Field) -> SpecField
    decreases x,
{
    match x {
        Field::NameKey(n, v) => SpecField::NameKey(n@, Box::new(view_expr(v))),
        Field::ExpressionKey(k, v) => SpecField::ExpressionKey(
            Box::new(view_expr(k)),
            Box::new(view_expr(v)),
        ),
        Field::Positional(v) => SpecField::Positional(Box::new(view_expr(v))),
    }
}

pub open spec fn view_fields(s: Seq<Field>) -> Seq<SpecField>
    decreases s,
{
    if s.len() == 0 {
        Seq::empty()
    } else {
        view_fields(s.drop_last()).push(view_field(&s.last()))
    }
}

pub open spec fn view_expr(x: &Expr) -> SpecExpr
    decreases x,
{
    match x {
        Expr::Number(t) => SpecExpr::Number(t@),
        Expr::Str(t) => SpecExpr::Str(t@),
        Expr::Var(v) => SpecExpr::Var(view_var(v)),
        Expr::Call(c) => SpecExpr::Call(view_call(c)),
        Expr::Parentheses(e) => SpecExpr::Parentheses(Box::new(view_expr(e))),
        Expr::BinaryOperator(l, op, r) => SpecExpr::BinaryOperator(
            Box::new(view_expr(l)),
            *op,
            Box::new(view_expr(r)),
        ),
        Expr::UnaryOperator(op, e) => SpecExpr::UnaryOperator(*op, Box::new(view_expr(e))),
        Expr::TableConstructor(fs) => SpecExpr::TableConstructor(view_fields(fs@)),
        Expr::Raw(t) => SpecExpr::Raw(t@),
    }
}

pub open spec fn view_exprs(s: Seq<Expr>) -> Seq<SpecExpr>
    decreases s,
{
    if s.len() == 0 {
        Seq::empty()
    } else {
        view_exprs(s.drop_last()).push(view_expr(&s.last()))
    }
}

pub open spec fn view_stmt_part(x: &StmtPart) -> SpecStmtPart
    decreases x,
{
    match x {
        StmtPart::Text(t) => SpecStmtPart::Text(t@),
        StmtPart::Expr(e) => SpecStmtPart::Expr(Box::new(view_expr(e))),
        StmtPart::Body(b) => SpecStmtPart::Body(view_block(b)),
    }
}

pub open spec fn view_stmt_parts(s: Seq<StmtPart>) -> Seq<SpecStmtPart>
    decreases s,
{
    if s.len() == 0 {
        Seq::empty()
    } else {
        view_stmt_parts(s.drop_last()).push(view_stmt_part(&s.last()))
    }
}

pub open spec fn view_stmt(x: &Stmt) -> SpecStmt
    decreases x,
{
    match x {
        Stmt::LocalAssignment(names, exprs) => SpecStmt::LocalAssignment(
            view_strings(names@),
            view_exprs(exprs@),
        ),
        Stmt::Assignment(vars, exprs) => SpecStmt::Assignment(view_vars(vars@), view_exprs(exprs@)),
        Stmt::FunctionCall(c) => SpecStmt::FunctionCall(view_call(c)),
        Stmt::Do(b) => SpecStmt::Do(view_block(b)),
        Stmt::Compound(parts) => SpecStmt::Compound(view_stmt_parts(parts@)),
        Stmt::Raw(t) => SpecStmt::Raw(t@),
    }
}

/// The view of an optional semicolon text.
pub open spec fn view_semicolon(s: &Option<String>) -> Option<Seq<char>> {
    match s {
        Option::Some(t) => Option::Some(t@),
        Option::None => Option::None,
    }
}

pub open spec fn view_stmt_item(x: &StmtItem) -> SpecStmtItem
    decreases x,
{
    SpecStmtItem {
        leading: view_strings(x.leading@),
        stmt: view_stmt(&x.stmt),
        semicolon: view_semicolon(&x.semicolon),
        trailing: view_strings(x.trailing@),
    }
}

pub open spec fn view_stmt_items(s: Seq<StmtItem>) -> Seq<SpecStmtItem>
    decreases s,
{
    if s.len() == 0 {
        Seq::empty()
    } else {
        view_stmt_items(s.drop_last()).push(view_stmt_item(&s.last()))
    }
}

pub open spec fn view_last_stmt(x: &LastStmt) -> SpecLastStmt
    decreases x,
{
    match x {
        LastStmt::Return(es) => SpecLastStmt::Return(view_exprs(es@)),
        LastStmt::Break => SpecLastStmt::Break,
        LastStmt::Raw(t) => SpecLastStmt::Raw(t@),
    }
}

pub open spec fn view_last_item(x: &LastItem) -> SpecLastItem
    decreases x,
{
    SpecLastItem {
        leading: view_strings(x.leading@),
        stmt: view_last_stmt(&x.stmt),
        semicolon: view_semicolon(&x.semicolon),
        trailing: view_strings(x.trailing@),
    }
}

pub open spec fn view_block(x: &Block) -> SpecBlock
    decreases x,
{
    SpecBlock {
        stmts: view_stmt_items(x.stmts@),
        last_stmt: match &x.last_stmt {
            Option::Some(l) => Option::Some(view_last_item(l)),
            Option::None => Option::None,
        },
        trailing: view_strings(x.trailing@),
    }
}

// ----------------------------------------------------------------------
// Pointwise characterization of the sequence views.
// ----------------------------------------------------------------------
pub broadcast proof fn lemma_view_suffixes(s: Seq<Suffix>)
    ensures
        #[trigger] view_suffixes(s).len() == s.len(),
        forall|i: int| 0 <= i < s.len() ==> view_suffixes(s)[i] == view_suffix(&s[i]),
    decreases s,
{
    if s.len() > 0 {
        lemma_view_suffixes(s.drop_last());
        assert forall|i: int| 0 <= i < s.len() implies view_suffixes(s)[i] == view_suffix(&s[i]) by {
            if i < s.len() - 1 {
                assert(s.drop_last()[i] == s[i]);
            }
        }
    }
}

pub broadcast proof fn lemma_view_vars(s: Seq<Var>)
    ensures
        #[trigger] view_vars(s).len() == s.len(),
        forall|i: int| 0 <= i < s.len() ==> view_vars(s)[i] == view_var(&s[i]),
    decreases s,
{
    if s.len() > 0 {
        lemma_view_vars(s.drop_last());
        assert forall|i: int| 0 <= i < s.len() implies view_vars(s)[i] == view_var(&s[i]) by {
            if i < s.len() - 1 {
                assert(s.drop_last()[i] == s[i]);
            }
        }
    }
}

pub broadcast proof fn lemma_view_fields(s: Seq<Field>)
    ensures
        #[trigger] view_fields(s).len() == s.len(),
        forall|i: int| 0 <= i < s.len() ==> view_fields(s)[i] == view_field(&s[i]),
    decreases s,
{
    if s.len() > 0 {
        lemma_view_fields(s.drop_last());
        assert forall|i: int| 0 <= i < s.len() implies view_fields(s)[i] == view_field(&s[i]) by {
            if i < s.len() - 1 {
                assert(s.drop_last()[i] == s[i]);
            }
        }
    }
}

pub broadcast proof fn lemma_view_exprs(s: Seq<Expr>)
    ensures
        #[trigger] view_exprs(s).len() == s.len(),
        forall|i: int| 0 <= i < s.len() ==> view_exprs(s)[i] == view_expr(&s[i]),
    decreases s,
{
    if s.len() > 0 {
        lemma_view_exprs(s.drop_last());
        assert forall|i: int| 0 <= i < s.len() implies view_exprs(s)[i] == view_expr(&s[i]) by {
            if i < s.len() - 1 {
                assert(s.drop_last()[i] == s[i]);
            }
        }
    }
}

pub broadcast proof fn lemma_view_stmt_items(s: Seq<StmtItem>)
    ensures
        #[trigger] view_stmt_items(s).len() == s.len(),
        forall|i: int| 0 <= i < s.len() ==> view_stmt_items(s)[i] == view_stmt_item(&s[i]),
    decreases s,
{
    if s.len() > 0 {
        lemma_view_stmt_items(s.drop_last());
        assert forall|i: int|
            0 <= i < s.len() implies view_stmt_items(s)[i] == view_stmt_item(&s[i]) by {
            if i < s.len() - 1 {
                assert(s.drop_last()[i] == s[i]);
            }
        }
    }
}

pub broadcast proof fn lemma_view_stmt_parts(s: Seq<StmtPart>)
    ensures
        #[trigger] view_stmt_parts(s).len() == s.len(),
        forall|i: int| 0 <= i < s.len() ==> view_stmt_parts(s)[i] == view_stmt_part(&s[i]),
    decreases s,
{
    if s.len() > 0 {
        lemma_view_stmt_parts(s.drop_last());
        assert forall|i: int|
            0 <= i < s.len() implies view_stmt_parts(s)[i] == view_stmt_part(&s[i]) by {
            if i < s.len() - 1 {
                assert(s.drop_last()[i] == s[i]);
            }
        }
    }
}

/// All pointwise view lemmas together.
pub broadcast group group_view_lemmas {
    lemma_view_suffixes,
    lemma_view_vars,
    lemma_view_fields,
    lemma_view_exprs,
    lemma_view_stmt_items,
    lemma_view_stmt_parts,
}

// ----------------------------------------------------------------------
// Small executable helpers shared by the passes.
// ----------------------------------------------------------------------
/// Copies a list of trivia strings.
pub fn clone_strings(v: &Vec<String>) -> (r: Vec<String>)
    ensures
        view_strings(r@) =~= view_strings(v@),
{
    let mut out: Vec<String> = Vec::new();
    let mut i: usize = 0;
    while i < v.len()
        invariant
            i <= v.len(),
            out@.len() == i as int,
            forall|j: int| 0 <= j < i as int ==> out@[j]@ == v@[j]@,
        decreases v.len() - i,
    {
        out.push(v[i].clone());
        i += 1;
    }
    out
}

/// Appends copies of all strings in `src` to `dst`.
pub fn extend_strings(dst: &mut Vec<String>, src: &Vec<String>)
    ensures
        view_strings(final(dst)@) =~= view_strings(old(dst)@) + view_strings(src@),
{
    let mut i: usize = 0;
    while i < src.len()
        invariant
            i <= src.len(),
            dst@.len() == old(dst)@.len() + i as int,
            forall|j: int| 0 <= j < old(dst)@.len() ==> dst@[j]@ == old(dst)@[j]@,
            forall|j: int|
                0 <= j < i as int ==> dst@[old(dst)@.len() + j]@ == src@[j]@,
        decreases src.len() - i,
    {
        dst.push(src[i].clone());
        i += 1;
    }
}

/// Copies an expression; the copy has the same view.
#[verifier::loop_isolation(false)]
pub fn clone_expr(e: &Expr) -> (r: Expr)
    ensures
        view_expr(&r) == view_expr(e),
    decreases e,
{
    match e {
        Expr::Number(t) => Expr::Number(t.clone()),
        Expr::Str(t) => Expr::Str(t.clone()),
        Expr::Var(v) => {
            let r = Expr::Var(clone_var(v));
            proof {
                assert(view_expr(e) == SpecExpr::Var(view_var(v)));
                assert(r matches Expr::Var(v2) ==> view_expr(&r) == SpecExpr::Var(view_var(&v2)));
            }
            r
        },
        Expr::Call(c) => {
            let r = Expr::Call(clone_call(c));
            proof {
                assert(view_expr(e) == SpecExpr::Call(view_call(c)));
                assert(r matches Expr::Call(c2) ==> view_expr(&r) == SpecExpr::Call(view_call(&c2)));
            }
            r
        },
        Expr::Parentheses(inner) => {
            let r = Expr::Parentheses(Box::new(clone_expr(&**inner)));
            proof {
                assert(view_expr(e) == SpecExpr::Parentheses(Box::new(view_expr(&**inner))));
                assert(r matches Expr::Parentheses(x) ==> view_expr(&r) == SpecExpr::Parentheses(
                    Box::new(view_expr(&*x)),
                ));
            }
            r
        },
        Expr::BinaryOperator(l, op, rhs) => {
            let r = Expr::BinaryOperator(
                Box::new(clone_expr(&**l)),
                *op,
                Box::new(clone_expr(&**rhs)),
            );
            proof {
                assert(view_expr(e) == SpecExpr::BinaryOperator(
                    Box::new(view_expr(&**l)),
                    *op,
                    Box::new(view_expr(&**rhs)),
                ));
                assert(r matches Expr::BinaryOperator(a, o, b) ==> view_expr(&r)
                    == SpecExpr::BinaryOperator(
                    Box::new(view_expr(&*a)),
                    o,
                    Box::new(view_expr(&*b)),
                ));
            }
            r
        },
        Expr::UnaryOperator(op, inner) => {
            let r = Expr::UnaryOperator(*op, Box::new(clone_expr(&**inner)));
            proof {
                assert(view_expr(e) == SpecExpr::UnaryOperator(*op, Box::new(view_expr(&**inner))));
                assert(r matches Expr::UnaryOperator(o, x) ==> view_expr(&r)
                    == SpecExpr::UnaryOperator(o, Box::new(view_expr(&*x))));
            }
            r
        },
        Expr::TableConstructor(fs) => {
            let r = Expr::TableConstructor(clone_fields(fs));
            proof {
                assert(view_expr(e) == SpecExpr::TableConstructor(view_fields(fs@)));
                assert(r matches Expr::TableConstructor(f2) ==> view_expr(&r)
                    == SpecExpr::TableConstructor(view_fields(f2@)));
            }
            r
        },
        Expr::Raw(t) => Expr::Raw(t.clone()),
    }
}

#[verifier::loop_isolation(false)]
pub fn clone_exprs(es: &Vec<Expr>) -> (r: Vec<Expr>)
    ensures
        view_exprs(r@) == view_exprs(es@),
    decreases es,
{
    let mut out: Vec<Expr> = Vec::new();
    let mut i: usize = 0;
    while i < es.len()
        invariant
            i <= es.len(),
            out@.len() == i as int,
            forall|j: int| 0 <= j < i as int ==> view_expr(&out@[j]) == view_expr(&es@[j]),
        decreases es.len() - i,
    {
        let c = clone_expr(&es[i]);
        out.push(c);
        i += 1;
    }
    proof {
        lemma_view_exprs(es@);
        lemma_view_exprs(out@);
        assert(view_exprs(out@) =~= view_exprs(es@));
    }
    out
}

#[verifier::loop_isolation(false)]
pub fn clone_suffix(x: &Suffix) -> (r: Suffix)
    ensures
        view_suffix(&r) == view_suffix(x),
    decreases x,
{
    match x {
        Suffix::Index(IndexSuffix::Dot(n)) => Suffix::Index(IndexSuffix::Dot(n.clone())),
        Suffix::Index(IndexSuffix::Brackets(e)) => {
            let r = Suffix::Index(IndexSuffix::Brackets(Box::new(clone_expr(&**e))));
            proof {
                assert(view_suffix(x) == SpecSuffix::Index(
                    SpecIndexSuffix::Brackets(Box::new(view_expr(&**e))),
                ));
                assert(r matches Suffix::Index(IndexSuffix::Brackets(y)) ==> view_suffix(&r)
                    == SpecSuffix::Index(SpecIndexSuffix::Brackets(Box::new(view_expr(&*y)))));
            }
            r
        },
        Suffix::Call(args) => {
            let r = Suffix::Call(clone_exprs(args));
            proof {
                assert(view_suffix(x) == SpecSuffix::Call(view_exprs(args@)));
                assert(r matches Suffix::Call(a2) ==> view_suffix(&r) == SpecSuffix::Call(
                    view_exprs(a2@),
                ));
            }
            r
        },
    }
}

#[verifier::loop_isolation(false)]
pub fn clone_suffixes(ss: &Vec<Suffix>) -> (r: Vec<Suffix>)
    ensures
        view_suffixes(r@) == view_suffixes(ss@),
    decreases ss,
{
    let mut out: Vec<Suffix> = Vec::new();
    let mut i: usize = 0;
    while i < ss.len()
        invariant
            i <= ss.len(),
            out@.len() == i as int,
            forall|j: int| 0 <= j < i as int ==> view_suffix(&out@[j]) == view_suffix(&ss@[j]),
        decreases ss.len() - i,
    {
        let c = clone_suffix(&ss[i]);
        out.push(c);
        i += 1;
    }
    proof {
        lemma_view_suffixes(ss@);
        lemma_view_suffixes(out@);
        assert(view_suffixes(out@) =~= view_suffixes(ss@));
    }
    out
}

#[verifier::loop_isolation(false)]
pub fn clone_call(c: &FunctionCall) -> (r: FunctionCall)
    ensures
        view_call(&r) == view_call(c),
    decreases c,
{
    let r = FunctionCall { prefix: c.prefix.clone(), suffixes: clone_suffixes(&c.suffixes) };
    proof {
        assert(view_call(&r) =~= view_call(c));
    }
    r
}

#[verifier::loop_isolation(false)]
pub fn clone_var(v: &Var) -> (r: Var)
    ensures
        view_var(&r) == view_var(v),
    decreases v,
{
    match v {
        Var::Name(n) => Var::Name(n.clone()),
        Var::Expr(ve) => {
            let r = Var::Expr(
                VarExpr { prefix: ve.prefix.clone(), suffixes: clone_suffixes(&ve.suffixes) },
            );
            proof {
                assert(view_var(v) == SpecVar::Expr(view_var_expr(ve)));
                assert(r matches Var::Expr(ve2) ==> view_var(&r) == SpecVar::Expr(
                    view_var_expr(&ve2),
                ));
                assert(r matches Var::Expr(ve2) ==> view_var_expr(&ve2) =~= view_var_expr(ve));
            }
            r
        },
        Var::Raw(t) => Var::Raw(t.clone()),
    }
}

#[verifier::loop_isolation(false)]
pub fn clone_vars(vs: &Vec<Var>) -> (r: Vec<Var>)
    ensures
        view_vars(r@) == view_vars(vs@),
    decreases vs,
{
    let mut out: Vec<Var> = Vec::new();
    let mut i: usize = 0;
    while i < vs.len()
        invariant
            i <= vs.len(),
            out@.len() == i as int,
            forall|j: int| 0 <= j < i as int ==> view_var(&out@[j]) == view_var(&vs@[j]),
        decreases vs.len() - i,
    {
        let c = clone_var(&vs[i]);
        out.push(c);
        i += 1;
    }
    proof {
        lemma_view_vars(vs@);
        lemma_view_vars(out@);
        assert(view_vars(out@) =~= view_vars(vs@));
    }
    out
}

#[verifier::loop_isolation(false)]
pub fn clone_fields(fs: &Vec<Field>) -> (r: Vec<Field>)
    ensures
        view_fields(r@) == view_fields(fs@),
    decreases fs,
{
    let mut out: Vec<Field> = Vec::new();
    let mut i: usize = 0;
    while i < fs.len()
        invariant
            i <= fs.len(),
            out@.len() == i as int,
            forall|j: int| 0 <= j < i as int ==> view_field(&out@[j]) == view_field(&fs@[j]),
        decreases fs.len() - i,
    {
        let f = &fs[i];
        let c = match f {
            Field::NameKey(n, v) => {
                let c = Field::NameKey(n.clone(), clone_expr(v));
                proof {
                    assert(view_field(f) == SpecField::NameKey(n@, Box::new(view_expr(v))));
                    assert(c matches Field::NameKey(n2, v2) ==> view_field(&c)
                        == SpecField::NameKey(n2@, Box::new(view_expr(&v2))));
                }
                c
            },
            Field::ExpressionKey(k, v) => {
                let c = Field::ExpressionKey(
                    Box::new(clone_expr(&**k)),
                    Box::new(clone_expr(&**v)),
                );
                proof {
                    assert(view_field(f) == SpecField::ExpressionKey(
                        Box::new(view_expr(&**k)),
                        Box::new(view_expr(&**v)),
                    ));
                    assert(c matches Field::ExpressionKey(k2, v2) ==> view_field(&c)
                        == SpecField::ExpressionKey(
                        Box::new(view_expr(&*k2)),
                        Box::new(view_expr(&*v2)),
                    ));
                }
                c
            },
            Field::Positional(v) => {
                let c = Field::Positional(clone_expr(v));
                proof {
                    assert(view_field(f) == SpecField::Positional(Box::new(view_expr(v))));
                    assert(c matches Field::Positional(v2) ==> view_field(&c)
                        == SpecField::Positional(Box::new(view_expr(&v2))));
                }
                c
            },
        };
        out.push(c);
        i += 1;
    }
    proof {
        lemma_view_fields(fs@);
        lemma_view_fields(out@);
        assert(view_fields(out@) =~= view_fields(fs@));
    }
    out
}

#[verifier::loop_isolation(false)]
pub fn clone_last_stmt(l: &LastStmt) -> (r: LastStmt)
    ensures
        view_last_stmt(&r) == view_last_stmt(l),
    decreases l,
{
    match l {
        LastStmt::Return(es) => {
            let r = LastStmt::Return(clone_exprs(es));
            proof {
                assert(view_last_stmt(l) == SpecLastStmt::Return(view_exprs(es@)));
                assert(r matches LastStmt::Return(e2) ==> view_last_stmt(&r)
                    == SpecLastStmt::Return(view_exprs(e2@)));
            }
            r
        },
        LastStmt::Break => LastStmt::Break,
        LastStmt::Raw(t) => LastStmt::Raw(t.clone()),
    }
}

/// Copies an optional semicolon text.
pub fn clone_semicolon(s: &Option<String>) -> (r: Option<String>)
    ensures
        view_semicolon(&r) == view_semicolon(s),
{
    match s {
        Option::Some(t) => Option::Some(t.clone()),
        Option::None => Option::None,
    }
}

#[verifier::loop_isolation(false)]
pub fn clone_stmt_part(x: &StmtPart) -> (r: StmtPart)
    ensures
        view_stmt_part(&r) == view_stmt_part(x),
    decreases x,
{
    match x {
        StmtPart::Text(t) => StmtPart::Text(t.clone()),
        StmtPart::Expr(e) => {
            let r = StmtPart::Expr(clone_expr(e));
            proof {
                assert(view_stmt_part(x) == SpecStmtPart::Expr(Box::new(view_expr(e))));
                assert(r matches StmtPart::Expr(e2) ==> view_stmt_part(&r) == SpecStmtPart::Expr(
                    Box::new(view_expr(&e2)),
                ));
            }
            r
        },
        StmtPart::Body(b) => {
            let r = StmtPart::Body(clone_block(b));
            proof {
                assert(view_stmt_part(x) == SpecStmtPart::Body(view_block(b)));
                assert(r matches StmtPart::Body(b2) ==> view_stmt_part(&r) == SpecStmtPart::Body(
                    view_block(&b2),
                ));
            }
            r
        },
    }
}

#[verifier::loop_isolation(false)]
pub fn clone_stmt_parts(xs: &Vec<StmtPart>) -> (r: Vec<StmtPart>)
    ensures
        view_stmt_parts(r@) == view_stmt_parts(xs@),
    decreases xs,
{
    let mut out: Vec<StmtPart> = Vec::new();
    let mut i: usize = 0;
    while i < xs.len()
        invariant
            i <= xs.len(),
            out@.len() == i as int,
            forall|j: int|
                0 <= j < i as int ==> view_stmt_part(&out@[j]) == view_stmt_part(&xs@[j]),
        decreases xs.len() - i,
    {
        let c = clone_stmt_part(&xs[i]);
        out.push(c);
        i += 1;
    }
    proof {
        lemma_view_stmt_parts(xs@);
        lemma_view_stmt_parts(out@);
        assert(view_stmt_parts(out@) =~= view_stmt_parts(xs@));
    }
    out
}

#[verifier::loop_isolation(false)]
pub fn clone_stmt(x: &Stmt) -> (r: Stmt)
    ensures
        view_stmt(&r) == view_stmt(x),
    decreases x,
{
    match x {
        Stmt::LocalAssignment(names, exprs) => {
            let r = Stmt::LocalAssignment(clone_strings(names), clone_exprs(exprs));
            proof {
                assert(view_stmt(x) == SpecStmt::LocalAssignment(
                    view_strings(names@),
                    view_exprs(exprs@),
                ));
                assert(r matches Stmt::LocalAssignment(n2, e2) ==> view_stmt(&r)
                    == SpecStmt::LocalAssignment(view_strings(n2@), view_exprs(e2@)));
            }
            r
        },
        Stmt::Assignment(vars, exprs) => {
            let r = Stmt::Assignment(clone_vars(vars), clone_exprs(exprs));
            proof {
                assert(view_stmt(x) == SpecStmt::Assignment(view_vars(vars@), view_exprs(exprs@)));
                assert(r matches Stmt::Assignment(v2, e2) ==> view_stmt(&r) == SpecStmt::Assignment(
                    view_vars(v2@),
                    view_exprs(e2@),
                ));
            }
            r
        },
        Stmt::FunctionCall(c) => {
            let r = Stmt::FunctionCall(clone_call(c));
            proof {
                assert(view_stmt(x) == SpecStmt::FunctionCall(view_call(c)));
                assert(r matches Stmt::FunctionCall(c2) ==> view_stmt(&r) == SpecStmt::FunctionCall(
                    view_call(&c2),
                ));
            }
            r
        },
        Stmt::Do(b) => {
            let r = Stmt::Do(clone_block(b));
            proof {
                assert(view_stmt(x) == SpecStmt::Do(view_block(b)));
                assert(r matches Stmt::Do(b2) ==> view_stmt(&r) == SpecStmt::Do(view_block(&b2)));
            }
            r
        },
        Stmt::Compound(parts) => {
            let r = Stmt::Compound(clone_stmt_parts(parts));
            proof {
                assert(view_stmt(x) == SpecStmt::Compound(view_stmt_parts(parts@)));
                assert(r matches Stmt::Compound(p2) ==> view_stmt(&r) == SpecStmt::Compound(
                    view_stmt_parts(p2@),
                ));
            }
            r
        },
        Stmt::Raw(t) => Stmt::Raw(t.clone()),
    }
}

#[verifier::loop_isolation(false)]
pub fn clone_stmt_items(xs: &Vec<StmtItem>) -> (r: Vec<StmtItem>)
    ensures
        view_stmt_items(r@) == view_stmt_items(xs@),
    decreases xs,
{
    let mut out: Vec<StmtItem> = Vec::new();
    let mut i: usize = 0;
    while i < xs.len()
        invariant
            i <= xs.len(),
            out@.len() == i as int,
            forall|j: int|
                0 <= j < i as int ==> view_stmt_item(&out@[j]) == view_stmt_item(&xs@[j]),
        decreases xs.len() - i,
    {
        let it = &xs[i];
        let c = StmtItem {
            leading: clone_strings(&it.leading),
            stmt: clone_stmt(&it.stmt),
            semicolon: clone_semicolon(&it.semicolon),
            trailing: clone_strings(&it.trailing),
        };
        proof {
            assert(view_stmt_item(&c) =~= view_stmt_item(&xs@[i as int]));
        }
        out.push(c);
        i += 1;
    }
    proof {
        lemma_view_stmt_items(xs@);
        lemma_view_stmt_items(out@);
        assert(view_stmt_items(out@) =~= view_stmt_items(xs@));
    }
    out
}

/// Copies a whole tree; the copy has the same view.
#[verifier::loop_isolation(false)]
pub fn clone_block(b: &Block) -> (r: Block)
    ensures
        view_block(&r) == view_block(b),
    decreases b,
{
    let last: Option<LastItem> = match &b.last_stmt {
        Option::Some(l) => Option::Some(clone_last_item(l)),
        Option::None => Option::None,
    };
    let r = Block {
        stmts: clone_stmt_items(&b.stmts),
        last_stmt: last,
        trailing: clone_strings(&b.trailing),
    };
    proof {
        assert(view_block(&r) =~= view_block(b));
    }
    r
}

#[verifier::loop_isolation(false)]
pub fn clone_last_item(l: &LastItem) -> (r: LastItem)
    ensures
        view_last_item(&r) == view_last_item(l),
    decreases l,
{
    let r = LastItem {
        leading: clone_strings(&l.leading),
        stmt: clone_last_stmt(&l.stmt),
        semicolon: clone_semicolon(&l.semicolon),
        trailing: clone_strings(&l.trailing),
    };
    proof {
        assert(view_last_item(&r) =~= view_last_item(l));
    }
    r
}

/// Wraps an expression in explicit parentheses.
pub fn create_parentheses(inner_exp: Expr) -> (r: Expr)
    ensures
        view_expr(&r) == SpecExpr::Parentheses(Box::new(view_expr(&inner_exp))),
{
    let r = Expr::Parentheses(Box::new(inner_exp));
    proof {
        assert(r matches Expr::Parentheses(x) ==> view_expr(&r) == SpecExpr::Parentheses(
            Box::new(view_expr(&*x)),
        ));
    }
    r
}

/// Joins two expressions with a binary operator.
pub fn create_binary_operator(left: Expr, binop: BinOp, right: Expr) -> (r: Expr)
    ensures
        view_expr(&r) == SpecExpr::BinaryOperator(
            Box::new(view_expr(&left)),
            binop,
            Box::new(view_expr(&right)),
        ),
{
    let r = Expr::BinaryOperator(Box::new(left), binop, Box::new(right));
    proof {
        assert(r matches Expr::BinaryOperator(a, o, b) ==> view_expr(&r)
            == SpecExpr::BinaryOperator(Box::new(view_expr(&*a)), o, Box::new(view_expr(&*b))));
    }
    r
}

/// Applies a unary operator to an expression.
pub fn create_unary_operator(unop: UnOp, exp: Expr) -> (r: Expr)
    ensures
        view_expr(&r) == SpecExpr::UnaryOperator(unop, Box::new(view_expr(&exp))),
{
    let r = Expr::UnaryOperator(unop, Box::new(exp));
    proof {
        assert(r matches Expr::UnaryOperator(o, x) ==> view_expr(&r) == SpecExpr::UnaryOperator(
            o,
            Box::new(view_expr(&*x)),
        ));
    }
    r
}

/// A numeral expression from its source text.
pub fn create_number(number_text: String) -> (r: Expr)
    ensures
        view_expr(&r) == SpecExpr::Number(number_text@),
{
    Expr::Number(number_text)
}

/// An empty `do ... end` placeholder statement that keeps the replaced
/// node's leading and trailing trivia.
pub fn create_empty_do_from_node(node: &StmtItem) -> (r: StmtItem)
    ensures
        view_stmt_item(&r) == (SpecStmtItem {
            leading: view_stmt_item(node).leading,
            stmt: SpecStmt::Do(
                SpecBlock {
                    stmts: Seq::empty(),
                    last_stmt: Option::None,
                    trailing: Seq::empty(),
                },
            ),
            semicolon: view_stmt_item(node).semicolon,
            trailing: view_stmt_item(node).trailing,
        }),
{
    let r = StmtItem {
        leading: clone_strings(&node.leading),
        stmt: Stmt::Do(Block { stmts: Vec::new(), last_stmt: Option::None, trailing: Vec::new() }),
        semicolon: clone_semicolon(&node.semicolon),
        trailing: clone_strings(&node.trailing),
    };
    proof {
        assert(r.stmt matches Stmt::Do(b) ==> view_block(&b) =~= (SpecBlock {
            stmts: Seq::empty(),
            last_stmt: Option::None,
            trailing: Seq::empty(),
        }));
        assert(view_stmt_item(&r) =~= (SpecStmtItem {
            leading: view_stmt_item(node).leading,
            stmt: SpecStmt::Do(
                SpecBlock {
                    stmts: Seq::empty(),
                    last_stmt: Option::None,
                    trailing: Seq::empty(),
                },
            ),
            semicolon: view_stmt_item(node).semicolon,
            trailing: view_stmt_item(node).trailing,
        }));
    }
    r
}

} // verus!
