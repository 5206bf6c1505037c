//! Conversion of legacy 32-bit bitwise-library calls to native operators.
//!
//! The pass walks a tree in document order and keeps two pieces of state:
//! the current name of the library root (reassignable through
//! `local b = bit32`) and a table of locally aliased methods
//! (`local f = bit32.band`).  Matching alias assignments are elided; their
//! trivia moves to the next surviving statement of the same block (their
//! separate semicolon token goes with them), and is dropped when no
//! statement follows.  Matching calls are rewritten to the
//! native operator with explicit 32-bit masking (the complement rewrite is
//! `((~(a & 0xFFFFFFFF)) & 0xFFFFFFFF)`, every grouping an explicit
//! parenthesis node); a matching call whose result is discarded becomes an
//! empty `do end` placeholder.
use vstd::prelude::*;

use crate::ast::{
    Block, Expr, Field, FunctionCall, IndexSuffix, LastItem, LastStmt, SpecBlock, SpecExpr,
    SpecField, SpecFunctionCall, SpecIndexSuffix, SpecLastItem, SpecLastStmt, SpecStmt,
    SpecStmtItem, SpecStmtPart, SpecSuffix, SpecVar, SpecVarExpr, Stmt, StmtItem, StmtPart,
    Suffix, UnOp, Var, VarExpr, BinOp, clone_semicolon, clone_strings, extend_strings,
    group_view_lemmas, lemma_view_exprs, lemma_view_fields, lemma_view_stmt_items,
    lemma_view_stmt_parts, lemma_view_suffixes, lemma_view_vars, view_block, view_call, view_expr, view_exprs, view_field, view_fields,
    view_index_suffix, view_last_item, view_last_stmt, view_semicolon, view_stmt, view_stmt_item,
    view_stmt_items, view_stmt_part, view_stmt_parts, view_strings,
    view_suffix, view_suffixes, view_var, view_var_expr, view_vars,
};

verus! {

broadcast use
    vstd::std_specs::vec::group_vec_axioms,
    vstd::seq::group_seq_axioms,
    group_view_lemmas;

/// The operations of the legacy 32-bit bitwise library.
#[derive(Clone, Copy, PartialEq, Eq, Structural, Debug)]
pub enum Bit32Method {
    RightShift,
    LeftShift,
    And,
    Or,
    Xor,
    Not,
}

/// The method name each operation is called by in source text.
pub open spec fn spec_method_of_name(n: Seq<char>) -> Option<Bit32Method> {
    if n == "rshift"@ {
        Option::Some(Bit32Method::RightShift)
    } else if n == "lshift"@ {
        Option::Some(Bit32Method::LeftShift)
    } else if n == "band"@ {
        Option::Some(Bit32Method::And)
    } else if n == "bor"@ {
        Option::Some(Bit32Method::Or)
    } else if n == "bxor"@ {
        Option::Some(Bit32Method::Xor)
    } else if n == "bnot"@ {
        Option::Some(Bit32Method::Not)
    } else {
        Option::None
    }
}

/// How many operands an operation needs before it can be rewritten.
pub open spec fn spec_arity(m: Bit32Method) -> int {
    if m is Not {
        1
    } else {
        2
    }
}

/// The native operator an arity-two operation is rewritten to.
pub open spec fn spec_binop_of(m: Bit32Method) -> BinOp {
    match m {
        Bit32Method::RightShift => BinOp::DoubleGreaterThan,
        Bit32Method::LeftShift => BinOp::DoubleLessThan,
        Bit32Method::And => BinOp::Ampersand,
        Bit32Method::Or => BinOp::Pipe,
        Bit32Method::Xor => BinOp::Tilde,
        Bit32Method::Not => BinOp::Ampersand,
    }
}

/// The text of the 32-bit all-ones masking constant.
pub open spec fn spec_mask_text() -> Seq<char> {
    "0xFFFFFFFF"@
}

/// `e & 0xFFFFFFFF`
pub open spec fn spec_mask32(e: SpecExpr) -> SpecExpr {
    SpecExpr::BinaryOperator(
        Box::new(e),
        BinOp::Ampersand,
        Box::new(SpecExpr::Number(spec_mask_text())),
    )
}

/// `((a <op> b) & 0xFFFFFFFF)`
pub open spec fn spec_rewrite_binary(m: Bit32Method, a: SpecExpr, b: SpecExpr) -> SpecExpr {
    SpecExpr::Parentheses(
        Box::new(
            spec_mask32(
                SpecExpr::Parentheses(
                    Box::new(SpecExpr::BinaryOperator(Box::new(a), spec_binop_of(m), Box::new(b))),
                ),
            ),
        ),
    )
}

/// `((~(a & 0xFFFFFFFF)) & 0xFFFFFFFF)`, as a tree: the operand is masked
/// and parenthesized, complemented, the complement parenthesized in turn,
/// then masked again and parenthesized; every grouping is an explicit node.
pub open spec fn spec_rewrite_not(a: SpecExpr) -> SpecExpr {
    SpecExpr::Parentheses(
        Box::new(
            spec_mask32(
                SpecExpr::Parentheses(
                    Box::new(
                        SpecExpr::UnaryOperator(
                            UnOp::Tilde,
                            Box::new(SpecExpr::Parentheses(Box::new(spec_mask32(a)))),
                        ),
                    ),
                ),
            ),
        ),
    )
}

/// The rewrite of one operation applied to an argument list; `None` when too
/// few operands are present (the call is then left unconverted).  Extra
/// operands beyond the operation's arity are discarded by the rewrite.
pub open spec fn spec_rewrite(m: Bit32Method, args: Seq<SpecExpr>) -> Option<SpecExpr> {
    if m is Not {
        if args.len() >= 1 {
            Option::Some(spec_rewrite_not(args[0]))
        } else {
            Option::None
        }
    } else {
        if args.len() >= 2 {
            Option::Some(spec_rewrite_binary(m, args[0], args[1]))
        } else {
            Option::None
        }
    }
}

/// The method name an index suffix denotes: `.band`, or `["band"]` with the
/// string literal's quotes stripped.
pub open spec fn spec_index_name(ix: SpecIndexSuffix) -> Option<Seq<char>> {
    match ix {
        SpecIndexSuffix::Dot(n) => Option::Some(n),
        SpecIndexSuffix::Brackets(e) => match *e {
            SpecExpr::Str(s) => {
                if s.len() >= 2 {
                    Option::Some(s.subrange(1, s.len() - 1))
                } else {
                    Option::None
                }
            },
            _ => Option::None,
        },
    }
}

/// The converter's state: the current library-root name and the recorded
/// method aliases, later recordings shadowing earlier ones.
#[verifier::ext_equal]
pub struct SpecConverter {
    pub root: Seq<char>,
    pub aliases: Seq<(Seq<char>, Bit32Method)>,
}

pub open spec fn spec_lookup_alias(s: Seq<(Seq<char>, Bit32Method)>, n: Seq<char>) -> Option<
    Bit32Method,
>
    decreases s.len(),
{
    if s.len() == 0 {
        Option::None
    } else if s.last().0 == n {
        Option::Some(s.last().1)
    } else {
        spec_lookup_alias(s.drop_last(), n)
    }
}

// ----------------------------------------------------------------------
// Specification of the conversion.
// ----------------------------------------------------------------------
/// Whether a fully shaped call matches, and its rewrite: either
/// `<root>.<method>(args)` (an index then an argument list), or
/// `<alias>(args)` (an argument list only).
pub open spec fn spec_match_rewrite(st: SpecConverter, fc: SpecFunctionCall) -> Option<SpecExpr> {
    if fc.suffixes.len() == 2 {
        match (fc.suffixes[0], fc.suffixes[1]) {
            (SpecSuffix::Index(ix), SpecSuffix::Call(args)) => {
                if fc.prefix == st.root {
                    match spec_index_name(ix) {
                        Option::Some(nm) => match spec_method_of_name(nm) {
                            Option::Some(m) => spec_rewrite(m, args),
                            Option::None => Option::None,
                        },
                        Option::None => Option::None,
                    }
                } else {
                    Option::None
                }
            },
            _ => Option::None,
        }
    } else if fc.suffixes.len() == 1 {
        match fc.suffixes[0] {
            SpecSuffix::Call(args) => match spec_lookup_alias(st.aliases, fc.prefix) {
                Option::Some(m) => spec_rewrite(m, args),
                Option::None => Option::None,
            },
            _ => Option::None,
        }
    } else {
        Option::None
    }
}

/// One name/expression pair of an assignment: a root alias
/// (`name = <root>`) or a method alias (`name = <root>.<method>`).
pub open spec fn spec_pair_match(st: SpecConverter, v: SpecVar, e: SpecExpr) -> Option<
    SpecConverter,
> {
    match (v, e) {
        (SpecVar::Name(vn), SpecExpr::Var(SpecVar::Name(en))) => {
            if en == st.root {
                Option::Some(SpecConverter { root: vn, aliases: st.aliases })
            } else {
                Option::None
            }
        },
        (SpecVar::Name(vn), SpecExpr::Var(SpecVar::Expr(ve))) => {
            if ve.prefix == st.root && ve.suffixes.len() == 1 {
                match ve.suffixes[0] {
                    SpecSuffix::Index(ix) => match spec_index_name(ix) {
                        Option::Some(nm) => match spec_method_of_name(nm) {
                            Option::Some(m) => Option::Some(
                                SpecConverter { root: st.root, aliases: st.aliases.push((vn, m)) },
                            ),
                            Option::None => Option::None,
                        },
                        Option::None => Option::None,
                    },
                    _ => Option::None,
                }
            } else {
                Option::None
            }
        },
        _ => Option::None,
    }
}

/// Scans the name/expression pairs of an assignment in order; the first
/// matching pair decides, and the whole statement is then elided.
pub open spec fn spec_check_pairs(
    st: SpecConverter,
    vars: Seq<SpecVar>,
    exprs: Seq<SpecExpr>,
    i: int,
) -> Option<SpecConverter>
    decreases vars.len() - i,
{
    if i < 0 || i >= vars.len() || i >= exprs.len() {
        Option::None
    } else {
        match spec_pair_match(st, vars[i], exprs[i]) {
            Option::Some(st2) => Option::Some(st2),
            Option::None => spec_check_pairs(st, vars, exprs, i + 1),
        }
    }
}

pub open spec fn spec_vars_of_names(names: Seq<Seq<char>>) -> Seq<SpecVar> {
    Seq::new(names.len(), |i: int| SpecVar::Name(names[i]))
}

/// Whether a statement is an alias assignment that the pass elides, and the
/// state after recording it.
pub open spec fn spec_stmt_elides(st: SpecConverter, s: SpecStmt) -> Option<SpecConverter> {
    match s {
        SpecStmt::LocalAssignment(names, exprs) => spec_check_pairs(
            st,
            spec_vars_of_names(names),
            exprs,
            0,
        ),
        SpecStmt::Assignment(vars, exprs) => spec_check_pairs(st, vars, exprs, 0),
        _ => Option::None,
    }
}

pub open spec fn spec_cv_expr(st: SpecConverter, e: SpecExpr) -> SpecExpr
    decreases e,
{
    match e {
        SpecExpr::Number(t) => SpecExpr::Number(t),
        SpecExpr::Str(t) => SpecExpr::Str(t),
        SpecExpr::Var(v) => SpecExpr::Var(spec_cv_var(st, v)),
        SpecExpr::Call(c) => {
            let c2 = SpecFunctionCall {
                prefix: c.prefix,
                suffixes: spec_cv_suffixes(st, c.suffixes, 0),
            };
            match spec_match_rewrite(st, c2) {
                Option::Some(r) => r,
                Option::None => SpecExpr::Call(c2),
            }
        },
        SpecExpr::Parentheses(inner) => SpecExpr::Parentheses(Box::new(spec_cv_expr(st, *inner))),
        SpecExpr::BinaryOperator(l, op, r) => SpecExpr::BinaryOperator(
            Box::new(spec_cv_expr(st, *l)),
            op,
            Box::new(spec_cv_expr(st, *r)),
        ),
        SpecExpr::UnaryOperator(op, inner) => SpecExpr::UnaryOperator(
            op,
            Box::new(spec_cv_expr(st, *inner)),
        ),
        SpecExpr::TableConstructor(fs) => SpecExpr::TableConstructor(spec_cv_fields(st, fs, 0)),
        SpecExpr::Raw(t) => SpecExpr::Raw(t),
    }
}

pub open spec fn spec_cv_exprs(st: SpecConverter, es: Seq<SpecExpr>, i: int) -> Seq<SpecExpr>
    decreases es, es.len() - i,
{
    if i < 0 || i >= es.len() {
        Seq::empty()
    } else {
        seq![spec_cv_expr(st, es[i])] + spec_cv_exprs(st, es, i + 1)
    }
}

pub open spec fn spec_cv_var(st: SpecConverter, v: SpecVar) -> SpecVar
    decreases v,
{
    match v {
        SpecVar::Name(n) => SpecVar::Name(n),
        SpecVar::Expr(ve) => SpecVar::Expr(
            SpecVarExpr { prefix: ve.prefix, suffixes: spec_cv_suffixes(st, ve.suffixes, 0) },
        ),
        SpecVar::Raw(t) => SpecVar::Raw(t),
    }
}

pub open spec fn spec_cv_vars(st: SpecConverter, vs: Seq<SpecVar>, i: int) -> Seq<SpecVar>
    decreases vs, vs.len() - i,
{
    if i < 0 || i >= vs.len() {
        Seq::empty()
    } else {
        seq![spec_cv_var(st, vs[i])] + spec_cv_vars(st, vs, i + 1)
    }
}

pub open spec fn spec_cv_suffix(st: SpecConverter, s: SpecSuffix) -> SpecSuffix
    decreases s,
{
    match s {
        SpecSuffix::Index(SpecIndexSuffix::Dot(n)) => SpecSuffix::Index(SpecIndexSuffix::Dot(n)),
        SpecSuffix::Index(SpecIndexSuffix::Brackets(e)) => SpecSuffix::Index(
            SpecIndexSuffix::Brackets(Box::new(spec_cv_expr(st, *e))),
        ),
        SpecSuffix::Call(args) => SpecSuffix::Call(spec_cv_exprs(st, args, 0)),
    }
}

pub open spec fn spec_cv_suffixes(st: SpecConverter, ss: Seq<SpecSuffix>, i: int) -> Seq<SpecSuffix>
    decreases ss, ss.len() - i,
{
    if i < 0 || i >= ss.len() {
        Seq::empty()
    } else {
        seq![spec_cv_suffix(st, ss[i])] + spec_cv_suffixes(st, ss, i + 1)
    }
}

pub open spec fn spec_cv_field(st: SpecConverter, f: SpecField) -> SpecField
    decreases f,
{
    match f {
        SpecField::NameKey(n, v) => SpecField::NameKey(n, Box::new(spec_cv_expr(st, *v))),
        SpecField::ExpressionKey(k, v) => SpecField::ExpressionKey(
            Box::new(spec_cv_expr(st, *k)),
            Box::new(spec_cv_expr(st, *v)),
        ),
        SpecField::Positional(v) => SpecField::Positional(Box::new(spec_cv_expr(st, *v))),
    }
}

pub open spec fn spec_cv_fields(st: SpecConverter, fs: Seq<SpecField>, i: int) -> Seq<SpecField>
    decreases fs, fs.len() - i,
{
    if i < 0 || i >= fs.len() {
        Seq::empty()
    } else {
        seq![spec_cv_field(st, fs[i])] + spec_cv_fields(st, fs, i + 1)
    }
}

/// An empty `do end` placeholder.
pub open spec fn spec_empty_do() -> SpecStmt {
    SpecStmt::Do(
        SpecBlock { stmts: Seq::empty(), last_stmt: Option::None, trailing: Seq::empty() },
    )
}

/// Converts one statement that is not an elided alias assignment.
pub open spec fn spec_cv_stmt(st: SpecConverter, s: SpecStmt) -> (SpecConverter, SpecStmt)
    decreases s,
{
    match s {
        SpecStmt::LocalAssignment(names, exprs) => (
            st,
            SpecStmt::LocalAssignment(names, spec_cv_exprs(st, exprs, 0)),
        ),
        SpecStmt::Assignment(vars, exprs) => (
            st,
            SpecStmt::Assignment(spec_cv_vars(st, vars, 0), spec_cv_exprs(st, exprs, 0)),
        ),
        SpecStmt::FunctionCall(c) => {
            let c2 = SpecFunctionCall {
                prefix: c.prefix,
                suffixes: spec_cv_suffixes(st, c.suffixes, 0),
            };
            match spec_match_rewrite(st, c2) {
                Option::Some(_) => (st, spec_empty_do()),
                Option::None => (st, SpecStmt::FunctionCall(c2)),
            }
        },
        SpecStmt::Do(b) => {
            let (st2, b2) = spec_cv_block(st, b);
            (st2, SpecStmt::Do(b2))
        },
        SpecStmt::Compound(parts) => {
            let (st2, parts2) = spec_cv_parts(st, parts, 0);
            (st2, SpecStmt::Compound(parts2))
        },
        SpecStmt::Raw(t) => (st, SpecStmt::Raw(t)),
    }
}

/// Converts the pieces of a compound statement in document order: embedded
/// expressions under the state current at their position, nested bodies
/// threading the state onward, text unchanged.
pub open spec fn spec_cv_parts(st: SpecConverter, ps: Seq<SpecStmtPart>, i: int) -> (
    SpecConverter,
    Seq<SpecStmtPart>,
)
    decreases ps, ps.len() - i,
{
    if i < 0 || i >= ps.len() {
        (st, Seq::empty())
    } else {
        match ps[i] {
            SpecStmtPart::Text(t) => {
                let (st2, rest) = spec_cv_parts(st, ps, i + 1);
                (st2, seq![SpecStmtPart::Text(t)] + rest)
            },
            SpecStmtPart::Expr(e) => {
                let part2 = SpecStmtPart::Expr(Box::new(spec_cv_expr(st, *e)));
                let (st2, rest) = spec_cv_parts(st, ps, i + 1);
                (st2, seq![part2] + rest)
            },
            SpecStmtPart::Body(b) => {
                let (st2, b2) = spec_cv_block(st, b);
                let (st3, rest) = spec_cv_parts(st2, ps, i + 1);
                (st3, seq![SpecStmtPart::Body(b2)] + rest)
            },
        }
    }
}

/// Converts the statements of a block from position `i` on, threading the
/// converter state in document order.  `pending` is trivia carried from
/// elided statements, waiting to be prepended to the next survivor; pending
/// trivia left at the end of the block is dropped.
pub open spec fn spec_cv_items(
    st: SpecConverter,
    items: Seq<SpecStmtItem>,
    i: int,
    pending: Seq<Seq<char>>,
) -> (SpecConverter, Seq<SpecStmtItem>)
    decreases items, items.len() - i,
{
    if i < 0 || i >= items.len() {
        (st, Seq::empty())
    } else {
        let it = items[i];
        match spec_stmt_elides(st, it.stmt) {
            Option::Some(st2) => spec_cv_items(st2, items, i + 1, pending + it.leading + it.trailing),
            Option::None => {
                let (st2, s2) = spec_cv_stmt(st, it.stmt);
                let item2 = SpecStmtItem {
                    leading: pending + it.leading,
                    stmt: s2,
                    semicolon: it.semicolon,
                    trailing: it.trailing,
                };
                let (st3, rest) = spec_cv_items(st2, items, i + 1, Seq::empty());
                (st3, seq![item2] + rest)
            },
        }
    }
}

/// Converts a whole block: its statements in order, then the terminal
/// statement under the state the statements left behind.
pub open spec fn spec_cv_block(st: SpecConverter, b: SpecBlock) -> (SpecConverter, SpecBlock)
    decreases b,
{
    let (st2, items) = spec_cv_items(st, b.stmts, 0, Seq::empty());
    let last2 = match b.last_stmt {
        Option::Some(l) => Option::Some(
            SpecLastItem {
                leading: l.leading,
                stmt: match l.stmt {
                    SpecLastStmt::Return(es) => SpecLastStmt::Return(spec_cv_exprs(st2, es, 0)),
                    SpecLastStmt::Break => SpecLastStmt::Break,
                    SpecLastStmt::Raw(t) => SpecLastStmt::Raw(t),
                },
                semicolon: l.semicolon,
                trailing: l.trailing,
            },
        ),
        Option::None => Option::None,
    };
    (st2, SpecBlock { stmts: items, last_stmt: last2, trailing: b.trailing })
}

// ----------------------------------------------------------------------
// Pointwise characterizations.
// ----------------------------------------------------------------------
pub proof fn lemma_cv_exprs_pointwise(st: SpecConverter, es: Seq<SpecExpr>, i: int)
    requires
        0 <= i <= es.len(),
    ensures
        spec_cv_exprs(st, es, i).len() == es.len() - i,
        forall|j: int|
            0 <= j < es.len() - i ==> spec_cv_exprs(st, es, i)[j] == spec_cv_expr(st, es[i + j]),
    decreases es.len() - i,
{
    if i < es.len() {
        lemma_cv_exprs_pointwise(st, es, i + 1);
    }
}

pub proof fn lemma_cv_vars_pointwise(st: SpecConverter, vs: Seq<SpecVar>, i: int)
    requires
        0 <= i <= vs.len(),
    ensures
        spec_cv_vars(st, vs, i).len() == vs.len() - i,
        forall|j: int|
            0 <= j < vs.len() - i ==> spec_cv_vars(st, vs, i)[j] == spec_cv_var(st, vs[i + j]),
    decreases vs.len() - i,
{
    if i < vs.len() {
        lemma_cv_vars_pointwise(st, vs, i + 1);
    }
}

pub proof fn lemma_cv_suffixes_pointwise(st: SpecConverter, ss: Seq<SpecSuffix>, i: int)
    requires
        0 <= i <= ss.len(),
    ensures
        spec_cv_suffixes(st, ss, i).len() == ss.len() - i,
        forall|j: int|
            0 <= j < ss.len() - i ==> spec_cv_suffixes(st, ss, i)[j] == spec_cv_suffix(
                st,
                ss[i + j],
            ),
    decreases ss.len() - i,
{
    if i < ss.len() {
        lemma_cv_suffixes_pointwise(st, ss, i + 1);
    }
}

pub proof fn lemma_cv_fields_pointwise(st: SpecConverter, fs: Seq<SpecField>, i: int)
    requires
        0 <= i <= fs.len(),
    ensures
        spec_cv_fields(st, fs, i).len() == fs.len() - i,
        forall|j: int|
            0 <= j < fs.len() - i ==> spec_cv_fields(st, fs, i)[j] == spec_cv_field(st, fs[i + j]),
    decreases fs.len() - i,
{
    if i < fs.len() {
        lemma_cv_fields_pointwise(st, fs, i + 1);
    }
}

// ----------------------------------------------------------------------
// The executable converter.
// ----------------------------------------------------------------------
/// One recorded method alias.
pub struct AliasEntry {
    pub name: String,
    pub method: Bit32Method,
}

/// The views of a recorded alias list, elementwise.
pub open spec fn spec_aliases_view(s: Seq<AliasEntry>) -> Seq<(Seq<char>, Bit32Method)> {
    Seq::new(s.len(), |i: int| (s[i].name@, s[i].method))
}

/// The stateful visitor that converts legacy bitwise-library calls.
/// A fresh instance must be used for each file: its alias tracking is
/// scoped to one traversal.
pub struct Bit32Converter {
    pub root: String,
    pub aliases: Vec<AliasEntry>,
}

pub open spec fn view_converter(c: &Bit32Converter) -> SpecConverter {
    SpecConverter { root: c.root@, aliases: spec_aliases_view(c.aliases@) }
}

/// The default name of the legacy library.
pub open spec fn spec_default_root() -> Seq<char> {
    "bit32"@
}

impl Bit32Converter {
    /// A fresh converter: root `bit32`, no aliases recorded.
    pub fn new() -> (r: Self)
        ensures
            view_converter(&r) == (SpecConverter {
                root: spec_default_root(),
                aliases: Seq::<(Seq<char>, Bit32Method)>::empty(),
            }),
    {
        let r = Bit32Converter { root: String::from_str("bit32"), aliases: Vec::new() };
        proof {
            assert(spec_aliases_view(r.aliases@) =~= Seq::<(Seq<char>, Bit32Method)>::empty());
        }
        r
    }

    /// Whether a name is the current library-root identifier.
    pub fn is_bit32_identifier(&self, s: &String) -> (r: bool)
        ensures
            r == (s@ == view_converter(self).root),
    {
        *s == self.root
    }
}

impl Default for Bit32Converter {
    fn default() -> (r: Self)
        ensures
            view_converter(&r) == (SpecConverter {
                root: spec_default_root(),
                aliases: Seq::<(Seq<char>, Bit32Method)>::empty(),
            }),
    {
        Bit32Converter::new()
    }
}

/// Recognizes a method name of the legacy library.
pub fn method_of_name(n: &String) -> (r: Option<Bit32Method>)
    ensures
        r == spec_method_of_name(n@),
{
    if *n == String::from_str("rshift") {
        Option::Some(Bit32Method::RightShift)
    } else if *n == String::from_str("lshift") {
        Option::Some(Bit32Method::LeftShift)
    } else if *n == String::from_str("band") {
        Option::Some(Bit32Method::And)
    } else if *n == String::from_str("bor") {
        Option::Some(Bit32Method::Or)
    } else if *n == String::from_str("bxor") {
        Option::Some(Bit32Method::Xor)
    } else if *n == String::from_str("bnot") {
        Option::Some(Bit32Method::Not)
    } else {
        Option::None
    }
}

/// The method name an index suffix denotes, if any.
pub fn index_to_string(ix: &IndexSuffix) -> (r: Option<String>)
    ensures
        match spec_index_name(view_index_suffix(ix)) {
            Option::Some(nm) => r is Some && r->Some_0@ == nm,
            Option::None => r is None,
        },
{
    match ix {
        IndexSuffix::Dot(n) => Option::Some(n.clone()),
        IndexSuffix::Brackets(e) => match &**e {
            Expr::Str(s) => {
                proof {
                    assert(view_index_suffix(ix) == SpecIndexSuffix::Brackets(
                        Box::new(SpecExpr::Str(s@)),
                    ));
                }
                let n = s.as_str().unicode_len();
                if n >= 2 {
                    let inner = s.as_str().substring_char(1, n - 1);
                    Option::Some(inner.to_owned())
                } else {
                    Option::None
                }
            },
            _ => {
                proof {
                    assert(view_index_suffix(ix) == SpecIndexSuffix::Brackets(
                        Box::new(view_expr(&**e)),
                    ));
                }
                Option::None
            },
        },
    }
}

/// Scans the recorded aliases, the most recent recording first.
pub fn lookup_alias(aliases: &Vec<AliasEntry>, n: &String) -> (r: Option<Bit32Method>)
    ensures
        r == spec_lookup_alias(spec_aliases_view(aliases@), n@),
{
    let ghost full = spec_aliases_view(aliases@);
    let mut i: usize = aliases.len();
    proof {
        assert(full.take(aliases.len() as int) =~= full);
    }
    while i > 0
        invariant
            i <= aliases.len(),
            full == spec_aliases_view(aliases@),
            spec_lookup_alias(full, n@) == spec_lookup_alias(full.take(i as int), n@),
        decreases i,
    {
        proof {
            assert(full.take(i as int).last() == full[i - 1]);
            assert(full.take(i as int).drop_last() =~= full.take(i - 1));
        }
        if aliases[i - 1].name == *n {
            return Option::Some(aliases[i - 1].method);
        }
        i = i - 1;
    }
    proof {
        assert(full.take(0) =~= Seq::<(Seq<char>, Bit32Method)>::empty());
    }
    Option::None
}

/// `e & 0xFFFFFFFF`
pub fn mask_32bit(e: Expr) -> (r: Expr)
    ensures
        view_expr(&r) == spec_mask32(view_expr(&e)),
{
    let num = Expr::Number(String::from_str("0xFFFFFFFF"));
    proof {
        assert(view_expr(&num) == SpecExpr::Number(spec_mask_text()));
    }
    let r = Expr::BinaryOperator(Box::new(e), BinOp::Ampersand, Box::new(num));
    proof {
        assert(r matches Expr::BinaryOperator(l, op, rhs) ==> view_expr(&r)
            == SpecExpr::BinaryOperator(
            Box::new(view_expr(&*l)),
            op,
            Box::new(view_expr(&*rhs)),
        ));
    }
    r
}

/// The native operator of an arity-two operation.
pub fn binop_of(m: Bit32Method) -> (r: BinOp)
    ensures
        r == spec_binop_of(m),
{
    match m {
        Bit32Method::RightShift => BinOp::DoubleGreaterThan,
        Bit32Method::LeftShift => BinOp::DoubleLessThan,
        Bit32Method::And => BinOp::Ampersand,
        Bit32Method::Or => BinOp::Pipe,
        Bit32Method::Xor => BinOp::Tilde,
        Bit32Method::Not => BinOp::Ampersand,
    }
}

/// Builds `((a <op> b) & 0xFFFFFFFF)`.
pub fn rewrite_binary(m: Bit32Method, a: Expr, b: Expr) -> (r: Expr)
    ensures
        view_expr(&r) == spec_rewrite_binary(m, view_expr(&a), view_expr(&b)),
{
    let bin = Expr::BinaryOperator(Box::new(a), binop_of(m), Box::new(b));
    proof {
        assert(bin matches Expr::BinaryOperator(l, op, rhs) ==> view_expr(&bin)
            == SpecExpr::BinaryOperator(
            Box::new(view_expr(&*l)),
            op,
            Box::new(view_expr(&*rhs)),
        ));
    }
    let paren = Expr::Parentheses(Box::new(bin));
    proof {
        assert(paren matches Expr::Parentheses(inner) ==> view_expr(&paren)
            == SpecExpr::Parentheses(Box::new(view_expr(&*inner))));
    }
    let masked = mask_32bit(paren);
    let r = Expr::Parentheses(Box::new(masked));
    proof {
        assert(r matches Expr::Parentheses(inner) ==> view_expr(&r) == SpecExpr::Parentheses(
            Box::new(view_expr(&*inner)),
        ));
    }
    r
}

/// Builds `((~(a & 0xFFFFFFFF)) & 0xFFFFFFFF)`, every grouping an explicit
/// parenthesis node.
pub fn rewrite_not(a: Expr) -> (r: Expr)
    ensures
        view_expr(&r) == spec_rewrite_not(view_expr(&a)),
{
    let masked_arg = mask_32bit(a);
    let paren = Expr::Parentheses(Box::new(masked_arg));
    proof {
        assert(paren matches Expr::Parentheses(inner) ==> view_expr(&paren)
            == SpecExpr::Parentheses(Box::new(view_expr(&*inner))));
    }
    let bnot = Expr::UnaryOperator(UnOp::Tilde, Box::new(paren));
    proof {
        assert(bnot matches Expr::UnaryOperator(op, inner) ==> view_expr(&bnot)
            == SpecExpr::UnaryOperator(op, Box::new(view_expr(&*inner))));
    }
    let bnot_paren = Expr::Parentheses(Box::new(bnot));
    proof {
        assert(bnot_paren matches Expr::Parentheses(inner) ==> view_expr(&bnot_paren)
            == SpecExpr::Parentheses(Box::new(view_expr(&*inner))));
    }
    let masked = mask_32bit(bnot_paren);
    let r = Expr::Parentheses(Box::new(masked));
    proof {
        assert(r matches Expr::Parentheses(inner) ==> view_expr(&r) == SpecExpr::Parentheses(
            Box::new(view_expr(&*inner)),
        ));
    }
    r
}

/// Builds the variables of a local assignment's name list.
pub fn build_name_vars(names: &Vec<String>) -> (r: Vec<Var>)
    ensures
        view_vars(r@) =~= spec_vars_of_names(view_strings(names@)),
{
    let mut out: Vec<Var> = Vec::new();
    let mut i: usize = 0;
    while i < names.len()
        invariant
            i <= names.len(),
            out@.len() == i as int,
            forall|j: int| 0 <= j < i as int ==> view_var(&out@[j]) == SpecVar::Name(names@[j]@),
        decreases names.len() - i,
    {
        out.push(Var::Name(names[i].clone()));
        i += 1;
    }
    proof {
        lemma_view_vars(out@);
    }
    out
}

/// The argument list of a call shape: the payload of its final suffix.
pub open spec fn spec_call_args(fc: SpecFunctionCall) -> Seq<SpecExpr> {
    if fc.suffixes.len() > 0 {
        match fc.suffixes.last() {
            SpecSuffix::Call(a) => a,
            _ => Seq::empty(),
        }
    } else {
        Seq::empty()
    }
}

impl Bit32Converter {
    /// Decides whether a call matches a known operation of the library,
    /// through the root name or through a recorded alias, with enough
    /// operands present.
    fn match_decision(&self, fc: &FunctionCall) -> (r: Option<Bit32Method>)
        ensures
            match r {
                Option::Some(m) => {
                    &&& spec_match_rewrite(view_converter(self), view_call(fc)) == spec_rewrite(
                        m,
                        spec_call_args(view_call(fc)),
                    )
                    &&& spec_rewrite(m, spec_call_args(view_call(fc))) is Some
                    &&& fc.suffixes@.len() > 0
                    &&& view_call(fc).suffixes.last() matches SpecSuffix::Call(a) && a.len()
                        >= spec_arity(m)
                },
                Option::None => spec_match_rewrite(view_converter(self), view_call(fc)) is None,
            },
    {
        proof {
            lemma_view_suffixes(fc.suffixes@);
        }
        if fc.suffixes.len() == 2 {
            if !self.is_bit32_identifier(&fc.prefix) {
                return Option::None;
            }
            let nm_opt = match &fc.suffixes[0] {
                Suffix::Index(ix) => index_to_string(ix),
                _ => {
                    return Option::None;
                },
            };
            let nm = match nm_opt {
                Option::Some(nm) => nm,
                Option::None => {
                    return Option::None;
                },
            };
            let m = match method_of_name(&nm) {
                Option::Some(m) => m,
                Option::None => {
                    return Option::None;
                },
            };
            let argc: usize = match &fc.suffixes[1] {
                Suffix::Call(args) => {
                    proof {
                        lemma_view_exprs(args@);
                    }
                    args.len()
                },
                _ => {
                    return Option::None;
                },
            };
            let need: usize = if matches!(m, Bit32Method::Not) {
                1
            } else {
                2
            };
            if argc < need {
                return Option::None;
            }
            Option::Some(m)
        } else if fc.suffixes.len() == 1 {
            let argc: usize = match &fc.suffixes[0] {
                Suffix::Call(args) => {
                    proof {
                        lemma_view_exprs(args@);
                    }
                    args.len()
                },
                _ => {
                    return Option::None;
                },
            };
            let m = match lookup_alias(&self.aliases, &fc.prefix) {
                Option::Some(m) => m,
                Option::None => {
                    return Option::None;
                },
            };
            let need: usize = if matches!(m, Bit32Method::Not) {
                1
            } else {
                2
            };
            if argc < need {
                return Option::None;
            }
            Option::Some(m)
        } else {
            Option::None
        }
    }

    /// Rewrites a matching call to the masked native-operator expression;
    /// a call that does not match is handed back unchanged.
    pub fn convert(&self, fc: FunctionCall) -> (r: Result<Expr, FunctionCall>)
        ensures
            match spec_match_rewrite(view_converter(self), view_call(&fc)) {
                Option::Some(e) => r is Ok && view_expr(&r->Ok_0) == e,
                Option::None => r is Err && view_call(&r->Err_0) == view_call(&fc),
            },
    {
        let ghost sfc = view_call(&fc);
        let m = match self.match_decision(&fc) {
            Option::Some(m) => m,
            Option::None => {
                return Result::Err(fc);
            },
        };
        proof {
            lemma_view_suffixes(fc.suffixes@);
        }
        let FunctionCall { prefix: _prefix, suffixes } = fc;
        let mut sfx = suffixes;
        let last = match sfx.pop() {
            Option::Some(x) => x,
            Option::None => {
                // Never reached: the decision guaranteed at least one suffix.
                return Result::Err(FunctionCall { prefix: _prefix, suffixes: sfx });
            },
        };
        proof {
            assert(view_suffix(&last) == sfc.suffixes.last());
        }
        let mut args = match last {
            Suffix::Call(a) => a,
            _ => {
                // Never reached: the decision guaranteed the last suffix is
                // an argument list.
                return Result::Err(FunctionCall { prefix: _prefix, suffixes: sfx });
            },
        };
        proof {
            assert(spec_call_args(sfc) == view_exprs(args@));
            lemma_view_exprs(args@);
        }
        let a0 = args.remove(0);
        let result = if matches!(m, Bit32Method::Not) {
            rewrite_not(a0)
        } else {
            let a1 = args.remove(0);
            rewrite_binary(m, a0, a1)
        };
        Result::Ok(result)
    }
}

impl Bit32Converter {
    /// Converts one expression; state is read but not changed.
    #[verifier::loop_isolation(false)]
    pub fn visit_expression(&self, e: &Expr) -> (r: Expr)
        ensures
            view_expr(&r) == spec_cv_expr(view_converter(self), view_expr(e)),
        decreases e,
    {
        match e {
            Expr::Number(t) => Expr::Number(t.clone()),
            Expr::Str(t) => Expr::Str(t.clone()),
            Expr::Var(v) => {
                let r = Expr::Var(self.cv_var(v));
                proof {
                    assert(view_expr(e) == SpecExpr::Var(view_var(v)));
                    assert(r matches Expr::Var(v2) ==> view_expr(&r) == SpecExpr::Var(
                        view_var(&v2),
                    ));
                }
                r
            },
            Expr::Call(c) => {
                let c2 = FunctionCall {
                    prefix: c.prefix.clone(),
                    suffixes: self.cv_suffixes(&c.suffixes),
                };
                proof {
                    assert(view_expr(e) == SpecExpr::Call(view_call(c)));
                    assert(view_call(&c2) =~= (SpecFunctionCall {
                        prefix: c.prefix@,
                        suffixes: spec_cv_suffixes(
                            view_converter(self),
                            view_suffixes(c.suffixes@),
                            0,
                        ),
                    }));
                }
                match self.convert(c2) {
                    Result::Ok(r) => r,
                    Result::Err(c2) => {
                        let r = Expr::Call(c2);
                        proof {
                            assert(r matches Expr::Call(cc) ==> view_expr(&r) == SpecExpr::Call(
                                view_call(&cc),
                            ));
                        }
                        r
                    },
                }
            },
            Expr::Parentheses(inner) => {
                let r = Expr::Parentheses(Box::new(self.visit_expression(&**inner)));
                proof {
                    assert(view_expr(e) == SpecExpr::Parentheses(Box::new(view_expr(&**inner))));
                    assert(r matches Expr::Parentheses(x) ==> view_expr(&r)
                        == SpecExpr::Parentheses(Box::new(view_expr(&*x))));
                }
                r
            },
            Expr::BinaryOperator(l, op, rhs) => {
                let r = Expr::BinaryOperator(
                    Box::new(self.visit_expression(&**l)),
                    *op,
                    Box::new(self.visit_expression(&**rhs)),
                );
                proof {
                    assert(view_expr(e) == SpecExpr::BinaryOperator(
                        Box::new(view_expr(&**l)),
                        *op,
                        Box::new(view_expr(&**rhs)),
                    ));
                    assert(r matches Expr::BinaryOperator(a, o, b) ==> view_expr(&r)
                        == SpecExpr::BinaryOperator(
                        Box::new(view_expr(&*a)),
                        o,
                        Box::new(view_expr(&*b)),
                    ));
                }
                r
            },
            Expr::UnaryOperator(op, inner) => {
                let r = Expr::UnaryOperator(*op, Box::new(self.visit_expression(&**inner)));
                proof {
                    assert(view_expr(e) == SpecExpr::UnaryOperator(
                        *op,
                        Box::new(view_expr(&**inner)),
                    ));
                    assert(r matches Expr::UnaryOperator(o, x) ==> view_expr(&r)
                        == SpecExpr::UnaryOperator(o, Box::new(view_expr(&*x))));
                }
                r
            },
            Expr::TableConstructor(fs) => {
                let r = Expr::TableConstructor(self.cv_fields(fs));
                proof {
                    assert(view_expr(e) == SpecExpr::TableConstructor(view_fields(fs@)));
                    assert(r matches Expr::TableConstructor(fs2) ==> view_expr(&r)
                        == SpecExpr::TableConstructor(view_fields(fs2@)));
                }
                r
            },
            Expr::Raw(t) => Expr::Raw(t.clone()),
        }
    }

    #[verifier::loop_isolation(false)]
    fn cv_exprs(&self, es: &Vec<Expr>) -> (r: Vec<Expr>)
        ensures
            view_exprs(r@) == spec_cv_exprs(view_converter(self), view_exprs(es@), 0),
        decreases es,
    {
        let mut out: Vec<Expr> = Vec::new();
        let mut i: usize = 0;
        while i < es.len()
            invariant
                i <= es.len(),
                out@.len() == i as int,
                forall|j: int|
                    0 <= j < i as int ==> view_expr(&out@[j]) == spec_cv_expr(
                        view_converter(self),
                        view_expr(&es@[j]),
                    ),
            decreases es.len() - i,
        {
            let c = self.visit_expression(&es[i]);
            out.push(c);
            i += 1;
        }
        proof {
            lemma_view_exprs(es@);
            lemma_view_exprs(out@);
            lemma_cv_exprs_pointwise(view_converter(self), view_exprs(es@), 0);
            assert(view_exprs(out@) =~= spec_cv_exprs(view_converter(self), view_exprs(es@), 0));
        }
        out
    }

    #[verifier::loop_isolation(false)]
    fn cv_suffix(&self, x: &Suffix) -> (r: Suffix)
        ensures
            view_suffix(&r) == spec_cv_suffix(view_converter(self), view_suffix(x)),
        decreases x,
    {
        match x {
            Suffix::Index(IndexSuffix::Dot(n)) => Suffix::Index(IndexSuffix::Dot(n.clone())),
            Suffix::Index(IndexSuffix::Brackets(e)) => {
                let r = Suffix::Index(
                    IndexSuffix::Brackets(Box::new(self.visit_expression(&**e))),
                );
                proof {
                    assert(view_suffix(x) == SpecSuffix::Index(
                        SpecIndexSuffix::Brackets(Box::new(view_expr(&**e))),
                    ));
                    assert(r matches Suffix::Index(IndexSuffix::Brackets(y)) ==> view_suffix(&r)
                        == SpecSuffix::Index(SpecIndexSuffix::Brackets(Box::new(view_expr(&*y)))));
                }
                r
            },
            Suffix::Call(args) => {
                let r = Suffix::Call(self.cv_exprs(args));
                proof {
                    assert(view_suffix(x) == SpecSuffix::Call(view_exprs(args@)));
                    assert(r matches Suffix::Call(a2) ==> view_suffix(&r) == SpecSuffix::Call(
                        view_exprs(a2@),
                    ));
                }
                r
            },
        }
    }

    #[verifier::loop_isolation(false)]
    fn cv_suffixes(&self, ss: &Vec<Suffix>) -> (r: Vec<Suffix>)
        ensures
            view_suffixes(r@) == spec_cv_suffixes(view_converter(self), view_suffixes(ss@), 0),
        decreases ss,
    {
        let mut out: Vec<Suffix> = Vec::new();
        let mut i: usize = 0;
        while i < ss.len()
            invariant
                i <= ss.len(),
                out@.len() == i as int,
                forall|j: int|
                    0 <= j < i as int ==> view_suffix(&out@[j]) == spec_cv_suffix(
                        view_converter(self),
                        view_suffix(&ss@[j]),
                    ),
            decreases ss.len() - i,
        {
            let c = self.cv_suffix(&ss[i]);
            out.push(c);
            i += 1;
        }
        proof {
            lemma_view_suffixes(ss@);
            lemma_view_suffixes(out@);
            lemma_cv_suffixes_pointwise(view_converter(self), view_suffixes(ss@), 0);
            assert(view_suffixes(out@) =~= spec_cv_suffixes(
                view_converter(self),
                view_suffixes(ss@),
                0,
            ));
        }
        out
    }

    #[verifier::loop_isolation(false)]
    fn cv_var(&self, v: &Var) -> (r: Var)
        ensures
            view_var(&r) == spec_cv_var(view_converter(self), view_var(v)),
        decreases v,
    {
        match v {
            Var::Name(n) => Var::Name(n.clone()),
            Var::Expr(ve) => {
                let r = Var::Expr(
                    VarExpr { prefix: ve.prefix.clone(), suffixes: self.cv_suffixes(&ve.suffixes) },
                );
                proof {
                    assert(view_var(v) == SpecVar::Expr(view_var_expr(ve)));
                    assert(r matches Var::Expr(ve2) ==> view_var(&r) == SpecVar::Expr(
                        view_var_expr(&ve2),
                    ));
                    assert(r matches Var::Expr(ve2) ==> view_var_expr(&ve2) =~= (SpecVarExpr {
                        prefix: ve.prefix@,
                        suffixes: spec_cv_suffixes(
                            view_converter(self),
                            view_suffixes(ve.suffixes@),
                            0,
                        ),
                    }));
                }
                r
            },
            Var::Raw(t) => Var::Raw(t.clone()),
        }
    }

    #[verifier::loop_isolation(false)]
    fn cv_vars(&self, vs: &Vec<Var>) -> (r: Vec<Var>)
        ensures
            view_vars(r@) == spec_cv_vars(view_converter(self), view_vars(vs@), 0),
        decreases vs,
    {
        let mut out: Vec<Var> = Vec::new();
        let mut i: usize = 0;
        while i < vs.len()
            invariant
                i <= vs.len(),
                out@.len() == i as int,
                forall|j: int|
                    0 <= j < i as int ==> view_var(&out@[j]) == spec_cv_var(
                        view_converter(self),
                        view_var(&vs@[j]),
                    ),
            decreases vs.len() - i,
        {
            let c = self.cv_var(&vs[i]);
            out.push(c);
            i += 1;
        }
        proof {
            lemma_view_vars(vs@);
            lemma_view_vars(out@);
            lemma_cv_vars_pointwise(view_converter(self), view_vars(vs@), 0);
            assert(view_vars(out@) =~= spec_cv_vars(view_converter(self), view_vars(vs@), 0));
        }
        out
    }

    #[verifier::loop_isolation(false)]
    fn cv_field(&self, f: &Field) -> (r: Field)
        ensures
            view_field(&r) == spec_cv_field(view_converter(self), view_field(f)),
        decreases f,
    {
        match f {
            Field::NameKey(n, v) => {
                let r = Field::NameKey(n.clone(), self.visit_expression(v));
                proof {
                    assert(view_field(f) == SpecField::NameKey(n@, Box::new(view_expr(v))));
                    assert(r matches Field::NameKey(n2, v2) ==> view_field(&r)
                        == SpecField::NameKey(n2@, Box::new(view_expr(&v2))));
                }
                r
            },
            Field::ExpressionKey(k, v) => {
                let r = Field::ExpressionKey(
                    Box::new(self.visit_expression(&**k)),
                    Box::new(self.visit_expression(&**v)),
                );
                proof {
                    assert(view_field(f) == SpecField::ExpressionKey(
                        Box::new(view_expr(&**k)),
                        Box::new(view_expr(&**v)),
                    ));
                    assert(r matches Field::ExpressionKey(k2, v2) ==> view_field(&r)
                        == SpecField::ExpressionKey(
                        Box::new(view_expr(&*k2)),
                        Box::new(view_expr(&*v2)),
                    ));
                }
                r
            },
            Field::Positional(v) => {
                let r = Field::Positional(self.visit_expression(v));
                proof {
                    assert(view_field(f) == SpecField::Positional(Box::new(view_expr(v))));
                    assert(r matches Field::Positional(v2) ==> view_field(&r)
                        == SpecField::Positional(Box::new(view_expr(&v2))));
                }
                r
            },
        }
    }

    #[verifier::loop_isolation(false)]
    fn cv_fields(&self, fs: &Vec<Field>) -> (r: Vec<Field>)
        ensures
            view_fields(r@) == spec_cv_fields(view_converter(self), view_fields(fs@), 0),
        decreases fs,
    {
        let mut out: Vec<Field> = Vec::new();
        let mut i: usize = 0;
        while i < fs.len()
            invariant
                i <= fs.len(),
                out@.len() == i as int,
                forall|j: int|
                    0 <= j < i as int ==> view_field(&out@[j]) == spec_cv_field(
                        view_converter(self),
                        view_field(&fs@[j]),
                    ),
            decreases fs.len() - i,
        {
            let c = self.cv_field(&fs[i]);
            out.push(c);
            i += 1;
        }
        proof {
            lemma_view_fields(fs@);
            lemma_view_fields(out@);
            lemma_cv_fields_pointwise(view_converter(self), view_fields(fs@), 0);
            assert(view_fields(out@) =~= spec_cv_fields(view_converter(self), view_fields(fs@), 0));
        }
        out
    }
}

impl Bit32Converter {
    /// Tries one name/expression pair of an assignment; on a match the alias
    /// is recorded and the caller elides the statement.
    fn try_pair(&mut self, v: &Var, e: &Expr) -> (r: bool)
        ensures
            match spec_pair_match(view_converter(old(self)), view_var(v), view_expr(e)) {
                Option::Some(st2) => r && view_converter(final(self)) == st2,
                Option::None => !r && view_converter(final(self)) == view_converter(old(self)),
            },
    {
        match (v, e) {
            (Var::Name(vn), Expr::Var(ev)) => {
                proof {
                    assert(view_expr(e) == SpecExpr::Var(view_var(ev)));
                }
                match ev {
                    Var::Name(en) => {
                        if self.is_bit32_identifier(en) {
                            self.root = vn.clone();
                            proof {
                                assert(view_converter(self) =~= (SpecConverter {
                                    root: vn@,
                                    aliases: view_converter(old(self)).aliases,
                                }));
                            }
                            true
                        } else {
                            false
                        }
                    },
                    Var::Expr(ve) => {
                        proof {
                            lemma_view_suffixes(ve.suffixes@);
                        }
                        if ve.suffixes.len() == 1 && self.is_bit32_identifier(&ve.prefix) {
                            match &ve.suffixes[0] {
                                Suffix::Index(ix) => {
                                    match index_to_string(ix) {
                                        Option::Some(nm) => match method_of_name(&nm) {
                                            Option::Some(m) => {
                                                self.aliases.push(
                                                    AliasEntry { name: vn.clone(), method: m },
                                                );
                                                proof {
                                                    assert(spec_aliases_view(self.aliases@)
                                                        =~= spec_aliases_view(
                                                        old(self).aliases@,
                                                    ).push((vn@, m)));
                                                    assert(view_converter(self)
                                                        =~= (SpecConverter {
                                                        root: view_converter(old(self)).root,
                                                        aliases: view_converter(
                                                            old(self),
                                                        ).aliases.push((vn@, m)),
                                                    }));
                                                }
                                                true
                                            },
                                            Option::None => false,
                                        },
                                        Option::None => false,
                                    }
                                },
                                _ => false,
                            }
                        } else {
                            false
                        }
                    },
                    Var::Raw(_) => false,
                }
            },
            _ => false,
        }
    }

    fn check_pairs_from(&mut self, vars: &Vec<Var>, exprs: &Vec<Expr>, i: usize) -> (r: bool)
        requires
            i <= vars@.len(),
        ensures
            match spec_check_pairs(
                view_converter(old(self)),
                view_vars(vars@),
                view_exprs(exprs@),
                i as int,
            ) {
                Option::Some(st2) => r && view_converter(final(self)) == st2,
                Option::None => !r && view_converter(final(self)) == view_converter(old(self)),
            },
        decreases vars@.len() - i,
    {
        proof {
            lemma_view_vars(vars@);
            lemma_view_exprs(exprs@);
        }
        if i < vars.len() && i < exprs.len() {
            if self.try_pair(&vars[i], &exprs[i]) {
                true
            } else {
                self.check_pairs_from(vars, exprs, i + 1)
            }
        } else {
            false
        }
    }

    /// Scans an assignment's name/expression pairs in order.  `true` means a
    /// pair matched: the alias is now recorded and the whole statement must
    /// be elided from the output.
    pub fn check_replaced(&mut self, variables: &Vec<Var>, expressions: &Vec<Expr>) -> (r: bool)
        ensures
            match spec_check_pairs(
                view_converter(old(self)),
                view_vars(variables@),
                view_exprs(expressions@),
                0,
            ) {
                Option::Some(st2) => r && view_converter(final(self)) == st2,
                Option::None => !r && view_converter(final(self)) == view_converter(old(self)),
            },
    {
        self.check_pairs_from(variables, expressions, 0)
    }

    /// Whether a statement is an alias assignment to elide, recording it.
    fn try_elide(&mut self, s: &Stmt) -> (r: bool)
        ensures
            match spec_stmt_elides(view_converter(old(self)), view_stmt(s)) {
                Option::Some(st2) => r && view_converter(final(self)) == st2,
                Option::None => !r && view_converter(final(self)) == view_converter(old(self)),
            },
    {
        match s {
            Stmt::LocalAssignment(names, exprs) => {
                proof {
                    assert(view_stmt(s) == SpecStmt::LocalAssignment(
                        view_strings(names@),
                        view_exprs(exprs@),
                    ));
                }
                let vars = build_name_vars(names);
                self.check_replaced(&vars, exprs)
            },
            Stmt::Assignment(vars, exprs) => {
                proof {
                    assert(view_stmt(s) == SpecStmt::Assignment(
                        view_vars(vars@),
                        view_exprs(exprs@),
                    ));
                }
                self.check_replaced(vars, exprs)
            },
            _ => false,
        }
    }

    /// Converts one statement that is not an elided alias assignment.
    #[verifier::loop_isolation(false)]
    pub fn visit_stmt(&mut self, s: &Stmt) -> (r: Stmt)
        ensures
            ({
                let (st2, s2) = spec_cv_stmt(view_converter(old(self)), view_stmt(s));
                view_converter(final(self)) == st2 && view_stmt(&r) == s2
            }),
        decreases s,
    {
        match s {
            Stmt::LocalAssignment(names, exprs) => {
                let r = Stmt::LocalAssignment(clone_strings(names), self.cv_exprs(exprs));
                proof {
                    assert(view_stmt(s) == SpecStmt::LocalAssignment(
                        view_strings(names@),
                        view_exprs(exprs@),
                    ));
                    assert(r matches Stmt::LocalAssignment(n2, e2) ==> view_stmt(&r)
                        == SpecStmt::LocalAssignment(view_strings(n2@), view_exprs(e2@)));
                }
                r
            },
            Stmt::Assignment(vars, exprs) => {
                let r = Stmt::Assignment(self.cv_vars(vars), self.cv_exprs(exprs));
                proof {
                    assert(view_stmt(s) == SpecStmt::Assignment(
                        view_vars(vars@),
                        view_exprs(exprs@),
                    ));
                    assert(r matches Stmt::Assignment(v2, e2) ==> view_stmt(&r)
                        == SpecStmt::Assignment(view_vars(v2@), view_exprs(e2@)));
                }
                r
            },
            Stmt::FunctionCall(c) => {
                proof {
                    assert(view_stmt(s) == SpecStmt::FunctionCall(view_call(c)));
                }
                let c2 = FunctionCall {
                    prefix: c.prefix.clone(),
                    suffixes: self.cv_suffixes(&c.suffixes),
                };
                proof {
                    assert(view_call(&c2) =~= (SpecFunctionCall {
                        prefix: c.prefix@,
                        suffixes: spec_cv_suffixes(
                            view_converter(self),
                            view_suffixes(c.suffixes@),
                            0,
                        ),
                    }));
                }
                match self.convert(c2) {
                    Result::Ok(_discarded) => {
                        let r = Stmt::Do(
                            Block {
                                stmts: Vec::new(),
                                last_stmt: Option::None,
                                trailing: Vec::new(),
                            },
                        );
                        proof {
                            assert(r matches Stmt::Do(b) ==> view_stmt(&r) == SpecStmt::Do(
                                view_block(&b),
                            ));
                            assert(r matches Stmt::Do(b) ==> view_block(&b) =~= (SpecBlock {
                                stmts: Seq::empty(),
                                last_stmt: Option::None,
                                trailing: Seq::empty(),
                            }));
                        }
                        r
                    },
                    Result::Err(c2) => {
                        let r = Stmt::FunctionCall(c2);
                        proof {
                            assert(r matches Stmt::FunctionCall(cc) ==> view_stmt(&r)
                                == SpecStmt::FunctionCall(view_call(&cc)));
                        }
                        r
                    },
                }
            },
            Stmt::Do(b) => {
                let b2 = self.visit_block(b);
                let r = Stmt::Do(b2);
                proof {
                    assert(view_stmt(s) == SpecStmt::Do(view_block(b)));
                    assert(r matches Stmt::Do(bb) ==> view_stmt(&r) == SpecStmt::Do(
                        view_block(&bb),
                    ));
                }
                r
            },
            Stmt::Compound(parts) => {
                let parts2 = self.cv_parts(parts, 0);
                let r = Stmt::Compound(parts2);
                proof {
                    assert(view_stmt(s) == SpecStmt::Compound(view_stmt_parts(parts@)));
                    assert(r matches Stmt::Compound(p2) ==> view_stmt(&r) == SpecStmt::Compound(
                        view_stmt_parts(p2@),
                    ));
                }
                r
            },
            Stmt::Raw(t) => Stmt::Raw(t.clone()),
        }
    }

    /// Converts the pieces of a compound statement from position `i` on.
    #[verifier::loop_isolation(false)]
    fn cv_parts(&mut self, parts: &Vec<StmtPart>, i: usize) -> (r: Vec<StmtPart>)
        requires
            i <= parts@.len(),
        ensures
            ({
                let (st2, out) = spec_cv_parts(
                    view_converter(old(self)),
                    view_stmt_parts(parts@),
                    i as int,
                );
                view_converter(final(self)) == st2 && view_stmt_parts(r@) == out
            }),
        decreases parts, parts@.len() - i,
    {
        proof {
            lemma_view_stmt_parts(parts@);
        }
        if i >= parts.len() {
            let r: Vec<StmtPart> = Vec::new();
            proof {
                assert(view_stmt_parts(r@) =~= Seq::<SpecStmtPart>::empty());
            }
            r
        } else {
            proof {
                assert(view_stmt_parts(parts@)[i as int] == view_stmt_part(&parts@[i as int]));
            }
            let part2 = match &parts[i] {
                StmtPart::Text(t) => StmtPart::Text(t.clone()),
                StmtPart::Expr(e) => {
                    let c = StmtPart::Expr(self.visit_expression(e));
                    proof {
                        assert(view_stmt_part(&parts@[i as int]) == SpecStmtPart::Expr(
                            Box::new(view_expr(e)),
                        ));
                        assert(c matches StmtPart::Expr(e2) ==> view_stmt_part(&c)
                            == SpecStmtPart::Expr(Box::new(view_expr(&e2))));
                    }
                    c
                },
                StmtPart::Body(b) => {
                    let c = StmtPart::Body(self.visit_block(b));
                    proof {
                        assert(view_stmt_part(&parts@[i as int]) == SpecStmtPart::Body(
                            view_block(b),
                        ));
                        assert(c matches StmtPart::Body(b2) ==> view_stmt_part(&c)
                            == SpecStmtPart::Body(view_block(&b2)));
                    }
                    c
                },
            };
            let mut rest = self.cv_parts(parts, i + 1);
            let ghost rest0 = rest@;
            rest.insert(0, part2);
            proof {
                lemma_view_stmt_parts(rest@);
                lemma_view_stmt_parts(rest0);
                assert(view_stmt_parts(rest@) =~= seq![view_stmt_part(&rest@[0])]
                    + view_stmt_parts(rest0));
            }
            rest
        }
    }

    /// Converts the statements of a block from position `i` on; `pending` is
    /// trivia carried from elided statements.
    #[verifier::loop_isolation(false)]
    fn cv_items(&mut self, items: &Vec<StmtItem>, i: usize, pending: Vec<String>) -> (r: Vec<
        StmtItem,
    >)
        requires
            i <= items@.len(),
        ensures
            ({
                let (st2, out) = spec_cv_items(
                    view_converter(old(self)),
                    view_stmt_items(items@),
                    i as int,
                    view_strings(pending@),
                );
                view_converter(final(self)) == st2 && view_stmt_items(r@) == out
            }),
        decreases items, items@.len() - i,
    {
        proof {
            lemma_view_stmt_items(items@);
        }
        if i >= items.len() {
            let r: Vec<StmtItem> = Vec::new();
            proof {
                assert(view_stmt_items(r@) =~= Seq::<SpecStmtItem>::empty());
                let ghost tmp = spec_cv_items(
                    view_converter(old(self)),
                    view_stmt_items(items@),
                    i as int,
                    view_strings(pending@),
                );
                assert(view_converter(self) == tmp.0);
                assert(view_stmt_items(r@) == tmp.1);
            }
            r
        } else {
            let it = &items[i];
            proof {
                assert(view_stmt_items(items@)[i as int] == view_stmt_item(&items@[i as int]));
            }
            if self.try_elide(&it.stmt) {
                let mut p2 = pending;
                extend_strings(&mut p2, &it.leading);
                extend_strings(&mut p2, &it.trailing);
                proof {
                    assert(view_stmt_item(&items@[i as int]).stmt == view_stmt(
                        &items@[i as int].stmt,
                    ));
                    assert(view_strings(p2@) == view_strings(pending@) + view_stmt_item(
                        &items@[i as int],
                    ).leading + view_stmt_item(&items@[i as int]).trailing);
                }
                let out = self.cv_items(items, i + 1, p2);
                proof {
                    let ghost tmp = spec_cv_items(
                        view_converter(old(self)),
                        view_stmt_items(items@),
                        i as int,
                        view_strings(pending@),
                    );
                    assert(view_converter(self) == tmp.0);
                    assert(view_stmt_items(out@) == tmp.1);
                }
                out
            } else {
                let s2 = self.visit_stmt(&it.stmt);
                let mut lead = pending;
                extend_strings(&mut lead, &it.leading);
                let item2 = StmtItem {
                    leading: lead,
                    stmt: s2,
                    semicolon: clone_semicolon(&it.semicolon),
                    trailing: clone_strings(&it.trailing),
                };
                let empty_pending: Vec<String> = Vec::new();
                proof {
                    assert(view_strings(empty_pending@) =~= Seq::<Seq<char>>::empty());
                }
                let mut rest = self.cv_items(items, i + 1, empty_pending);
                let ghost rest0 = rest@;
                rest.insert(0, item2);
                proof {
                    lemma_view_stmt_items(rest@);
                    lemma_view_stmt_items(rest0);
                    assert(view_stmt_items(rest@) =~= seq![view_stmt_item(&rest@[0])]
                        + view_stmt_items(rest0));
                    assert(view_stmt_item(&rest@[0]) =~= (SpecStmtItem {
                        leading: view_strings(pending@) + view_stmt_item(
                            &items@[i as int],
                        ).leading,
                        stmt: spec_cv_stmt(
                            view_converter(old(self)),
                            view_stmt_item(&items@[i as int]).stmt,
                        ).1,
                        semicolon: view_stmt_item(&items@[i as int]).semicolon,
                        trailing: view_stmt_item(&items@[i as int]).trailing,
                    }));
                    let ghost tmp = spec_cv_items(
                        view_converter(old(self)),
                        view_stmt_items(items@),
                        i as int,
                        view_strings(pending@),
                    );
                    assert(view_converter(self) == tmp.0);
                    assert(view_stmt_items(rest@) == tmp.1);
                }
                rest
            }
        }
    }

    /// Converts a whole block, eliding matching alias assignments and
    /// carrying their trivia to the next surviving statement.
    #[verifier::loop_isolation(false)]
    pub fn visit_block(&mut self, b: &Block) -> (r: Block)
        ensures
            ({
                let (st2, b2) = spec_cv_block(view_converter(old(self)), view_block(b));
                view_converter(final(self)) == st2 && view_block(&r) == b2
            }),
        decreases b,
    {
        let items2 = self.cv_items(&b.stmts, 0, Vec::new());
        let last2: Option<LastItem> = match &b.last_stmt {
            Option::Some(l) => {
                let stmt2 = match &l.stmt {
                    LastStmt::Return(es) => LastStmt::Return(self.cv_exprs(es)),
                    LastStmt::Break => LastStmt::Break,
                    LastStmt::Raw(t) => LastStmt::Raw(t.clone()),
                };
                let li = LastItem {
                    leading: clone_strings(&l.leading),
                    stmt: stmt2,
                    semicolon: clone_semicolon(&l.semicolon),
                    trailing: clone_strings(&l.trailing),
                };
                proof {
                    assert(view_last_item(&li) =~= (SpecLastItem {
                        leading: view_last_item(l).leading,
                        stmt: match view_last_item(l).stmt {
                            SpecLastStmt::Return(es) => SpecLastStmt::Return(
                                spec_cv_exprs(view_converter(self), es, 0),
                            ),
                            SpecLastStmt::Break => SpecLastStmt::Break,
                            SpecLastStmt::Raw(t) => SpecLastStmt::Raw(t),
                        },
                        semicolon: view_last_item(l).semicolon,
                        trailing: view_last_item(l).trailing,
                    }));
                }
                Option::Some(li)
            },
            Option::None => Option::None,
        };
        let r = Block { stmts: items2, last_stmt: last2, trailing: clone_strings(&b.trailing) };
        proof {
            assert(view_strings(Seq::<String>::empty()) =~= Seq::<Seq<char>>::empty());
        }
        r
    }
}

} // verus!
