//! Removal of empty `do ... end` blocks, migrating their trivia.
//!
//! Each block's statement sequence is scanned as it stands: a `do ... end`
//! statement whose body holds no statements and no terminal statement is
//! deleted, and every trivia item attached to the deleted statement's
//! tokens — its leading trivia, the trivia inside the empty body, and its
//! trailing trivia — is collected, in order, and prepended to the leading
//! trivia of the next surviving statement of the same block.  When no
//! statement follows, the collected trivia is dropped: an accepted,
//! documented edge case, not silent corruption of surviving text.  A
//! statement's separate semicolon token goes with the deleted statement.
//!
//! The bodies of surviving statements are then processed the same way.  A
//! `do` whose body is emptied only by those inner deletions is itself kept,
//! as the scan had already decided: one application of the pass removes the
//! blocks that were empty when it began.
use vstd::prelude::*;

use crate::ast::{
    Block, LastItem, SpecBlock, SpecStmt, SpecStmtItem, SpecStmtPart, Stmt, StmtItem, StmtPart,
    clone_last_item, clone_semicolon, clone_strings, extend_strings, group_view_lemmas,
    lemma_view_stmt_items, lemma_view_stmt_parts, view_block, view_stmt, view_stmt_item,
    view_stmt_items, view_stmt_part, view_stmt_parts, view_strings,
};

verus! {

broadcast use
    vstd::std_specs::vec::group_vec_axioms,
    vstd::seq::group_seq_axioms,
    group_view_lemmas;

/// Whether a statement is a `do ... end` with an empty body.
pub open spec fn spec_is_empty_do(s: SpecStmt) -> bool {
    match s {
        SpecStmt::Do(b) => b.stmts.len() == 0 && b.last_stmt is None,
        _ => false,
    }
}

/// A surviving statement with its nested bodies processed.
pub open spec fn spec_rm_stmt(s: SpecStmt) -> SpecStmt
    decreases s,
{
    match s {
        SpecStmt::Do(b) => SpecStmt::Do(spec_rm_block(b)),
        SpecStmt::Compound(parts) => SpecStmt::Compound(spec_rm_parts(parts, 0)),
        _ => s,
    }
}

/// The pieces of a surviving compound statement, their bodies processed.
pub open spec fn spec_rm_parts(ps: Seq<SpecStmtPart>, i: int) -> Seq<SpecStmtPart>
    decreases ps, ps.len() - i,
{
    if i < 0 || i >= ps.len() {
        Seq::empty()
    } else {
        let p2 = match ps[i] {
            SpecStmtPart::Body(b) => SpecStmtPart::Body(spec_rm_block(b)),
            p => p,
        };
        seq![p2] + spec_rm_parts(ps, i + 1)
    }
}

/// The statements of a block from position `i` on; `pending` is trivia
/// collected from deleted statements, waiting for the next survivor.  A
/// statement is deleted exactly when it is an empty `do` in the input the
/// scan sees; survivors then have their own bodies processed.
pub open spec fn spec_rm_items(
    items: Seq<SpecStmtItem>,
    i: int,
    pending: Seq<Seq<char>>,
) -> Seq<SpecStmtItem>
    decreases items, items.len() - i,
{
    if i < 0 || i >= items.len() {
        Seq::empty()
    } else {
        let it = items[i];
        if spec_is_empty_do(it.stmt) {
            spec_rm_items(items, i + 1, pending + it.leading + it.stmt->Do_0.trailing + it.trailing)
        } else {
            seq![
                SpecStmtItem {
                    leading: pending + it.leading,
                    stmt: spec_rm_stmt(it.stmt),
                    semicolon: it.semicolon,
                    trailing: it.trailing,
                },
            ] + spec_rm_items(items, i + 1, Seq::empty())
        }
    }
}

pub open spec fn spec_rm_block(b: SpecBlock) -> SpecBlock
    decreases b,
{
    SpecBlock {
        stmts: spec_rm_items(b.stmts, 0, Seq::empty()),
        last_stmt: b.last_stmt,
        trailing: b.trailing,
    }
}

/// How many statements the pass deletes from position `i` on: the input's
/// empty `do` statements.
pub open spec fn spec_removed_count(items: Seq<SpecStmtItem>, i: int) -> int
    decreases items.len() - i,
{
    if i < 0 || i >= items.len() {
        0
    } else {
        (if spec_is_empty_do(items[i].stmt) {
            1int
        } else {
            0int
        }) + spec_removed_count(items, i + 1)
    }
}

/// The statement count of the output block is the input count minus the
/// number of empty `do` statements the input held; no other statement is
/// deleted.
pub proof fn lemma_rm_count(items: Seq<SpecStmtItem>, i: int, pending: Seq<Seq<char>>)
    requires
        0 <= i <= items.len(),
    ensures
        spec_rm_items(items, i, pending).len() == items.len() - i - spec_removed_count(items, i),
        spec_removed_count(items, i) >= 0,
        spec_removed_count(items, i) <= items.len() - i,
    decreases items.len() - i,
{
    if i < items.len() {
        let it = items[i];
        if spec_is_empty_do(it.stmt) {
            lemma_rm_count(
                items,
                i + 1,
                pending + it.leading + it.stmt->Do_0.trailing + it.trailing,
            );
        } else {
            lemma_rm_count(items, i + 1, Seq::empty());
        }
    }
}

/// The stateless pass that removes empty `do ... end` statements.
pub struct RemoveEmptyDo {}

impl RemoveEmptyDo {
    pub fn new() -> (r: Self) {
        RemoveEmptyDo {  }
    }

    /// One surviving statement: processes its nested bodies.
    #[verifier::loop_isolation(false)]
    pub fn visit_stmt(&self, s: &Stmt) -> (r: Stmt)
        ensures
            view_stmt(&r) == spec_rm_stmt(view_stmt(s)),
        decreases s,
    {
        match s {
            Stmt::Do(b) => {
                let r = Stmt::Do(self.visit_block(b));
                proof {
                    assert(view_stmt(s) == SpecStmt::Do(view_block(b)));
                    assert(r matches Stmt::Do(bb) ==> view_stmt(&r) == SpecStmt::Do(
                        view_block(&bb),
                    ));
                }
                r
            },
            Stmt::Compound(parts) => {
                let r = Stmt::Compound(self.rm_parts(parts, 0));
                proof {
                    assert(view_stmt(s) == SpecStmt::Compound(view_stmt_parts(parts@)));
                    assert(r matches Stmt::Compound(p2) ==> view_stmt(&r) == SpecStmt::Compound(
                        view_stmt_parts(p2@),
                    ));
                }
                r
            },
            Stmt::LocalAssignment(names, exprs) => {
                let r = Stmt::LocalAssignment(clone_strings(names), crate::ast::clone_exprs(exprs));
                proof {
                    assert(view_stmt(s) == SpecStmt::LocalAssignment(
                        view_strings(names@),
                        crate::ast::view_exprs(exprs@),
                    ));
                    assert(r matches Stmt::LocalAssignment(n2, e2) ==> view_stmt(&r)
                        == SpecStmt::LocalAssignment(
                        view_strings(n2@),
                        crate::ast::view_exprs(e2@),
                    ));
                }
                r
            },
            Stmt::Assignment(vars, exprs) => {
                let r = Stmt::Assignment(
                    crate::ast::clone_vars(vars),
                    crate::ast::clone_exprs(exprs),
                );
                proof {
                    assert(view_stmt(s) == SpecStmt::Assignment(
                        crate::ast::view_vars(vars@),
                        crate::ast::view_exprs(exprs@),
                    ));
                    assert(r matches Stmt::Assignment(v2, e2) ==> view_stmt(&r)
                        == SpecStmt::Assignment(
                        crate::ast::view_vars(v2@),
                        crate::ast::view_exprs(e2@),
                    ));
                }
                r
            },
            Stmt::FunctionCall(c) => {
                let r = Stmt::FunctionCall(crate::ast::clone_call(c));
                proof {
                    assert(view_stmt(s) == SpecStmt::FunctionCall(crate::ast::view_call(c)));
                    assert(r matches Stmt::FunctionCall(c2) ==> view_stmt(&r)
                        == SpecStmt::FunctionCall(crate::ast::view_call(&c2)));
                }
                r
            },
            Stmt::Raw(t) => Stmt::Raw(t.clone()),
        }
    }

    /// The pieces of a surviving compound statement from position `i` on.
    #[verifier::loop_isolation(false)]
    fn rm_parts(&self, parts: &Vec<StmtPart>, i: usize) -> (r: Vec<StmtPart>)
        requires
            i <= parts@.len(),
        ensures
            view_stmt_parts(r@) == spec_rm_parts(view_stmt_parts(parts@), i as int),
        decreases parts, parts@.len() - i,
    {
        proof {
            lemma_view_stmt_parts(parts@);
        }
        if i >= parts.len() {
            let r: Vec<StmtPart> = Vec::new();
            proof {
                assert(view_stmt_parts(r@) =~= Seq::<SpecStmtPart>::empty());
            }
            r
        } else {
            proof {
                assert(view_stmt_parts(parts@)[i as int] == view_stmt_part(&parts@[i as int]));
            }
            let part2 = match &parts[i] {
                StmtPart::Body(b) => {
                    let c = StmtPart::Body(self.visit_block(b));
                    proof {
                        assert(view_stmt_part(&parts@[i as int]) == SpecStmtPart::Body(
                            view_block(b),
                        ));
                        assert(c matches StmtPart::Body(b2) ==> view_stmt_part(&c)
                            == SpecStmtPart::Body(view_block(&b2)));
                    }
                    c
                },
                StmtPart::Text(t) => StmtPart::Text(t.clone()),
                StmtPart::Expr(e) => {
                    let c = StmtPart::Expr(crate::ast::clone_expr(e));
                    proof {
                        assert(view_stmt_part(&parts@[i as int]) == SpecStmtPart::Expr(
                            Box::new(crate::ast::view_expr(e)),
                        ));
                        assert(c matches StmtPart::Expr(e2) ==> view_stmt_part(&c)
                            == SpecStmtPart::Expr(Box::new(crate::ast::view_expr(&e2))));
                    }
                    c
                },
            };
            let mut rest = self.rm_parts(parts, i + 1);
            let ghost rest0 = rest@;
            rest.insert(0, part2);
            proof {
                lemma_view_stmt_parts(rest@);
                lemma_view_stmt_parts(rest0);
                assert(view_stmt_parts(rest@) =~= seq![view_stmt_part(&rest@[0])]
                    + view_stmt_parts(rest0));
            }
            rest
        }
    }

    /// The statements of a block from position `i` on.
    #[verifier::loop_isolation(false)]
    fn rm_items(&self, items: &Vec<StmtItem>, i: usize, pending: Vec<String>) -> (r: Vec<StmtItem>)
        requires
            i <= items@.len(),
        ensures
            view_stmt_items(r@) == spec_rm_items(
                view_stmt_items(items@),
                i as int,
                view_strings(pending@),
            ),
        decreases items, items@.len() - i,
    {
        proof {
            lemma_view_stmt_items(items@);
        }
        if i >= items.len() {
            let r: Vec<StmtItem> = Vec::new();
            proof {
                assert(view_stmt_items(r@) =~= Seq::<SpecStmtItem>::empty());
            }
            r
        } else {
            let it = &items[i];
            proof {
                assert(view_stmt_items(items@)[i as int] == view_stmt_item(&items@[i as int]));
                assert(view_stmt_item(&items@[i as int]).stmt == view_stmt(&items@[i as int].stmt));
            }
            let empty = match &it.stmt {
                Stmt::Do(b) => b.stmts.len() == 0 && b.last_stmt.is_none(),
                _ => false,
            };
            proof {
                assert(it.stmt matches Stmt::Do(b) ==> view_stmt(&it.stmt) == SpecStmt::Do(
                    view_block(&b),
                ));
                assert(empty == spec_is_empty_do(view_stmt(&it.stmt)));
            }
            if empty {
                let mut p2 = pending;
                extend_strings(&mut p2, &it.leading);
                match &it.stmt {
                    Stmt::Do(b) => extend_strings(&mut p2, &b.trailing),
                    _ => {},
                }
                extend_strings(&mut p2, &it.trailing);
                proof {
                    assert(view_strings(p2@) == view_strings(pending@) + view_stmt_item(
                        &items@[i as int],
                    ).leading + view_stmt_item(&items@[i as int]).stmt->Do_0.trailing
                        + view_stmt_item(&items@[i as int]).trailing);
                }
                self.rm_items(items, i + 1, p2)
            } else {
                let s2 = self.visit_stmt(&it.stmt);
                let mut lead = pending;
                extend_strings(&mut lead, &it.leading);
                let item2 = StmtItem {
                    leading: lead,
                    stmt: s2,
                    semicolon: clone_semicolon(&it.semicolon),
                    trailing: clone_strings(&it.trailing),
                };
                let empty_pending: Vec<String> = Vec::new();
                proof {
                    assert(view_strings(empty_pending@) =~= Seq::<Seq<char>>::empty());
                }
                let mut rest = self.rm_items(items, i + 1, empty_pending);
                let ghost rest0 = rest@;
                rest.insert(0, item2);
                proof {
                    lemma_view_stmt_items(rest@);
                    lemma_view_stmt_items(rest0);
                    assert(view_stmt_items(rest@) =~= seq![view_stmt_item(&rest@[0])]
                        + view_stmt_items(rest0));
                    assert(view_stmt_item(&rest@[0]) =~= (SpecStmtItem {
                        leading: view_strings(pending@) + view_stmt_item(
                            &items@[i as int],
                        ).leading,
                        stmt: spec_rm_stmt(view_stmt_item(&items@[i as int]).stmt),
                        semicolon: view_stmt_item(&items@[i as int]).semicolon,
                        trailing: view_stmt_item(&items@[i as int]).trailing,
                    }));
                }
                rest
            }
        }
    }

    /// Removes every empty `do ... end` a block holds when the pass begins,
    /// prepending each deleted statement's trivia to the next survivor, and
    /// processes surviving statements' bodies the same way.
    #[verifier::loop_isolation(false)]
    pub fn visit_block(&self, b: &Block) -> (r: Block)
        ensures
            view_block(&r) == spec_rm_block(view_block(b)),
        decreases b,
    {
        let empty_pending: Vec<String> = Vec::new();
        proof {
            assert(view_strings(empty_pending@) =~= Seq::<Seq<char>>::empty());
        }
        let items2 = self.rm_items(&b.stmts, 0, empty_pending);
        let last2: Option<LastItem> = match &b.last_stmt {
            Option::Some(l) => Option::Some(clone_last_item(l)),
            Option::None => Option::None,
        };
        Block { stmts: items2, last_stmt: last2, trailing: clone_strings(&b.trailing) }
    }
}

// ----------------------------------------------------------------------
// Trivia-migration laws.
// ----------------------------------------------------------------------
/// When a deleted empty `do` is followed by a surviving statement, every
/// piece of the deleted statement's trivia — leading, interior and
/// trailing — stands, verbatim and in order, at the front of that
/// survivor's leading trivia in the output.
pub proof fn lemma_trivia_moves_to_next_survivor(
    items: Seq<SpecStmtItem>,
    i: int,
    pending: Seq<Seq<char>>,
)
    requires
        0 <= i,
        i + 1 < items.len(),
        spec_is_empty_do(items[i].stmt),
        !spec_is_empty_do(items[i + 1].stmt),
    ensures
        spec_rm_items(items, i, pending).len() > 0,
        spec_rm_items(items, i, pending)[0].leading == pending + items[i].leading
            + items[i].stmt->Do_0.trailing + items[i].trailing + items[i + 1].leading,
{
    let carried = pending + items[i].leading + items[i].stmt->Do_0.trailing + items[i].trailing;
    assert(spec_rm_items(items, i, pending) == spec_rm_items(items, i + 1, carried));
}

/// When a deleted empty `do` is the last statement of its block, the
/// removal still happens and the collected trivia is dropped: the output
/// holds no statement and duplicates nothing.
pub proof fn lemma_trailing_trivia_dropped(
    items: Seq<SpecStmtItem>,
    i: int,
    pending: Seq<Seq<char>>,
)
    requires
        0 <= i,
        i + 1 == items.len(),
        spec_is_empty_do(items[i].stmt),
    ensures
        spec_rm_items(items, i, pending) == Seq::<SpecStmtItem>::empty(),
{
    let carried = pending + items[i].leading + items[i].stmt->Do_0.trailing + items[i].trailing;
    assert(spec_rm_items(items, i + 1, carried) == Seq::<SpecStmtItem>::empty());
}

// ----------------------------------------------------------------------
// No residual empty block.
// ----------------------------------------------------------------------
/// A statement that is not an empty `do ... end` and whose nested blocks
/// hold none either.
pub open spec fn spec_stmt_clean(s: SpecStmt) -> bool
    decreases s,
{
    match s {
        SpecStmt::Do(b) => !(b.stmts.len() == 0 && b.last_stmt is None) && spec_block_clean(b),
        SpecStmt::Compound(parts) => forall|j: int|
            0 <= j < parts.len() ==> spec_part_clean(#[trigger] parts[j]),
        _ => true,
    }
}

pub open spec fn spec_part_clean(p: SpecStmtPart) -> bool
    decreases p,
{
    match p {
        SpecStmtPart::Body(b) => spec_block_clean(b),
        _ => true,
    }
}

/// A block free of empty `do ... end` statements, at every depth.
pub open spec fn spec_block_clean(b: SpecBlock) -> bool
    decreases b,
{
    forall|j: int| 0 <= j < b.stmts.len() ==> spec_stmt_clean(#[trigger] b.stmts[j].stmt)
}

/// No `do` statement collapses: each one either has an empty body already
/// (so the pass deletes it) or keeps at least one statement or a terminal
/// statement after its body is processed, recursively.
pub open spec fn spec_stmt_stable(s: SpecStmt) -> bool
    decreases s,
{
    match s {
        SpecStmt::Do(b) => (b.stmts.len() == 0 && b.last_stmt is None) || ((spec_rm_block(
            b,
        ).stmts.len() > 0 || b.last_stmt is Some) && spec_block_stable(b)),
        SpecStmt::Compound(parts) => forall|j: int|
            0 <= j < parts.len() ==> spec_part_stable(#[trigger] parts[j]),
        _ => true,
    }
}

pub open spec fn spec_part_stable(p: SpecStmtPart) -> bool
    decreases p,
{
    match p {
        SpecStmtPart::Body(b) => spec_block_stable(b),
        _ => true,
    }
}

pub open spec fn spec_block_stable(b: SpecBlock) -> bool
    decreases b,
{
    forall|j: int| 0 <= j < b.stmts.len() ==> spec_stmt_stable(#[trigger] b.stmts[j].stmt)
}

proof fn lemma_rm_stmt_clean(s: SpecStmt)
    requires
        spec_stmt_stable(s),
        !spec_is_empty_do(s),
    ensures
        spec_stmt_clean(spec_rm_stmt(s)),
    decreases s,
{
    match s {
        SpecStmt::Do(b) => {
            lemma_rm_block_clean(b);
            assert(spec_rm_stmt(s) == SpecStmt::Do(spec_rm_block(b)));
            assert(spec_rm_block(b).last_stmt == b.last_stmt);
            assert(!(spec_rm_block(b).stmts.len() == 0 && spec_rm_block(b).last_stmt is None));
        },
        SpecStmt::Compound(parts) => {
            lemma_rm_parts_clean(parts, 0);
            assert(spec_rm_stmt(s) == SpecStmt::Compound(spec_rm_parts(parts, 0)));
        },
        _ => {},
    }
}

proof fn lemma_rm_parts_clean(ps: Seq<SpecStmtPart>, i: int)
    requires
        0 <= i <= ps.len(),
        forall|j: int| 0 <= j < ps.len() ==> spec_part_stable(#[trigger] ps[j]),
    ensures
        forall|j: int|
            0 <= j < spec_rm_parts(ps, i).len() ==> spec_part_clean(
                #[trigger] spec_rm_parts(ps, i)[j],
            ),
    decreases ps, ps.len() - i,
{
    if i < ps.len() {
        match ps[i] {
            SpecStmtPart::Body(b) => {
                lemma_rm_block_clean(b);
            },
            _ => {},
        }
        lemma_rm_parts_clean(ps, i + 1);
        let out = spec_rm_parts(ps, i);
        let rest = spec_rm_parts(ps, i + 1);
        assert(forall|j: int| 0 < j < out.len() ==> out[j] == rest[j - 1]);
    }
}

proof fn lemma_rm_items_clean(items: Seq<SpecStmtItem>, i: int, pending: Seq<Seq<char>>)
    requires
        0 <= i <= items.len(),
        forall|j: int| 0 <= j < items.len() ==> spec_stmt_stable(#[trigger] items[j].stmt),
    ensures
        forall|j: int|
            0 <= j < spec_rm_items(items, i, pending).len() ==> spec_stmt_clean(
                #[trigger] spec_rm_items(items, i, pending)[j].stmt,
            ),
    decreases items, items.len() - i,
{
    if i < items.len() {
        let it = items[i];
        if spec_is_empty_do(it.stmt) {
            lemma_rm_items_clean(
                items,
                i + 1,
                pending + it.leading + it.stmt->Do_0.trailing + it.trailing,
            );
        } else {
            lemma_rm_stmt_clean(it.stmt);
            lemma_rm_items_clean(items, i + 1, Seq::empty());
            let out = spec_rm_items(items, i, pending);
            let rest = spec_rm_items(items, i + 1, Seq::empty());
            assert(forall|j: int| 0 < j < out.len() ==> out[j] == rest[j - 1]);
        }
    }
}

proof fn lemma_rm_block_clean(b: SpecBlock)
    requires
        spec_block_stable(b),
    ensures
        spec_block_clean(spec_rm_block(b)),
    decreases b,
{
    lemma_rm_items_clean(b.stmts, 0, Seq::empty());
}

/// On a block where no `do` collapses — each `do` body is either already
/// empty or keeps content through the pass — the output holds no empty
/// `do ... end` at any depth.  Without that premise a `do` emptied only by
/// inner deletions survives as an empty block, as the scan-then-descend
/// order demands: on a `do` holding exactly one empty `do`, one pass leaves
/// the outer `do end` behind.
pub proof fn lemma_no_residual_empty_do(b: SpecBlock)
    requires
        spec_block_stable(b),
    ensures
        spec_block_clean(spec_rm_block(b)),
{
    lemma_rm_block_clean(b);
}

} // verus!
