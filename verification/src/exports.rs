//! Reading a module's export names from its trailing return.
//!
//! When a block ends in `return { ... }`, the table constructor's keys name
//! the module's exports: a `name = value` field contributes its name, a
//! `["name"] = value` field contributes the quoted key text.  The names are
//! collected in first-appearance order, without duplicates.
use vstd::prelude::*;

use crate::ast::{
    Block, Expr, Field, LastItem, LastStmt, SpecBlock, SpecExpr, SpecField, SpecLastItem,
    SpecLastStmt, lemma_view_exprs, lemma_view_fields, view_block, view_expr, view_exprs,
    view_field, view_fields, view_strings,
};

verus! {

broadcast use vstd::std_specs::vec::group_vec_axioms, vstd::seq::group_seq_axioms;

/// The export name one table field contributes, if any.
pub open spec fn spec_export_name(f: SpecField) -> Option<Seq<char>> {
    match f {
        SpecField::NameKey(n, _v) => Option::Some(n),
        SpecField::ExpressionKey(k, _v) => match *k {
            SpecExpr::Str(s) => Option::Some(s),
            _ => Option::None,
        },
        SpecField::Positional(_v) => Option::None,
    }
}

/// The export names of a field list from position `i` on, appended to the
/// names already collected, first appearance winning.
pub open spec fn spec_collect_exports(
    fs: Seq<SpecField>,
    i: int,
    acc: Seq<Seq<char>>,
) -> Seq<Seq<char>>
    decreases fs.len() - i,
{
    if i < 0 || i >= fs.len() {
        acc
    } else {
        match spec_export_name(fs[i]) {
            Option::Some(n) => {
                if acc.contains(n) {
                    spec_collect_exports(fs, i + 1, acc)
                } else {
                    spec_collect_exports(fs, i + 1, acc.push(n))
                }
            },
            Option::None => spec_collect_exports(fs, i + 1, acc),
        }
    }
}

/// The exports a block advertises: the keys of the table constructor that
/// its trailing `return` starts with, or nothing when the block does not
/// end that way.
pub open spec fn spec_exports_of(b: SpecBlock) -> Option<Seq<Seq<char>>> {
    match b.last_stmt {
        Option::Some(SpecLastItem { stmt: SpecLastStmt::Return(es), .. }) => {
            if es.len() > 0 {
                match es[0] {
                    SpecExpr::TableConstructor(fs) => Option::Some(
                        spec_collect_exports(fs, 0, Seq::empty()),
                    ),
                    _ => Option::None,
                }
            } else {
                Option::None
            }
        },
        _ => Option::None,
    }
}

/// Whether a collected list already holds a name.
#[verifier::loop_isolation(false)]
fn names_contain(names: &Vec<String>, n: &String) -> (r: bool)
    ensures
        r == view_strings(names@).contains(n@),
{
    let mut i: usize = 0;
    while i < names.len()
        invariant
            i <= names@.len(),
            forall|j: int| 0 <= j < i as int ==> names@[j]@ != n@,
        decreases names@.len() - i,
    {
        if names[i] == *n {
            proof {
                assert(view_strings(names@)[i as int] == n@);
            }
            return true;
        }
        i += 1;
    }
    proof {
        if view_strings(names@).contains(n@) {
            let j = choose|j: int| 0 <= j < names@.len() && view_strings(names@)[j] == n@;
            assert(names@[j]@ == n@);
        }
    }
    false
}

/// The export name one field contributes.
fn export_name(f: &Field) -> (r: Option<String>)
    ensures
        match spec_export_name(view_field(f)) {
            Option::Some(n) => r is Some && r->Some_0@ == n,
            Option::None => r is None,
        },
{
    match f {
        Field::NameKey(n, _v) => {
            proof {
                assert(f matches Field::NameKey(nn, vv) ==> view_field(f) == SpecField::NameKey(
                    nn@,
                    Box::new(view_expr(&vv)),
                ));
            }
            Option::Some(n.clone())
        },
        Field::ExpressionKey(k, _v) => {
            proof {
                assert(f matches Field::ExpressionKey(kk, vv) ==> view_field(f)
                    == SpecField::ExpressionKey(
                    Box::new(view_expr(&**kk)),
                    Box::new(view_expr(&**vv)),
                ));
            }
            match &**k {
                Expr::Str(s) => Option::Some(s.clone()),
                _ => Option::None,
            }
        },
        Field::Positional(_v) => {
            proof {
                assert(f matches Field::Positional(vv) ==> view_field(f) == SpecField::Positional(
                    Box::new(view_expr(&vv)),
                ));
            }
            Option::None
        },
    }
}

/// The export names a block's trailing `return { ... }` advertises, in
/// first-appearance order and without duplicates; nothing when the block
/// does not end in a returned table constructor.
#[verifier::loop_isolation(false)]
pub fn get_exports_from_last_stmt(block: &Block) -> (r: Option<Vec<String>>)
    ensures
        match spec_exports_of(view_block(block)) {
            Option::Some(ns) => r is Some && view_strings(r->Some_0@) == ns,
            Option::None => r is None,
        },
{
    let es = match &block.last_stmt {
        Option::Some(LastItem { stmt: LastStmt::Return(es), .. }) => es,
        _ => {
            return Option::None;
        },
    };
    proof {
        lemma_view_exprs(es@);
    }
    if es.len() == 0 {
        return Option::None;
    }
    let fs = match &es[0] {
        Expr::TableConstructor(fs) => fs,
        _ => {
            return Option::None;
        },
    };
    proof {
        assert(view_exprs(es@)[0] == view_expr(&es@[0]));
        assert(view_expr(&es@[0]) == SpecExpr::TableConstructor(view_fields(fs@)));
        lemma_view_fields(fs@);
    }
    let mut acc: Vec<String> = Vec::new();
    let mut i: usize = 0;
    proof {
        assert(view_strings(acc@) =~= Seq::<Seq<char>>::empty());
    }
    while i < fs.len()
        invariant
            i <= fs@.len(),
            spec_collect_exports(view_fields(fs@), 0, Seq::empty()) == spec_collect_exports(
                view_fields(fs@),
                i as int,
                view_strings(acc@),
            ),
        decreases fs@.len() - i,
    {
        match export_name(&fs[i]) {
            Option::Some(n) => {
                if !names_contain(&acc, &n) {
                    let ghost acc0 = acc@;
                    acc.push(n);
                    proof {
                        assert(view_strings(acc@) =~= view_strings(acc0).push(acc@.last()@));
                    }
                }
            },
            Option::None => {},
        }
        i += 1;
    }
    Option::Some(acc)
}

} // verus!
