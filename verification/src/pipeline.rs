//! The two-phase pipeline's decision logic.
//!
//! A run first materializes the enabled modifiers into an ordered rule list
//! and an ordered visitor list (a configuration error aborts before any
//! file is touched).  Phase one hands every input to the external rule
//! engine; its file reads and writes happen outside the library.  When any
//! phase-one error was recorded the run fails before phase two, with one
//! aggregated report.  Phase two applies the visitor passes, each freshly
//! constructed per file, to the re-parsed intermediate tree and serializes
//! the result; the output path takes the configured extension.
use vstd::prelude::*;

use crate::ast::{Block, SpecBlock, view_block};
use crate::bit32::{Bit32Converter, SpecConverter, spec_cv_block, spec_default_root};
use crate::config::{ConfigMap, spec_entries};
use crate::empty_do::{RemoveEmptyDo, spec_rm_block};
use crate::errors::TranspileError;
use crate::modifier::{Modifier, SpecModifier, VisitorKind, get_modifier_by_name, spec_resolve,
    view_modifier};
use crate::render::{render_block, spec_render_block};

verus! {

broadcast use vstd::std_specs::vec::group_vec_axioms, vstd::seq::group_seq_axioms;

// ----------------------------------------------------------------------
// The run's states.
// ----------------------------------------------------------------------
/// Where a run stands.  Failure is reachable from both application phases;
/// phase two never starts once phase one recorded an error.
#[derive(Clone, Copy, PartialEq, Eq, Structural, Debug)]
pub enum RunState {
    Configuring,
    RuleBasedApplication,
    VisitorApplication,
    Completed,
    Failed,
}

/// One step of the run's state machine: `ok` says whether the work of the
/// current state succeeded; `has_visitors` decides whether phase two runs
/// at all.
pub fn next_state(s: RunState, ok: bool, has_visitors: bool) -> (r: RunState)
    ensures
        r == (match s {
            RunState::Configuring => if ok {
                RunState::RuleBasedApplication
            } else {
                RunState::Failed
            },
            RunState::RuleBasedApplication => if !ok {
                RunState::Failed
            } else if has_visitors {
                RunState::VisitorApplication
            } else {
                RunState::Completed
            },
            RunState::VisitorApplication => if ok {
                RunState::Completed
            } else {
                RunState::Failed
            },
            RunState::Completed => RunState::Completed,
            RunState::Failed => RunState::Failed,
        }),
{
    match s {
        RunState::Configuring => if ok {
            RunState::RuleBasedApplication
        } else {
            RunState::Failed
        },
        RunState::RuleBasedApplication => if !ok {
            RunState::Failed
        } else if has_visitors {
            RunState::VisitorApplication
        } else {
            RunState::Completed
        },
        RunState::VisitorApplication => if ok {
            RunState::Completed
        } else {
            RunState::Failed
        },
        RunState::Completed => RunState::Completed,
        RunState::Failed => RunState::Failed,
    }
}

// ----------------------------------------------------------------------
// Materialization.
// ----------------------------------------------------------------------
/// What materializing a configuration from position `i` on yields: the
/// enabled entries resolve in order and are partitioned into rule names
/// and visitor kinds, each partition keeping the configuration's order;
/// the first enabled name that resolves to nothing aborts the run with
/// that name.
pub open spec fn spec_materialize(es: Seq<(Seq<char>, bool)>, i: int) -> Result<
    (Seq<Seq<char>>, Seq<VisitorKind>),
    Seq<char>,
>
    decreases es.len() - i,
{
    if i < 0 || i >= es.len() {
        Result::Ok((Seq::empty(), Seq::empty()))
    } else {
        let k = es[i].0;
        let enabled = es[i].1;
        if !enabled {
            spec_materialize(es, i + 1)
        } else {
            match spec_resolve(k) {
                Option::None => Result::Err(k),
                Option::Some(SpecModifier::DarkluaRule(n)) => match spec_materialize(es, i + 1) {
                    Result::Ok(rest) => Result::Ok((seq![n] + rest.0, rest.1)),
                    Result::Err(e) => Result::Err(e),
                },
                Option::Some(SpecModifier::FullMoonVisitor(vk)) => match spec_materialize(
                    es,
                    i + 1,
                ) {
                    Result::Ok(rest) => Result::Ok((rest.0, seq![vk] + rest.1)),
                    Result::Err(e) => Result::Err(e),
                },
            }
        }
    }
}

/// The enabled modifiers, resolved and partitioned: rule names first to
/// run in phase one, visitor kinds for phase two, each in configuration
/// order.
pub struct Materialized {
    pub rules: Vec<String>,
    pub visitors: Vec<VisitorKind>,
}

pub open spec fn spec_rule_names(rules: Seq<String>) -> Seq<Seq<char>> {
    Seq::new(rules.len(), |i: int| rules[i]@)
}

#[verifier::loop_isolation(false)]
fn materialize_from(config: &ConfigMap, i: usize) -> (r: Result<Materialized, TranspileError>)
    requires
        i <= spec_entries(config).len(),
    ensures
        match spec_materialize(spec_entries(config), i as int) {
            Result::Ok(parts) => r is Ok && spec_rule_names(r->Ok_0.rules@) == parts.0
                && r->Ok_0.visitors@ == parts.1,
            Result::Err(name) => r is Err && (r->Err_0 matches TranspileError::Configuration(msg)
                && msg@ == name),
        },
    decreases spec_entries(config).len() - i,
{
    if i >= config.len() {
        let r = Materialized { rules: Vec::new(), visitors: Vec::new() };
        proof {
            assert(spec_rule_names(r.rules@) =~= Seq::<Seq<char>>::empty());
        }
        return Result::Ok(r);
    }
    let enabled = config.enabled_at(i);
    if !enabled {
        return materialize_from(config, i + 1);
    }
    let name = config.name_at(i);
    match get_modifier_by_name(name) {
        Result::Err(e) => Result::Err(e),
        Result::Ok(Modifier::DarkluaRule(n)) => {
            match materialize_from(config, i + 1) {
                Result::Ok(rest) => {
                    let mut rest = rest;
                    let ghost rules0 = rest.rules@;
                    rest.rules.insert(0, n);
                    proof {
                        assert(spec_rule_names(rest.rules@) =~= seq![rest.rules@[0]@]
                            + spec_rule_names(rules0));
                    }
                    Result::Ok(rest)
                },
                Result::Err(e) => Result::Err(e),
            }
        },
        Result::Ok(Modifier::FullMoonVisitor(vk)) => {
            match materialize_from(config, i + 1) {
                Result::Ok(rest) => {
                    let mut rest = rest;
                    let ghost vis0 = rest.visitors@;
                    rest.visitors.insert(0, vk);
                    proof {
                        assert(rest.visitors@ =~= seq![vk] + vis0);
                    }
                    Result::Ok(rest)
                },
                Result::Err(e) => Result::Err(e),
            }
        },
    }
}

/// Materializes a configuration: every enabled modifier resolved, rules and
/// visitors partitioned in order.  An unknown enabled name is a
/// configuration error carrying that name, raised here, before any file is
/// touched: a failed materialization writes no file.
pub fn materialize_modifiers(config: &ConfigMap) -> (r: Result<Materialized, TranspileError>)
    ensures
        match spec_materialize(spec_entries(config), 0) {
            Result::Ok(parts) => r is Ok && spec_rule_names(r->Ok_0.rules@) == parts.0
                && r->Ok_0.visitors@ == parts.1,
            Result::Err(name) => r is Err && (r->Err_0 matches TranspileError::Configuration(msg)
                && msg@ == name),
        },
{
    materialize_from(config, 0)
}

// ----------------------------------------------------------------------
// Phase two: visitor application.
// ----------------------------------------------------------------------
/// The state a fresh bitwise converter starts from.
pub open spec fn spec_fresh_converter() -> SpecConverter {
    SpecConverter { root: spec_default_root(), aliases: Seq::empty() }
}

/// What one visitor pass does to a file's tree.
pub open spec fn spec_apply_visitor(vk: VisitorKind, b: SpecBlock) -> SpecBlock {
    match vk {
        VisitorKind::ConvertBit32 => spec_cv_block(spec_fresh_converter(), b).1,
        VisitorKind::RemoveEmptyDo => spec_rm_block(b),
    }
}

/// The visitors from position `i` on, applied in order.
pub open spec fn spec_apply_visitors(vks: Seq<VisitorKind>, b: SpecBlock, i: int) -> SpecBlock
    decreases vks.len() - i,
{
    if i < 0 || i >= vks.len() {
        b
    } else {
        spec_apply_visitors(vks, spec_apply_visitor(vks[i], b), i + 1)
    }
}

/// Applies one visitor pass to a tree, constructing the pass fresh: visitor
/// state is scoped to a single file's traversal and never reused.
pub fn apply_visitor(vk: &VisitorKind, b: &Block) -> (r: Block)
    ensures
        view_block(&r) == spec_apply_visitor(*vk, view_block(b)),
{
    match vk {
        VisitorKind::ConvertBit32 => {
            let mut converter = Bit32Converter::new();
            converter.visit_block(b)
        },
        VisitorKind::RemoveEmptyDo => {
            let pass = RemoveEmptyDo::new();
            pass.visit_block(b)
        },
    }
}

/// Applies the materialized visitors to a file's tree, in order, each one
/// freshly constructed.
#[verifier::loop_isolation(false)]
pub fn apply_visitors(visitors: &Vec<VisitorKind>, b: &Block) -> (r: Block)
    ensures
        view_block(&r) == spec_apply_visitors(visitors@, view_block(b), 0),
{
    let mut cur = crate::ast::clone_block(b);
    let mut i: usize = 0;
    while i < visitors.len()
        invariant
            i <= visitors@.len(),
            spec_apply_visitors(visitors@, view_block(b), 0) == spec_apply_visitors(
                visitors@,
                view_block(&cur),
                i as int,
            ),
        decreases visitors@.len() - i,
    {
        cur = apply_visitor(&visitors[i], &cur);
        i += 1;
    }
    cur
}

/// Phase two for one file: the visitor passes applied in order to the
/// re-parsed tree, and the result serialized back to source text.
pub fn process_tree(visitors: &Vec<VisitorKind>, b: &Block) -> (r: String)
    ensures
        r@ == spec_render_block(spec_apply_visitors(visitors@, view_block(b), 0)),
{
    let out = apply_visitors(visitors, b);
    render_block(&out)
}

/// Re-running the pipeline's transformation on an unchanged tree under an
/// unchanged configuration produces byte-identical output: the result is a
/// function of the tree and the visitor list alone, with no hidden state.
pub proof fn lemma_process_deterministic(
    v1: Seq<VisitorKind>,
    v2: Seq<VisitorKind>,
    b1: SpecBlock,
    b2: SpecBlock,
)
    requires
        v1 == v2,
        b1 == b2,
    ensures
        spec_render_block(spec_apply_visitors(v1, b1, 0)) == spec_render_block(
            spec_apply_visitors(v2, b2, 0),
        ),
{
}

/// Splitting a visitor chain at its final pass.
proof fn lemma_apply_visitors_snoc(vks: Seq<VisitorKind>, b: SpecBlock, i: int)
    requires
        0 <= i < vks.len(),
    ensures
        spec_apply_visitors(vks, b, i) == spec_apply_visitor(
            vks.last(),
            spec_apply_visitors(vks.drop_last(), b, i),
        ),
    decreases vks.len() - i,
{
    if i == vks.len() - 1 {
        assert(spec_apply_visitors(vks.drop_last(), b, i) == b);
    } else {
        assert(vks.drop_last()[i] == vks[i]);
        lemma_apply_visitors_snoc(vks, spec_apply_visitor(vks[i], b), i + 1);
    }
}

/// When the empty-block-removal pass runs last, and no `do` of the tree it
/// receives collapses (each `do` body is already empty or keeps content
/// through the pass), the pipeline's output holds no empty `do ... end` at
/// any depth: the placeholders the conversion pass left behind are cleaned
/// up.  The premise holds in particular whenever every `do` the earlier
/// passes hand over is an empty placeholder.
pub proof fn lemma_no_placeholder_after_removal(vks: Seq<VisitorKind>, b: SpecBlock)
    requires
        vks.len() > 0,
        vks.last() == VisitorKind::RemoveEmptyDo,
        crate::empty_do::spec_block_stable(spec_apply_visitors(vks.drop_last(), b, 0)),
    ensures
        crate::empty_do::spec_block_clean(spec_apply_visitors(vks, b, 0)),
{
    lemma_apply_visitors_snoc(vks, b, 0);
    crate::empty_do::lemma_no_residual_empty_do(spec_apply_visitors(vks.drop_last(), b, 0));
}

// ----------------------------------------------------------------------
// Output paths.
// ----------------------------------------------------------------------
/// The position of the dot starting the final component's extension: the
/// last `.` of the final component, unless that dot is the component's
/// first character (a leading dot names a hidden file, not an extension);
/// -1 when the component has no extension.
pub open spec fn spec_last_dot(p: Seq<char>) -> int
    decreases p.len(),
{
    if p.len() == 0 {
        -1
    } else if p.last() == '/' {
        -1
    } else if p.last() == '.' {
        if p.len() >= 2 && p[p.len() - 2] != '/' {
            p.len() - 1
        } else {
            -1
        }
    } else {
        spec_last_dot(p.drop_last())
    }
}

/// A path with its extension replaced: the text after the final
/// component's last dot becomes `ext`; a component without a dot gets
/// `.ext` appended.
pub open spec fn spec_replace_extension(p: Seq<char>, ext: Seq<char>) -> Seq<char> {
    if spec_last_dot(p) >= 0 {
        p.subrange(0, spec_last_dot(p) + 1) + ext
    } else {
        p + "."@ + ext
    }
}

/// Replaces a path's extension, as the final output path takes the
/// configured extension in place of the intermediate one.
#[verifier::loop_isolation(false)]
pub fn replace_extension(path: &String, ext: &String) -> (r: String)
    ensures
        r@ == spec_replace_extension(path@, ext@),
{
    let n = path.as_str().unicode_len();
    let mut i: usize = n;
    proof {
        assert(path@.take(n as int) =~= path@);
    }
    while i > 0
        invariant
            i <= n,
            n == path@.len(),
            spec_last_dot(path@) == spec_last_dot(path@.take(i as int)),
            forall|j: int| i as int <= j < n as int ==> path@[j] != '.' && path@[j] != '/',
        decreases i,
    {
        proof {
            assert(path@.take(i as int).last() == path@[i as int - 1]);
            assert(path@.take(i as int).drop_last() =~= path@.take(i as int - 1));
        }
        let c = path.as_str().get_char(i - 1);
        if c == '/' {
            break ;
        }
        if c == '.' {
            if i >= 2 && path.as_str().get_char(i - 2) != '/' {
                let stem = path.as_str().substring_char(0, i);
                let mut s = stem.to_owned();
                s.append(ext.as_str());
                proof {
                    assert(path@.take(i as int)[i as int - 2] == path@[i as int - 2]);
                    assert(spec_last_dot(path@) == i as int - 1);
                    assert(path@.subrange(0, i as int) =~= path@.take(i as int));
                }
                return s;
            }
            proof {
                assert(spec_last_dot(path@) == -1);
            }
            break ;
        }
        i = i - 1;
    }
    proof {
        if i == 0 {
            assert(path@.take(0) =~= Seq::<char>::empty());
        }
        assert(spec_last_dot(path@) == -1);
    }
    let mut s = path.clone();
    s.append(".");
    s.append(ext.as_str());
    s
}

// ----------------------------------------------------------------------
// The aggregated failure report.
// ----------------------------------------------------------------------
pub open spec fn spec_digit_char(d: int) -> char {
    if d == 0 {
        '0'
    } else if d == 1 {
        '1'
    } else if d == 2 {
        '2'
    } else if d == 3 {
        '3'
    } else if d == 4 {
        '4'
    } else if d == 5 {
        '5'
    } else if d == 6 {
        '6'
    } else if d == 7 {
        '7'
    } else if d == 8 {
        '8'
    } else {
        '9'
    }
}

/// A number in decimal.
pub open spec fn spec_dec_text(n: int) -> Seq<char>
    decreases n,
{
    if n < 10 {
        seq![spec_digit_char(n)]
    } else {
        spec_dec_text(n / 10).push(spec_digit_char(n % 10))
    }
}

fn digit_str(d: u64) -> (r: &'static str)
    requires
        d < 10,
    ensures
        r@ == seq![spec_digit_char(d as int)],
{
    proof {
        reveal_strlit("0");
        reveal_strlit("1");
        reveal_strlit("2");
        reveal_strlit("3");
        reveal_strlit("4");
        reveal_strlit("5");
        reveal_strlit("6");
        reveal_strlit("7");
        reveal_strlit("8");
        reveal_strlit("9");
    }
    let r = if d == 0 {
        "0"
    } else if d == 1 {
        "1"
    } else if d == 2 {
        "2"
    } else if d == 3 {
        "3"
    } else if d == 4 {
        "4"
    } else if d == 5 {
        "5"
    } else if d == 6 {
        "6"
    } else if d == 7 {
        "7"
    } else if d == 8 {
        "8"
    } else {
        "9"
    };
    proof {
        assert(r@ =~= seq![spec_digit_char(d as int)]);
    }
    r
}

/// A number rendered in decimal.
pub fn dec_text(n: u64) -> (r: String)
    ensures
        r@ == spec_dec_text(n as int),
    decreases n,
{
    if n < 10 {
        String::from_str(digit_str(n))
    } else {
        let mut s = dec_text(n / 10);
        s.append(digit_str(n % 10));
        proof {
            assert(s@ =~= spec_dec_text((n / 10) as int).push(spec_digit_char((n % 10) as int)));
        }
        s
    }
}

pub open spec fn spec_error_lines(errors: Seq<Seq<char>>, i: int) -> Seq<char>
    decreases errors.len() - i,
{
    if i < 0 || i >= errors.len() {
        Seq::empty()
    } else {
        "\n-> "@ + errors[i] + spec_error_lines(errors, i + 1)
    }
}

/// The aggregated report of a failed phase: a summary line, then one line
/// per recorded error behind an arrow marker, in input order.
pub open spec fn spec_error_report(success_count: int, errors: Seq<Seq<char>>) -> Seq<char> {
    (if success_count > 0 {
        "but "@
    } else {
        Seq::empty()
    }) + spec_dec_text(errors.len() as int) + (if errors.len() == 1 {
        " error happened:"@
    } else {
        " errors happened:"@
    }) + spec_error_lines(errors, 0)
}

#[verifier::loop_isolation(false)]
fn error_lines(errors: &Vec<String>, i: usize) -> (r: String)
    requires
        i <= errors@.len(),
    ensures
        r@ == spec_error_lines(crate::ast::view_strings(errors@), i as int),
    decreases errors@.len() - i,
{
    let mut s = String::new();
    if i < errors.len() {
        s = String::from_str("\n-> ");
        s.append(errors[i].as_str());
        let rest = error_lines(errors, i + 1);
        s.append(rest.as_str());
    }
    s
}

/// Builds the aggregated failure report for a phase: how many errors
/// happened (noting prior successes), then each recorded message on its
/// own marked line.
pub fn error_report(success_count: usize, errors: &Vec<String>) -> (r: String)
    ensures
        r@ == spec_error_report(success_count as int, crate::ast::view_strings(errors@)),
{
    let mut s = if success_count > 0 {
        String::from_str("but ")
    } else {
        String::new()
    };
    let count = dec_text(errors.len() as u64);
    s.append(count.as_str());
    if errors.len() == 1 {
        s.append(" error happened:");
    } else {
        s.append(" errors happened:");
    }
    let lines = error_lines(errors, 0);
    s.append(lines.as_str());
    s
}

} // verus!
