//! The modifier registry.
//!
//! A modifier is a named, independently toggleable transformation: either a
//! rule of the external rule engine, carried here by its validated name, or
//! one of this crate's own tree visitors.  Two visitor passes are handled
//! specially; every other name must belong to the rule engine's catalog, and
//! an unknown name is a configuration error raised before any file is
//! processed.
use vstd::prelude::*;

use crate::errors::TranspileError;

verus! {

/// The tree-visitor passes this crate implements itself.  A fresh visitor
/// value is constructed for each file, since its state is file-scoped.
#[derive(Clone, Copy, PartialEq, Eq, Structural, Debug)]
pub enum VisitorKind {
    ConvertBit32,
    RemoveEmptyDo,
}

/// A resolved modifier: a rule-engine rule by name, or a visitor pass.
pub enum Modifier {
    DarkluaRule(String),
    FullMoonVisitor(VisitorKind),
}

/// The mathematical mirror of a resolved modifier.
#[verifier::ext_equal]
pub enum SpecModifier {
    DarkluaRule(Seq<char>),
    FullMoonVisitor(VisitorKind),
}

pub open spec fn view_modifier(m: &Modifier) -> SpecModifier {
    match m {
        Modifier::DarkluaRule(n) => SpecModifier::DarkluaRule(n@),
        Modifier::FullMoonVisitor(k) => SpecModifier::FullMoonVisitor(*k),
    }
}

/// The rule names resolution accepts for the rule engine: the engine's own
/// nameable catalog (its bundling rule is configured separately, and
/// empty-`do` removal is this crate's own pass) together with the lowering
/// rules the pipeline's configuration surface names.  A rule an engine
/// build turns out not to provide fails at rule construction, not here.
pub open spec fn spec_is_catalog_rule_name(n: Seq<char>) -> bool {
    ||| n == "append_text_comment"@
    ||| n == "compute_expression"@
    ||| n == "convert_function_to_assignment"@
    ||| n == "convert_index_to_field"@
    ||| n == "convert_local_function_to_assign"@
    ||| n == "convert_luau_number"@
    ||| n == "convert_require"@
    ||| n == "convert_square_root_call"@
    ||| n == "filter_after_early_return"@
    ||| n == "group_local_assignment"@
    ||| n == "inject_global_value"@
    ||| n == "make_assignment_local"@
    ||| n == "remove_assertions"@
    ||| n == "remove_attribute"@
    ||| n == "remove_comments"@
    ||| n == "remove_compound_assignment"@
    ||| n == "remove_continue"@
    ||| n == "remove_debug_profiling"@
    ||| n == "remove_floor_division"@
    ||| n == "remove_function_call_parens"@
    ||| n == "remove_generalized_iteration"@
    ||| n == "remove_if_expression"@
    ||| n == "remove_interpolated_string"@
    ||| n == "remove_method_call"@
    ||| n == "remove_method_definition"@
    ||| n == "remove_nil_declaration"@
    ||| n == "remove_number_literals"@
    ||| n == "remove_redeclared_keys"@
    ||| n == "remove_spaces"@
    ||| n == "remove_types"@
    ||| n == "remove_unused_if_branch"@
    ||| n == "remove_unused_variable"@
    ||| n == "remove_unused_while"@
    ||| n == "rename_variables"@
}

/// How a name resolves: the two visitor passes by their special names, any
/// catalog name as a rule, anything else not at all.
pub open spec fn spec_resolve(n: Seq<char>) -> Option<SpecModifier> {
    if n == "convert_bit32"@ {
        Option::Some(SpecModifier::FullMoonVisitor(VisitorKind::ConvertBit32))
    } else if n == "remove_empty_do"@ {
        Option::Some(SpecModifier::FullMoonVisitor(VisitorKind::RemoveEmptyDo))
    } else if spec_is_catalog_rule_name(n) {
        Option::Some(SpecModifier::DarkluaRule(n))
    } else {
        Option::None
    }
}

fn is_catalog_rule_name(n: &String) -> (r: bool)
    ensures
        r == spec_is_catalog_rule_name(n@),
{
    *n == String::from_str("append_text_comment") || *n == String::from_str("compute_expression")
        || *n == String::from_str("convert_function_to_assignment") || *n == String::from_str(
        "convert_index_to_field",
    ) || *n == String::from_str("convert_local_function_to_assign") || *n == String::from_str(
        "convert_luau_number",
    ) || *n == String::from_str("convert_require") || *n == String::from_str(
        "convert_square_root_call",
    ) || *n == String::from_str("filter_after_early_return") || *n == String::from_str(
        "group_local_assignment",
    ) || *n == String::from_str("inject_global_value") || *n == String::from_str(
        "make_assignment_local",
    ) || *n == String::from_str("remove_assertions") || *n == String::from_str("remove_attribute")
        || *n == String::from_str("remove_comments") || *n == String::from_str(
        "remove_compound_assignment",
    ) || *n == String::from_str("remove_continue") || *n == String::from_str(
        "remove_debug_profiling",
    ) || *n == String::from_str("remove_floor_division") || *n == String::from_str(
        "remove_function_call_parens",
    ) || *n == String::from_str("remove_generalized_iteration") || *n == String::from_str(
        "remove_if_expression",
    ) || *n == String::from_str("remove_interpolated_string") || *n == String::from_str(
        "remove_method_call",
    ) || *n == String::from_str("remove_method_definition") || *n == String::from_str(
        "remove_nil_declaration",
    ) || *n == String::from_str("remove_number_literals") || *n == String::from_str(
        "remove_redeclared_keys",
    ) || *n == String::from_str("remove_spaces") || *n == String::from_str("remove_types") || *n
        == String::from_str("remove_unused_if_branch") || *n == String::from_str(
        "remove_unused_variable",
    ) || *n == String::from_str("remove_unused_while") || *n == String::from_str(
        "rename_variables",
    )
}

/// Resolves a modifier name.  An unknown name is a configuration error
/// carrying that name; no other error kind can come out of resolution.
pub fn get_modifier_by_name(name: &String) -> (r: Result<Modifier, TranspileError>)
    ensures
        match spec_resolve(name@) {
            Option::Some(m) => r is Ok && view_modifier(&r->Ok_0) == m,
            Option::None => r is Err && (r->Err_0 matches TranspileError::Configuration(msg)
                && msg@ == name@),
        },
{
    if *name == String::from_str("convert_bit32") {
        Result::Ok(Modifier::FullMoonVisitor(VisitorKind::ConvertBit32))
    } else if *name == String::from_str("remove_empty_do") {
        Result::Ok(Modifier::FullMoonVisitor(VisitorKind::RemoveEmptyDo))
    } else if is_catalog_rule_name(name) {
        Result::Ok(Modifier::DarkluaRule(name.clone()))
    } else {
        Result::Err(TranspileError::Configuration(name.clone()))
    }
}

impl core::str::FromStr for Modifier {
    type Err = TranspileError;

    /// Resolves a modifier name, exactly as `get_modifier_by_name` does.
    fn from_str(s: &str) -> (r: Result<Modifier, TranspileError>)
        ensures
            match spec_resolve(s@) {
                Option::Some(m) => r is Ok && view_modifier(&r->Ok_0) == m,
                Option::None => r is Err && (r->Err_0 matches TranspileError::Configuration(msg)
                    && msg@ == s@),
            },
    {
        let name = s.to_owned();
        get_modifier_by_name(&name)
    }
}

} // verus!
