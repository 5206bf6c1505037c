//! The transpiler's builder and modifier-configuration merging.
//!
//! A transpiler starts from the built-in default modifier set and takes
//! user overrides by AND-composition: an explicit `false` always wins, and
//! a name absent from the override map keeps its default.  The minify
//! switch enables the minifying modifier subset on top.
use vstd::prelude::*;

use crate::config::{
    ConfigMap, lemma_contains_iff_exists, lemma_insert_properties, spec_contains_key,
    spec_entries, spec_insert, spec_unique_keys, spec_value_of,
};
use crate::manifest::Manifest;
use crate::polyfill::Polyfill;
use crate::version::TargetVersion;

verus! {

broadcast use vstd::std_specs::vec::group_vec_axioms, vstd::seq::group_seq_axioms;

/// The names of the modifiers every run starts with, in order.
pub open spec fn spec_default_modifier_names() -> Seq<Seq<char>> {
    seq![
        "remove_interpolated_string"@,
        "remove_compound_assignment"@,
        "remove_types"@,
        "remove_if_expression"@,
        "remove_continue"@,
        "remove_redeclared_keys"@,
        "remove_generalized_iteration"@,
        "remove_number_literals"@,
    ]
}

/// The names the minify switch enables, in order.
pub open spec fn spec_minifying_modifier_names() -> Seq<Seq<char>> {
    seq![
        "remove_spaces"@,
        "remove_nil_declaration"@,
        "remove_function_call_parens"@,
        "remove_comments"@,
        "convert_index_to_field"@,
        "compute_expression"@,
        "filter_after_early_return"@,
        "remove_unused_variable"@,
        "remove_unused_while"@,
        "remove_unused_if_branch"@,
        "remove_empty_do"@,
    ]
}

/// The modifiers every run starts with: the lowering of the extended
/// dialect to the base dialect, all enabled.
pub fn default_modifier_names() -> (r: Vec<String>)
    ensures
        crate::ast::view_strings(r@) == spec_default_modifier_names(),
{
    let mut v: Vec<String> = Vec::new();
    v.push(String::from_str("remove_interpolated_string"));
    v.push(String::from_str("remove_compound_assignment"));
    v.push(String::from_str("remove_types"));
    v.push(String::from_str("remove_if_expression"));
    v.push(String::from_str("remove_continue"));
    v.push(String::from_str("remove_redeclared_keys"));
    v.push(String::from_str("remove_generalized_iteration"));
    v.push(String::from_str("remove_number_literals"));
    proof {
        assert(crate::ast::view_strings(v@) =~= spec_default_modifier_names());
    }
    v
}

/// The modifiers the minify switch enables on top of the defaults.
pub fn minifying_modifier_names() -> (r: Vec<String>)
    ensures
        crate::ast::view_strings(r@) == spec_minifying_modifier_names(),
{
    let mut v: Vec<String> = Vec::new();
    v.push(String::from_str("remove_spaces"));
    v.push(String::from_str("remove_nil_declaration"));
    v.push(String::from_str("remove_function_call_parens"));
    v.push(String::from_str("remove_comments"));
    v.push(String::from_str("convert_index_to_field"));
    v.push(String::from_str("compute_expression"));
    v.push(String::from_str("filter_after_early_return"));
    v.push(String::from_str("remove_unused_variable"));
    v.push(String::from_str("remove_unused_while"));
    v.push(String::from_str("remove_unused_if_branch"));
    v.push(String::from_str("remove_empty_do"));
    proof {
        assert(crate::ast::view_strings(v@) =~= spec_minifying_modifier_names());
    }
    v
}

/// What inserting a list of names, all enabled, does to a map.
pub open spec fn spec_enable_all(
    base: Seq<(Seq<char>, bool)>,
    names: Seq<Seq<char>>,
    i: int,
) -> Seq<(Seq<char>, bool)>
    decreases names.len() - i,
{
    if i < 0 || i >= names.len() {
        base
    } else {
        spec_enable_all(spec_insert(base, names[i], true), names, i + 1)
    }
}

/// The AND-composition merge: each override entry, in order, is inserted
/// with `default && override` where the name already has a value, and with
/// the override value where it does not.
pub open spec fn spec_merge(
    base: Seq<(Seq<char>, bool)>,
    overrides: Seq<(Seq<char>, bool)>,
    i: int,
) -> Seq<(Seq<char>, bool)>
    decreases overrides.len() - i,
{
    if i < 0 || i >= overrides.len() {
        base
    } else {
        let k = overrides[i].0;
        let v = overrides[i].1;
        let newv = if spec_contains_key(base, k) {
            spec_value_of(base, k) && v
        } else {
            v
        };
        spec_merge(spec_insert(base, k, newv), overrides, i + 1)
    }
}

/// A transpiler configuration under construction.
pub struct Transpiler {
    pub modifiers: ConfigMap,
    pub polyfill: Option<Polyfill>,
    pub extension: Option<String>,
    pub target_version: TargetVersion,
    pub injected_polyfill_name: Option<String>,
    pub polyfill_config: Option<ConfigMap>,
}

pub open spec fn spec_transpiler_wf(t: &Transpiler) -> bool {
    spec_unique_keys(spec_entries(&t.modifiers))
}

impl Transpiler {
    /// Enables every name of a list in the modifier map.
    #[verifier::loop_isolation(false)]
    fn enable_names(&mut self, names: &Vec<String>)
        requires
            spec_transpiler_wf(old(self)),
        ensures
            spec_entries(&final(self).modifiers) == spec_enable_all(
                spec_entries(&old(self).modifiers),
                crate::ast::view_strings(names@),
                0,
            ),
            spec_transpiler_wf(final(self)),
            final(self).polyfill == old(self).polyfill,
            final(self).extension == old(self).extension,
            final(self).target_version == old(self).target_version,
            final(self).injected_polyfill_name == old(self).injected_polyfill_name,
            final(self).polyfill_config == old(self).polyfill_config,
    {
        let ghost base0 = spec_entries(&old(self).modifiers);
        let ghost ns = crate::ast::view_strings(names@);
        let mut i: usize = 0;
        while i < names.len()
            invariant
                i <= names@.len(),
                spec_unique_keys(spec_entries(&self.modifiers)),
                spec_enable_all(base0, ns, 0) == spec_enable_all(
                    spec_entries(&self.modifiers),
                    ns,
                    i as int,
                ),
                self.polyfill == old(self).polyfill,
                self.extension == old(self).extension,
                self.target_version == old(self).target_version,
                self.injected_polyfill_name == old(self).injected_polyfill_name,
                self.polyfill_config == old(self).polyfill_config,
            decreases names@.len() - i,
        {
            proof {
                lemma_insert_properties(spec_entries(&self.modifiers), names@[i as int]@, true, names@[i as int]@);
            }
            self.modifiers.insert(names[i].clone(), true);
            i += 1;
        }
    }

    /// Enables the minifying modifier subset.
    pub fn with_minifying_modifiers(self) -> (r: Self)
        requires
            spec_transpiler_wf(&self),
        ensures
            spec_entries(&r.modifiers) == spec_enable_all(
                spec_entries(&self.modifiers),
                spec_minifying_modifier_names(),
                0,
            ),
            spec_transpiler_wf(&r),
            r.polyfill == self.polyfill,
            r.extension == self.extension,
            r.target_version == self.target_version,
            r.injected_polyfill_name == self.injected_polyfill_name,
            r.polyfill_config == self.polyfill_config,
    {
        let names = minifying_modifier_names();
        let mut out = self;
        out.enable_names(&names);
        out
    }

    /// Takes a user override map by AND-composition, in the overrides'
    /// order: `effective = default && override` for a name that already has
    /// a value, the override value for a new name.
    #[verifier::loop_isolation(false)]
    pub fn with_modifiers(self, modifiers: &ConfigMap) -> (r: Self)
        requires
            spec_transpiler_wf(&self),
        ensures
            spec_entries(&r.modifiers) == spec_merge(
                spec_entries(&self.modifiers),
                spec_entries(modifiers),
                0,
            ),
            spec_transpiler_wf(&r),
            r.polyfill == self.polyfill,
            r.extension == self.extension,
            r.target_version == self.target_version,
            r.injected_polyfill_name == self.injected_polyfill_name,
            r.polyfill_config == self.polyfill_config,
    {
        let ghost base0 = spec_entries(&self.modifiers);
        let ghost ov = spec_entries(modifiers);
        let mut out = self;
        let mut i: usize = 0;
        while i < modifiers.len()
            invariant
                i <= ov.len(),
                ov == spec_entries(modifiers),
                spec_unique_keys(spec_entries(&out.modifiers)),
                spec_merge(base0, ov, 0) == spec_merge(spec_entries(&out.modifiers), ov, i as int),
                out.polyfill == self.polyfill,
                out.extension == self.extension,
                out.target_version == self.target_version,
                out.injected_polyfill_name == self.injected_polyfill_name,
                out.polyfill_config == self.polyfill_config,
            decreases ov.len() - i,
        {
            let name = modifiers.name_at(i);
            let value = modifiers.enabled_at(i);
            let newv = match out.modifiers.get(name) {
                Option::Some(default_value) => default_value && value,
                Option::None => value,
            };
            proof {
                lemma_insert_properties(spec_entries(&out.modifiers), name@, newv, name@);
            }
            out.modifiers.insert(name.clone(), newv);
            i += 1;
        }
        out
    }

    /// Takes everything a manifest configures: its modifier overrides, the
    /// minifying subset when minification is on, the output extension when
    /// one is set, and the target dialect version.
    pub fn with_manifest(self, manifest: &Manifest) -> (r: Self)
        requires
            spec_transpiler_wf(&self),
            crate::manifest::spec_manifest_wf(manifest),
        ensures
            spec_entries(&r.modifiers) == (if manifest.minify {
                spec_enable_all(
                    spec_merge(
                        spec_entries(&self.modifiers),
                        spec_entries(&manifest.modifiers),
                        0,
                    ),
                    spec_minifying_modifier_names(),
                    0,
                )
            } else {
                spec_merge(spec_entries(&self.modifiers), spec_entries(&manifest.modifiers), 0)
            }),
            spec_transpiler_wf(&r),
            r.target_version == manifest.target_version,
            manifest.file_extension matches Option::Some(e) ==> (r.extension matches Option::Some(
                e2,
            ) && e2@ == e@),
            manifest.file_extension is None ==> r.extension == self.extension,
    {
        let mut out = self.with_modifiers(&manifest.modifiers);
        if manifest.minify {
            out = out.with_minifying_modifiers();
        }
        match &manifest.file_extension {
            Option::Some(extension) => {
                out = out.with_extension(extension.clone());
            },
            Option::None => {},
        }
        out.target_version = manifest.target_version;
        out
    }

    /// Sets the output file extension.
    pub fn with_extension(self, extension: String) -> (r: Self)
        ensures
            r.extension matches Option::Some(e) && e == extension,
            r.modifiers == self.modifiers,
            r.polyfill == self.polyfill,
            r.target_version == self.target_version,
            r.injected_polyfill_name == self.injected_polyfill_name,
            r.polyfill_config == self.polyfill_config,
    {
        let mut out = self;
        out.extension = Option::Some(extension);
        out
    }

    /// Sets the polyfill and the name it is injected under.
    pub fn with_polyfill(self, polyfill: Polyfill, new_injected_polyfill_name: Option<String>) -> (r:
        Self)
        ensures
            r.polyfill matches Option::Some(p) && p == polyfill,
            r.injected_polyfill_name == new_injected_polyfill_name,
            r.modifiers == self.modifiers,
            r.extension == self.extension,
            r.target_version == self.target_version,
            r.polyfill_config == self.polyfill_config,
    {
        let mut out = self;
        out.polyfill = Option::Some(polyfill);
        out.injected_polyfill_name = new_injected_polyfill_name;
        out
    }
}

impl Default for Transpiler {
    /// A transpiler with the built-in defaults enabled and nothing else
    /// configured.
    fn default() -> (r: Self)
        ensures
            spec_entries(&r.modifiers) == spec_enable_all(
                Seq::<(Seq<char>, bool)>::empty(),
                spec_default_modifier_names(),
                0,
            ),
            spec_transpiler_wf(&r),
            r.polyfill is None,
            r.extension is None,
            r.target_version == TargetVersion::Default,
            r.injected_polyfill_name is None,
            r.polyfill_config is None,
    {
        let names = default_modifier_names();
        let mut out = Transpiler {
            modifiers: ConfigMap::new(),
            polyfill: Option::None,
            extension: Option::None,
            target_version: TargetVersion::Default,
            injected_polyfill_name: Option::None,
            polyfill_config: Option::None,
        };
        out.enable_names(&names);
        out
    }
}

// ----------------------------------------------------------------------
// The AND-composition law.
// ----------------------------------------------------------------------
/// After a merge from position `i` on: a name the remaining overrides do
/// not touch keeps its value; a name they do touch gets
/// `default && override` when it had a value, the override value when not.
proof fn lemma_merge_from(
    base: Seq<(Seq<char>, bool)>,
    overrides: Seq<(Seq<char>, bool)>,
    i: int,
    q: Seq<char>,
)
    requires
        spec_unique_keys(base),
        spec_unique_keys(overrides),
        0 <= i <= overrides.len(),
    ensures
        spec_unique_keys(spec_merge(base, overrides, i)),
        !(exists|j: int| i <= j < overrides.len() && overrides[j].0 == q) ==> {
            &&& spec_contains_key(spec_merge(base, overrides, i), q) == spec_contains_key(base, q)
            &&& (spec_contains_key(base, q) ==> spec_value_of(spec_merge(base, overrides, i), q)
                == spec_value_of(base, q))
        },
        forall|j: int|
            i <= j < overrides.len() && overrides[j].0 == q ==> {
                &&& spec_contains_key(spec_merge(base, overrides, i), q)
                &&& spec_value_of(spec_merge(base, overrides, i), q) == (if spec_contains_key(
                    base,
                    q,
                ) {
                    spec_value_of(base, q) && overrides[j].1
                } else {
                    overrides[j].1
                })
            },
    decreases overrides.len() - i,
{
    if i < overrides.len() {
        let k = overrides[i].0;
        let v = overrides[i].1;
        let newv = if spec_contains_key(base, k) {
            spec_value_of(base, k) && v
        } else {
            v
        };
        let base2 = spec_insert(base, k, newv);
        lemma_insert_properties(base, k, newv, q);
        lemma_merge_from(base2, overrides, i + 1, q);
        if k == q {
            assert(forall|j: int|
                i + 1 <= j < overrides.len() ==> overrides[j].0 != q);
            assert(spec_contains_key(base2, q));
            assert(spec_value_of(base2, q) == newv);
        }
    }
}

/// The effective value of every modifier after taking overrides:
/// `effective = default && override` for a name both maps hold; a name
/// absent from the overrides keeps its default; a name only the overrides
/// hold gets the override value.
pub proof fn lemma_effective_modifier_value(
    base: Seq<(Seq<char>, bool)>,
    overrides: Seq<(Seq<char>, bool)>,
    name: Seq<char>,
)
    requires
        spec_unique_keys(base),
        spec_unique_keys(overrides),
    ensures
        spec_contains_key(base, name) && spec_contains_key(overrides, name) ==> spec_value_of(
            spec_merge(base, overrides, 0),
            name,
        ) == (spec_value_of(base, name) && spec_value_of(overrides, name)),
        spec_contains_key(base, name) && !spec_contains_key(overrides, name) ==> spec_value_of(
            spec_merge(base, overrides, 0),
            name,
        ) == spec_value_of(base, name),
        !spec_contains_key(base, name) && spec_contains_key(overrides, name) ==> spec_value_of(
            spec_merge(base, overrides, 0),
            name,
        ) == spec_value_of(overrides, name),
        spec_contains_key(spec_merge(base, overrides, 0), name) <==> (spec_contains_key(base, name)
            || spec_contains_key(overrides, name)),
{
    lemma_merge_from(base, overrides, 0, name);
    lemma_contains_iff_exists(overrides, name);
    crate::config::lemma_index_of_properties(overrides, name);
    if spec_contains_key(overrides, name) {
        let j = crate::config::spec_index_of(overrides, name);
        assert(overrides[j].0 == name);
        assert(overrides[j].1 == spec_value_of(overrides, name));
    }
}

} // verus!
