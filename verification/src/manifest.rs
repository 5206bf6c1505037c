//! The resolved run configuration.
//!
//! A manifest carries everything one run needs: the input and output
//! locations, the optional output file extension, the target dialect
//! version, the injected polyfill name, the minify switch, the ordered
//! modifier enable/disable map, and the polyfill descriptors.  Reading and
//! writing the manifest file happens outside the library; this module owns
//! the values and their defaults.
use vstd::prelude::*;

use crate::config::{ConfigMap, spec_entries, spec_unique_keys};
use crate::polyfill::Polyfill;
use crate::version::TargetVersion;

verus! {

/// The default name under which a bundled polyfill is injected.
pub open spec fn spec_default_injected_polyfill_name() -> Seq<char> {
    "__polyfill__"@
}

pub fn default_injected_polyfill_name() -> (r: String)
    ensures
        r@ == spec_default_injected_polyfill_name(),
{
    String::from_str("__polyfill__")
}

/// The resolved configuration of one run.
pub struct Manifest {
    pub input: String,
    pub output: String,
    pub file_extension: Option<String>,
    pub target_version: TargetVersion,
    pub injected_polyfill_name: String,
    pub minify: bool,
    pub modifiers: ConfigMap,
    pub polyfills: Vec<Polyfill>,
}

/// A manifest is well formed when its modifier map has unique keys.
pub open spec fn spec_manifest_wf(m: &Manifest) -> bool {
    spec_unique_keys(spec_entries(&m.modifiers))
}

impl Manifest {
    pub fn input(&self) -> (r: &String)
        ensures
            r == &self.input,
    {
        &self.input
    }

    pub fn output(&self) -> (r: &String)
        ensures
            r == &self.output,
    {
        &self.output
    }

    pub fn file_extension(&self) -> (r: &Option<String>)
        ensures
            r == &self.file_extension,
    {
        &self.file_extension
    }

    pub fn modifiers(&self) -> (r: &ConfigMap)
        ensures
            r == &self.modifiers,
    {
        &self.modifiers
    }

    pub fn target_version(&self) -> (r: &TargetVersion)
        ensures
            r == &self.target_version,
    {
        &self.target_version
    }

    pub fn injected_polyfill_name(&self) -> (r: &String)
        ensures
            r == &self.injected_polyfill_name,
    {
        &self.injected_polyfill_name
    }

    pub fn polyfills(&self) -> (r: &Vec<Polyfill>)
        ensures
            r == &self.polyfills,
    {
        &self.polyfills
    }
}

impl Default for Manifest {
    /// The defaults a fresh manifest is written with: one default polyfill,
    /// minification on, the newest supported base dialect, no modifier
    /// overrides.
    fn default() -> (r: Self)
        ensures
            r.input@ == "input.luau"@,
            r.output@ == "output.lua"@,
            r.file_extension matches Option::Some(e) && e@ == "lua"@,
            r.target_version == TargetVersion::Lua53,
            r.injected_polyfill_name@ == spec_default_injected_polyfill_name(),
            r.minify == true,
            spec_entries(&r.modifiers) == Seq::<(Seq<char>, bool)>::empty(),
            r.polyfills@.len() == 1,
            r.polyfills@[0].location@ == Seq::<char>::empty(),
            spec_entries(&r.polyfills@[0].config) == Seq::<(Seq<char>, bool)>::empty(),
            r.polyfills@[0].exports@.len() == 0,
            spec_manifest_wf(&r),
    {
        let mut polyfills: Vec<Polyfill> = Vec::new();
        polyfills.push(Polyfill::default());
        Manifest {
            input: String::from_str("input.luau"),
            output: String::from_str("output.lua"),
            file_extension: Option::Some(String::from_str("lua")),
            target_version: TargetVersion::Lua53,
            injected_polyfill_name: default_injected_polyfill_name(),
            minify: true,
            modifiers: ConfigMap::new(),
            polyfills,
        }
    }
}

} // verus!
