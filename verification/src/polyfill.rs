//! Polyfill descriptors and global-flag injection planning.
//!
//! A polyfill is external collaborator data: a source location, a mapping
//! of boolean configuration keys to their defaults, and the export names it
//! later supports.  The bundling sub-pipeline synthesizes, for each default
//! entry, a rule injecting a global boolean constant whose name is a
//! reserved prefix plus the original key; its output goes to a fixed
//! subdirectory of the polyfill source.  This module plans those pieces;
//! fetching and the rule engine run outside the library.
use vstd::prelude::*;

use crate::config::{ConfigMap, spec_entries};

verus! {

broadcast use vstd::std_specs::vec::group_vec_axioms, vstd::seq::group_seq_axioms;

/// A polyfill package description, consumed read-only.
pub struct Polyfill {
    /// Where the polyfill sources live.
    pub location: String,
    /// Boolean configuration keys and their default values.
    pub config: ConfigMap,
    /// The export names the package provides.
    pub exports: Vec<String>,
}

/// The reserved prefix of every injected global constant's name.
pub open spec fn spec_injected_prefix() -> Seq<char> {
    "DALBIT_"@
}

/// The fixed subdirectory, relative to the polyfill source, that the
/// bundled artifact is written to.
pub open spec fn spec_bundle_subdir() -> Seq<char> {
    "/bundled"@
}

/// The injected global constant's name for one configuration key.
pub fn injected_global_name(key: &String) -> (r: String)
    ensures
        r@ == spec_injected_prefix() + key@,
{
    let mut s = String::from_str("DALBIT_");
    s.append(key.as_str());
    s
}

/// One planned injection: a global name and the boolean it is set to.
pub struct Injection {
    pub name: String,
    pub value: bool,
}

impl Polyfill {
    pub fn new(location: String, config: ConfigMap, exports: Vec<String>) -> (r: Self)
        ensures
            r.location == location,
            r.config == config,
            r.exports == exports,
    {
        Polyfill { location, config, exports }
    }

    /// Plans one injection per configuration-default entry, in order.
    #[verifier::loop_isolation(false)]
    pub fn plan_injections(&self) -> (r: Vec<Injection>)
        ensures
            r@.len() == spec_entries(&self.config).len(),
            forall|i: int|
                0 <= i < r@.len() ==> r@[i].name@ == spec_injected_prefix() + spec_entries(
                    &self.config,
                )[i].0 && r@[i].value == spec_entries(&self.config)[i].1,
    {
        let mut out: Vec<Injection> = Vec::new();
        let mut i: usize = 0;
        while i < self.config.len()
            invariant
                i <= spec_entries(&self.config).len(),
                out@.len() == i as int,
                forall|j: int|
                    0 <= j < i as int ==> out@[j].name@ == spec_injected_prefix() + spec_entries(
                        &self.config,
                    )[j].0 && out@[j].value == spec_entries(&self.config)[j].1,
            decreases spec_entries(&self.config).len() - i,
        {
            let name = injected_global_name(self.config.name_at(i));
            let value = self.config.enabled_at(i);
            out.push(Injection { name, value });
            i += 1;
        }
        out
    }

    /// Where the bundled artifact of this polyfill is written.
    pub fn bundle_output_dir(&self) -> (r: String)
        ensures
            r@ == self.location@ + spec_bundle_subdir(),
    {
        let mut s = self.location.clone();
        s.append("/bundled");
        s
    }
}

impl Default for Polyfill {
    /// An empty descriptor: no location, no defaults, no exports.
    fn default() -> (r: Self)
        ensures
            r.location@ == Seq::<char>::empty(),
            spec_entries(&r.config) == Seq::<(Seq<char>, bool)>::empty(),
            r.exports@.len() == 0,
    {
        let r = Polyfill { location: String::new(), config: ConfigMap::new(), exports: Vec::new() };
        r
    }
}

} // verus!
