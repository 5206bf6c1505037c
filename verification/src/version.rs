//! Supported base-dialect versions.
use vstd::prelude::*;

verus! {

/// The base-dialect version the output must conform to.  It decides which
/// operator forms the re-parse of intermediate files accepts; the parsing
/// itself happens outside this crate.
#[derive(Clone, Copy, PartialEq, Eq, Structural, Debug)]
pub enum TargetVersion {
    Default,
    Lua51,
    Lua52,
    Lua53,
}

} // verus!
