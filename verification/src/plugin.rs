//! The plugin API surface.

use vstd::prelude::*;

verus! {

/// What every Iris plugin provides.
pub trait IrisPlugin: Send + Sync {
    /// The plugin's version, as a semver string.
    fn version(&self) -> &str;

    /// The plugin's name, for people to read.
    fn name(&self) -> &str;
}

} // verus!
