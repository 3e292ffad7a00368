//! Resource bundle construction stubs.

use vstd::prelude::*;

verus! {

/// A bundle of resources that has not been loaded yet.
pub struct UnloadedBundle;

impl UnloadedBundle {
    fn new() -> UnloadedBundle {
        UnloadedBundle
    }
}

/// Builder that will assemble a resource bundle from its sources.
pub struct ResourceBundleBuilder {
    bundle: UnloadedBundle,
}

impl ResourceBundleBuilder {
    pub fn new() -> ResourceBundleBuilder {
        ResourceBundleBuilder { bundle: UnloadedBundle::new() }
    }

    pub fn load_dynamic(self, path: String) {
    }
}

} // verus!
