//! The generator-facing data model: placements, generated layouts, and the
//! trait a pluggable layout policy implements.

use vstd::prelude::*;

verus! {

/// One placement decision for a single view: a signed location offset and an
/// unsigned width/height.
#[derive(Clone, Copy, Debug)]
pub struct ViewDimensions {
    pub location: (i32, i32),
    pub space: (u32, u32),
}

/// The transient value produced by one generator invocation: an ordered
/// sequence of placements plus a short descriptive label.  A valid reply to a
/// demand holds exactly as many placements as views were requested; the
/// adapter in [`crate::protocol`] enforces that before anything is sent.
#[derive(Debug)]
pub struct GeneratedLayout {
    pub views: Vec<ViewDimensions>,
    pub name: String,
}

/// A caller-supplied layout policy.
///
/// `namespace` declares the namespace string the generator claims on the
/// connection; `cmd` reacts to an opaque user command; `generate_layout`
/// answers one layout demand and is expected to return exactly `view_count`
/// placements.  The state machine in [`crate::state`] promises nothing about
/// what an implementation computes; it only routes values to and from it.
pub trait LayoutGenerator {
    type Err;

    fn namespace(&self) -> String;

    fn cmd(&mut self, tags: Option<u32>, output: &str, cmd: &str) -> Result<(), Self::Err>;

    fn generate_layout(
        &mut self,
        tags: u32,
        output: &str,
        usable_space: (u32, u32),
        view_count: usize,
    ) -> Result<GeneratedLayout, Self::Err>;
}

} // verus!
