//! Client-side adapter for a tiling compositor's layout-generation protocol.
//!
//! A pluggable layout generator computes window placements; this crate owns
//! the protocol mechanics around it: tracking output devices, running one
//! negotiation session per output, answering layout demands with exactly the
//! requested number of placements, echoing correlation serials, and turning a
//! namespace conflict into a fatal result.  Everything here is pure logic on
//! plain values: the transport hands in typed events and carries out the
//! typed requests this crate decides on.

pub mod error;
pub mod laws;
pub mod layout;
pub mod protocol;
pub mod state;

pub use error::Error;
pub use layout::GeneratedLayout;
pub use layout::LayoutGenerator;
pub use layout::ViewDimensions;
pub use state::State;
