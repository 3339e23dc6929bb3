//! Core logic for maintaining a locally patched, filtered mirror of an
//! upstream source tree: a commit pin plus an ordered patch series are
//! turned into a patched working tree, the series can be extracted back
//! out of that tree, and a filtered subset of the packaged tree is
//! vendored into the host project.
//!
//! The library plans and checks each phase; the surrounding binary runs
//! the external tools (the version-control tool, the packaging script,
//! the mirroring copy tool) and feeds their observable results back in.

pub mod errors;
pub mod model;
pub mod pin;
pub mod plan;
pub mod series;
pub mod staging;

use vstd::prelude::*;

verus! {

} // verus!
