//! What this program is called where its releases are published.

use vstd::prelude::*;

verus! {

/// The repository on GitHub that the releases are published under.
pub const REPOSITORY: &'static str = "canmi21/rdm";

/// The application's short name, which the author's CDN files its releases under.
pub const APPLICATION: &'static str = "rdm";

} // verus!
