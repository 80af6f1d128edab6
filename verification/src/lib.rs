//! A small rules engine for allocating a bounded pool of privilege points
//! across five independently capped tracks, together with a reversible
//! text-token codec for sharing an allocation.

use vstd::prelude::*;

pub mod codec;
pub mod engine;
pub mod jsontext;
pub mod privileges;
pub mod state;

pub use privileges::default_privilege_points;
pub use privileges::validate_range;
pub use privileges::PrivilegePoint;
pub use privileges::Privileges;

verus! {

/// A full build: the current per-track values plus the ordered history of
/// every accepted point assignment.
#[derive(Debug)]
pub struct CouncilRank {
    pub privileges: Privileges,
    pub privilege_points: Vec<PrivilegePoint>,
}

impl Default for CouncilRank {
    /// The seeded initial build: minimum values with one assignment already
    /// recorded for each of the three integer tracks.
    fn default() -> (r: CouncilRank)
        ensures
            r.privileges == privileges::initial_privileges(),
            r.privilege_points@ == privileges::initial_points(),
    {
        CouncilRank {
            privileges: Privileges::default(),
            privilege_points: default_privilege_points(),
        }
    }
}

} // verus!
