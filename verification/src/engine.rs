//! The allocation engine: applies point-assignment requests to a build,
//! accepting a request exactly when the track's candidate value stays in
//! bounds, and recording every accepted request in the history.

use vstd::prelude::*;

use crate::privileges::initial_points;
use crate::privileges::initial_privileges;
use crate::privileges::privileges_after;
use crate::privileges::step_ok;
use crate::privileges::PrivilegePoint;
use crate::CouncilRank;

verus! {

/// Owns the single live build and serializes all mutation of it.
#[derive(Debug)]
pub struct CouncilRankEngine {
    pub council_rank: CouncilRank,
}

impl Default for CouncilRankEngine {
    /// An engine holding the seeded initial build.
    fn default() -> (r: CouncilRankEngine)
        ensures
            r.council_rank.privileges == initial_privileges(),
            r.council_rank.privilege_points@ == initial_points(),
    {
        CouncilRankEngine { council_rank: CouncilRank::default() }
    }
}

impl CouncilRankEngine {
    /// Request one point on `point`. An in-bounds candidate advances the
    /// track and appends `point` to the history; an out-of-bounds candidate
    /// is a silent no-op. The global point budget is deliberately not
    /// enforced here: the UI disables every control once it is reached.
    pub fn add_privilege_point(&mut self, point: PrivilegePoint)
        requires
            point is CraftingCapacity
                ==> old(self).council_rank.privileges.crafting_capacity < usize::MAX,
        ensures
            final(self).council_rank.privileges == privileges_after(
                old(self).council_rank.privileges,
                point,
            ),
            step_ok(old(self).council_rank.privileges, point)
                ==> final(self).council_rank.privilege_points@
                == old(self).council_rank.privilege_points@.push(point),
            !step_ok(old(self).council_rank.privileges, point)
                ==> final(self).council_rank.privilege_points@
                == old(self).council_rank.privilege_points@,
    {
        let privileges = self.council_rank.privileges.add(point);

        if privileges != self.council_rank.privileges {
            self.council_rank.privileges = privileges;
            self.council_rank.privilege_points.push(point);
        }
    }
}

} // verus!
