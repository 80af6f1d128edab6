//! The five privilege tracks, their bound table, and the single-step
//! update that an accepted point assignment applies to the current values.
//!
//! The two percentage tracks advance in steps of one half percent, so their
//! values are carried as whole numbers of half-percent units: a stored value
//! of `h` stands for `h * 0.5` percent, and the `25.0` ceiling is 50 units.

use vstd::prelude::*;

verus! {

/// Global point budget; the UI disables every control once the history
/// reaches this many assignments.
pub const MAX_PRIVILEGE_POINTS: usize = 142;

pub const MIN_CONCURRENT_FLEETS: usize = 1;
pub const MAX_CONCURRENT_FLEETS: usize = 50;
pub const MIN_FLEET_SIZE: usize = 1;
pub const MAX_FLEET_SIZE: usize = 100;
pub const MIN_CRAFTING_CAPACITY: usize = 1;
/// Half-percent units: 0 units is 0.0 percent.
pub const MIN_STARPATH_PASS_HALVES: usize = 0;
/// Half-percent units: 50 units is the 25.0 percent ceiling.
pub const MAX_STARPATH_PASS_HALVES: usize = 50;
pub const MIN_EXPEDITED_RESCUE_HALVES: usize = 0;
pub const MAX_EXPEDITED_RESCUE_HALVES: usize = 50;

pub const PER_POINT_CONCURRENT_FLEETS: usize = 1;
pub const PER_POINT_FLEET_SIZE: usize = 1;
pub const PER_POINT_CRAFTING_CAPACITY: usize = 1;
/// One accepted assignment adds one half-percent unit (0.5 percent).
pub const PER_POINT_STARPATH_PASS_HALVES: usize = 1;
pub const PER_POINT_EXPEDITED_RESCUE_HALVES: usize = 1;

/// The closed set of privilege tracks.
#[derive(Clone, Copy, Debug, PartialEq, Eq, Structural)]
pub enum PrivilegePoint {
    ConcurrentFleets,
    FleetSize,
    CraftingCapacity,
    StarpathPass,
    ExpeditedRescue,
}

/// Current value of every track. The two percentage tracks are in
/// half-percent units (see the module comment).
#[derive(Clone, Copy, Debug, PartialEq, Eq, Structural)]
pub struct Privileges {
    pub concurrent_fleets: usize,
    pub fleet_size: usize,
    pub crafting_capacity: usize,
    pub starpath_pass_halves: usize,
    pub expedited_rescue_halves: usize,
}

/// The seeded initial values: every track at its floor.
pub open spec fn initial_privileges() -> Privileges {
    Privileges {
        concurrent_fleets: MIN_CONCURRENT_FLEETS,
        fleet_size: MIN_FLEET_SIZE,
        crafting_capacity: MIN_CRAFTING_CAPACITY,
        starpath_pass_halves: MIN_STARPATH_PASS_HALVES,
        expedited_rescue_halves: MIN_EXPEDITED_RESCUE_HALVES,
    }
}

/// The seeded initial history: one assignment for each integer track,
/// in this fixed order.
pub open spec fn initial_points() -> Seq<PrivilegePoint> {
    seq![
        PrivilegePoint::ConcurrentFleets,
        PrivilegePoint::FleetSize,
        PrivilegePoint::CraftingCapacity,
    ]
}

/// Whether one more point on `t` keeps the track inside its bound interval.
/// Only `CraftingCapacity` has no ceiling.
pub open spec fn step_ok(p: Privileges, t: PrivilegePoint) -> bool {
    match t {
        PrivilegePoint::ConcurrentFleets => p.concurrent_fleets < MAX_CONCURRENT_FLEETS,
        PrivilegePoint::FleetSize => p.fleet_size < MAX_FLEET_SIZE,
        PrivilegePoint::CraftingCapacity => true,
        PrivilegePoint::StarpathPass => p.starpath_pass_halves < MAX_STARPATH_PASS_HALVES,
        PrivilegePoint::ExpeditedRescue => p.expedited_rescue_halves
            < MAX_EXPEDITED_RESCUE_HALVES,
    }
}

/// Values after a request for one point on `t`: the track advances by its
/// step when the result stays in bounds, and nothing changes otherwise.
pub open spec fn privileges_after(p: Privileges, t: PrivilegePoint) -> Privileges {
    if step_ok(p, t) {
        match t {
            PrivilegePoint::ConcurrentFleets => Privileges {
                concurrent_fleets: (p.concurrent_fleets + PER_POINT_CONCURRENT_FLEETS) as usize,
                ..p
            },
            PrivilegePoint::FleetSize => Privileges {
                fleet_size: (p.fleet_size + PER_POINT_FLEET_SIZE) as usize,
                ..p
            },
            PrivilegePoint::CraftingCapacity => Privileges {
                crafting_capacity: (p.crafting_capacity + PER_POINT_CRAFTING_CAPACITY) as usize,
                ..p
            },
            PrivilegePoint::StarpathPass => Privileges {
                starpath_pass_halves: (p.starpath_pass_halves
                    + PER_POINT_STARPATH_PASS_HALVES) as usize,
                ..p
            },
            PrivilegePoint::ExpeditedRescue => Privileges {
                expedited_rescue_halves: (p.expedited_rescue_halves
                    + PER_POINT_EXPEDITED_RESCUE_HALVES) as usize,
                ..p
            },
        }
    } else {
        p
    }
}

/// Well-formed values: every track inside its closed bound interval.
pub open spec fn wf_privileges(p: Privileges) -> bool {
    &&& MIN_CONCURRENT_FLEETS <= p.concurrent_fleets <= MAX_CONCURRENT_FLEETS
    &&& MIN_FLEET_SIZE <= p.fleet_size <= MAX_FLEET_SIZE
    &&& MIN_CRAFTING_CAPACITY <= p.crafting_capacity
    &&& p.starpath_pass_halves <= MAX_STARPATH_PASS_HALVES
    &&& p.expedited_rescue_halves <= MAX_EXPEDITED_RESCUE_HALVES
}

/// Whether `t` stands at its ceiling in `p`. `CraftingCapacity` has none.
pub open spec fn at_ceiling(p: Privileges, t: PrivilegePoint) -> bool {
    match t {
        PrivilegePoint::ConcurrentFleets => p.concurrent_fleets >= MAX_CONCURRENT_FLEETS,
        PrivilegePoint::FleetSize => p.fleet_size >= MAX_FLEET_SIZE,
        PrivilegePoint::CraftingCapacity => false,
        PrivilegePoint::StarpathPass => p.starpath_pass_halves >= MAX_STARPATH_PASS_HALVES,
        PrivilegePoint::ExpeditedRescue => p.expedited_rescue_halves
            >= MAX_EXPEDITED_RESCUE_HALVES,
    }
}

/// The seeded initial values are well formed.
pub proof fn lemma_initial_wf()
    ensures
        wf_privileges(initial_privileges()),
{
}

/// A point assignment never drives a track outside its bound interval, a
/// request is refused exactly at the ceiling, and a refused request leaves
/// the values exactly unchanged.
pub proof fn lemma_assign_preserves_bounds(p: Privileges, t: PrivilegePoint)
    requires
        wf_privileges(p),
        t is CraftingCapacity ==> p.crafting_capacity < usize::MAX,
    ensures
        wf_privileges(privileges_after(p, t)),
        step_ok(p, t) <==> !at_ceiling(p, t),
        at_ceiling(p, t) ==> privileges_after(p, t) == p,
{
}

/// `CraftingCapacity` has no ceiling: every request on it is accepted and
/// raises the value by exactly one.
pub proof fn lemma_crafting_unbounded(p: Privileges)
    requires
        p.crafting_capacity < usize::MAX,
    ensures
        step_ok(p, PrivilegePoint::CraftingCapacity),
        privileges_after(p, PrivilegePoint::CraftingCapacity).crafting_capacity
            == p.crafting_capacity + 1,
{
}

/// On the two percentage tracks an accepted request adds exactly one
/// half-percent unit (0.5 percent), and a value at 25.0 percent (50 units)
/// blocks any further increase.
pub proof fn lemma_half_step(p: Privileges, t: PrivilegePoint)
    requires
        t is StarpathPass || t is ExpeditedRescue,
    ensures
        t is StarpathPass ==> (step_ok(p, t) <==> p.starpath_pass_halves
            < MAX_STARPATH_PASS_HALVES),
        t is StarpathPass && step_ok(p, t) ==> privileges_after(p, t).starpath_pass_halves
            == p.starpath_pass_halves + 1,
        t is ExpeditedRescue ==> (step_ok(p, t) <==> p.expedited_rescue_halves
            < MAX_EXPEDITED_RESCUE_HALVES),
        t is ExpeditedRescue && step_ok(p, t) ==> privileges_after(
            p,
            t,
        ).expedited_rescue_halves == p.expedited_rescue_halves + 1,
        !step_ok(p, t) ==> privileges_after(p, t) == p,
{
}

/// `value` lies inside the closed interval given by the optional bounds.
pub open spec fn in_range(value: usize, min: Option<usize>, max: Option<usize>) -> bool {
    &&& (min matches Some(m) ==> value >= m)
    &&& (max matches Some(m) ==> value <= m)
}

/// The seeded initial history as a vector.
pub fn default_privilege_points() -> (r: Vec<PrivilegePoint>)
    ensures
        r@ == initial_points(),
{
    let mut vec: Vec<PrivilegePoint> = Vec::new();
    vec.push(PrivilegePoint::ConcurrentFleets);
    vec.push(PrivilegePoint::FleetSize);
    vec.push(PrivilegePoint::CraftingCapacity);
    proof {
        assert(vec@ =~= initial_points());
    }
    vec
}

/// Closed-interval bound check with optional endpoints.
pub fn validate_range(value: usize, min: Option<usize>, max: Option<usize>) -> (r: bool)
    ensures
        r == in_range(value, min, max),
{
    if let Some(m) = min {
        if value < m {
            return false;
        }
    }
    if let Some(m) = max {
        if value > m {
            return false;
        }
    }
    true
}

impl Default for Privileges {
    /// The seeded initial values.
    fn default() -> (r: Privileges)
        ensures
            r == initial_privileges(),
    {
        Privileges {
            concurrent_fleets: MIN_CONCURRENT_FLEETS,
            fleet_size: MIN_FLEET_SIZE,
            crafting_capacity: MIN_CRAFTING_CAPACITY,
            starpath_pass_halves: MIN_STARPATH_PASS_HALVES,
            expedited_rescue_halves: MIN_EXPEDITED_RESCUE_HALVES,
        }
    }
}

impl Privileges {
    /// Values after a request for one point on `rhs`: a candidate outside the
    /// track's bound interval leaves the values unchanged.
    ///
    /// `CraftingCapacity` has no ceiling, so its counter must have room for
    /// one more unit; the UI's global point cap keeps it far below that.
    pub fn add(self, rhs: PrivilegePoint) -> (r: Privileges)
        requires
            rhs is CraftingCapacity ==> self.crafting_capacity < usize::MAX,
        ensures
            r == privileges_after(self, rhs),
    {
        let mut next = self;
        match rhs {
            PrivilegePoint::ConcurrentFleets => {
                if let Some(value) = self.concurrent_fleets.checked_add(
                    PER_POINT_CONCURRENT_FLEETS,
                ) {
                    if validate_range(
                        value,
                        Some(MIN_CONCURRENT_FLEETS),
                        Some(MAX_CONCURRENT_FLEETS),
                    ) {
                        next.concurrent_fleets = value;
                    }
                }
            },
            PrivilegePoint::FleetSize => {
                if let Some(value) = self.fleet_size.checked_add(PER_POINT_FLEET_SIZE) {
                    if validate_range(value, Some(MIN_FLEET_SIZE), Some(MAX_FLEET_SIZE)) {
                        next.fleet_size = value;
                    }
                }
            },
            PrivilegePoint::CraftingCapacity => {
                if let Some(value) = self.crafting_capacity.checked_add(
                    PER_POINT_CRAFTING_CAPACITY,
                ) {
                    if validate_range(value, Some(MIN_CRAFTING_CAPACITY), None) {
                        next.crafting_capacity = value;
                    }
                }
            },
            PrivilegePoint::StarpathPass => {
                if let Some(value) = self.starpath_pass_halves.checked_add(
                    PER_POINT_STARPATH_PASS_HALVES,
                ) {
                    if validate_range(
                        value,
                        Some(MIN_STARPATH_PASS_HALVES),
                        Some(MAX_STARPATH_PASS_HALVES),
                    ) {
                        next.starpath_pass_halves = value;
                    }
                }
            },
            PrivilegePoint::ExpeditedRescue => {
                if let Some(value) = self.expedited_rescue_halves.checked_add(
                    PER_POINT_EXPEDITED_RESCUE_HALVES,
                ) {
                    if validate_range(
                        value,
                        Some(MIN_EXPEDITED_RESCUE_HALVES),
                        Some(MAX_EXPEDITED_RESCUE_HALVES),
                    ) {
                        next.expedited_rescue_halves = value;
                    }
                }
            },
        }
        next
    }
}

} // verus!

