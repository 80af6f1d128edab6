//! UI-facing state: the engine with its single live build, a click counter,
//! the disabled-control queries, and token export/import.

use vstd::prelude::*;

use crate::codec::base64_url_of;
use crate::codec::decode;
use crate::codec::decode_spec;
use crate::codec::encode;
use crate::codec::hex_of;
use crate::codec::DecodeError;
use crate::codec::MAX_TOKEN_POINTS;
use crate::engine::CouncilRankEngine;
use crate::jsontext::json_of;
use crate::privileges::initial_points;
use crate::privileges::initial_privileges;
use crate::privileges::privileges_after;
use crate::privileges::step_ok;
use crate::privileges::PrivilegePoint;
use crate::privileges::Privileges;
use crate::privileges::MAX_CONCURRENT_FLEETS;
use crate::privileges::MAX_EXPEDITED_RESCUE_HALVES;
use crate::privileges::MAX_FLEET_SIZE;
use crate::privileges::MAX_PRIVILEGE_POINTS;
use crate::privileges::MAX_STARPATH_PASS_HALVES;

verus! {

/// One caller's view of the engine: the live build plus a counter of
/// point-assignment requests made so far.
#[derive(Debug)]
pub struct State {
    pub counter: usize,
    pub engine: CouncilRankEngine,
}

impl State {
    /// Current track values of the live build.
    pub open spec fn spec_privileges(self) -> Privileges {
        self.engine.council_rank.privileges
    }

    /// Assignment history of the live build.
    pub open spec fn spec_points(self) -> Seq<PrivilegePoint> {
        self.engine.council_rank.privilege_points@
    }
}

impl Default for State {
    /// A fresh state around the seeded initial build.
    fn default() -> (r: State)
        ensures
            r.counter == 0,
            r.spec_privileges() == initial_privileges(),
            r.spec_points() == initial_points(),
    {
        State { counter: 0, engine: CouncilRankEngine::default() }
    }
}

impl State {
    /// Whether the global point budget is spent and every control is
    /// disabled.
    pub fn disabled_all(&self) -> (r: bool)
        ensures
            r == (self.spec_points().len() >= MAX_PRIVILEGE_POINTS),
    {
        self.privilege_points_counter() >= MAX_PRIVILEGE_POINTS
    }

    /// Whether the concurrent-fleets track is at its ceiling.
    pub fn disabled_concurent_fleet(&self) -> (r: bool)
        ensures
            r == (self.spec_privileges().concurrent_fleets >= MAX_CONCURRENT_FLEETS),
    {
        let privileges = self.council_rank_privileges();
        privileges.concurrent_fleets >= MAX_CONCURRENT_FLEETS
    }

    /// Whether the fleet-size track is at its ceiling.
    pub fn disabled_fleet_size(&self) -> (r: bool)
        ensures
            r == (self.spec_privileges().fleet_size >= MAX_FLEET_SIZE),
    {
        let privileges = self.council_rank_privileges();
        privileges.fleet_size >= MAX_FLEET_SIZE
    }

    /// Whether the starpath-pass track is at its 25.0 percent ceiling.
    pub fn disabled_starpass_path(&self) -> (r: bool)
        ensures
            r == (self.spec_privileges().starpath_pass_halves >= MAX_STARPATH_PASS_HALVES),
    {
        let privileges = self.council_rank_privileges();
        privileges.starpath_pass_halves >= MAX_STARPATH_PASS_HALVES
    }

    /// Whether the expedited-rescue track is at its 25.0 percent ceiling.
    pub fn disabled_expedited_rescue(&self) -> (r: bool)
        ensures
            r == (self.spec_privileges().expedited_rescue_halves
                >= MAX_EXPEDITED_RESCUE_HALVES),
    {
        let privileges = self.council_rank_privileges();
        privileges.expedited_rescue_halves >= MAX_EXPEDITED_RESCUE_HALVES
    }

    /// Requests one point on `point`; in-bounds candidates advance the track
    /// and extend the history, out-of-bounds candidates change nothing.
    pub fn add_privilege_point(&mut self, point: PrivilegePoint)
        requires
            point is CraftingCapacity
                ==> old(self).spec_privileges().crafting_capacity < usize::MAX,
        ensures
            final(self).counter == old(self).counter,
            final(self).spec_privileges() == privileges_after(
                old(self).spec_privileges(),
                point,
            ),
            step_ok(old(self).spec_privileges(), point)
                ==> final(self).spec_points() == old(self).spec_points().push(point),
            !step_ok(old(self).spec_privileges(), point)
                ==> final(self).spec_points() == old(self).spec_points(),
    {
        self.engine.add_privilege_point(point);
    }

    /// Discards the live build and replaces it with a fresh seeded initial
    /// state; never fails.
    pub fn reset(&mut self)
        ensures
            final(self).counter == 0,
            final(self).spec_privileges() == initial_privileges(),
            final(self).spec_points() == initial_points(),
    {
        self.counter = 0;
        self.engine = CouncilRankEngine::default();
    }

    /// The shareable token of the live build; decoding it restores exactly
    /// this build.
    pub fn council_rank_base64_url_safe(&self) -> (r: String)
        requires
            self.spec_points().len() <= MAX_TOKEN_POINTS,
        ensures
            r@ == base64_url_of(hex_of(json_of(self.spec_privileges(), self.spec_points()))),
            decode_spec(r@) == Ok::<(Privileges, Seq<PrivilegePoint>), DecodeError>(
                (self.spec_privileges(), self.spec_points()),
            ),
    {
        encode(&self.engine.council_rank)
    }

    /// Replaces the live build wholesale with the one a token describes; on
    /// any decode failure the current build stays as it was and the layer's
    /// error is returned.
    pub fn load_council_rank_from_base64_url_safe(&mut self, base64_url_safe: String) -> (r:
        Result<(), DecodeError>)
        ensures
            match r {
                Ok(u) => decode_spec(base64_url_safe@) == Ok::<
                    (Privileges, Seq<PrivilegePoint>),
                    DecodeError,
                >((final(self).spec_privileges(), final(self).spec_points()))
                    && final(self).counter == old(self).counter,
                Err(e) => decode_spec(base64_url_safe@) == Err::<
                    (Privileges, Seq<PrivilegePoint>),
                    DecodeError,
                >(e) && final(self).counter == old(self).counter && final(self).spec_privileges()
                    == old(self).spec_privileges() && final(self).spec_points() == old(
                    self,
                ).spec_points(),
            },
    {
        match decode(base64_url_safe.as_str()) {
            Ok(rank) => {
                self.engine.council_rank = rank;
                Ok(())
            },
            Err(e) => Err(e),
        }
    }

    /// Current track values, read-only.
    pub fn council_rank_privileges(&self) -> (r: &Privileges)
        ensures
            *r == self.spec_privileges(),
    {
        &self.engine.council_rank.privileges
    }

    /// The ordered assignment history, read-only.
    pub fn council_rank_privilege_points(&self) -> (r: &Vec<PrivilegePoint>)
        ensures
            r@ == self.spec_points(),
    {
        &self.engine.council_rank.privilege_points
    }

    /// Total accepted assignments.
    pub fn privilege_points_counter(&self) -> (r: usize)
        ensures
            r == self.spec_points().len(),
    {
        self.engine.council_rank.privilege_points.len()
    }
}

} // verus!
