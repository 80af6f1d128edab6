use sage_core::default_privilege_points;
use sage_core::privileges::PrivilegePoint;
use sage_core::state::State;
use sage_core::validate_range;

fn initial() -> State {
    State::default()
}

#[test]
fn seeded_initial_state() {
    let s = initial();
    let p = s.council_rank_privileges();
    assert_eq!(p.concurrent_fleets, 1);
    assert_eq!(p.fleet_size, 1);
    assert_eq!(p.crafting_capacity, 1);
    assert_eq!(p.starpath_pass_halves, 0);
    assert_eq!(p.expedited_rescue_halves, 0);
    assert_eq!(
        s.council_rank_privilege_points().as_slice(),
        &[
            PrivilegePoint::ConcurrentFleets,
            PrivilegePoint::FleetSize,
            PrivilegePoint::CraftingCapacity,
        ]
    );
    assert_eq!(s.privilege_points_counter(), 3);
    assert_eq!(s.counter, 0);
}

#[test]
fn default_history_order() {
    let pts = default_privilege_points();
    assert_eq!(
        pts,
        vec![
            PrivilegePoint::ConcurrentFleets,
            PrivilegePoint::FleetSize,
            PrivilegePoint::CraftingCapacity,
        ]
    );
}

#[test]
fn concurrent_fleets_stops_at_ceiling() {
    let mut s = initial();
    for _ in 0..60 {
        s.add_privilege_point(PrivilegePoint::ConcurrentFleets);
        assert!(s.council_rank_privileges().concurrent_fleets >= 1);
        assert!(s.council_rank_privileges().concurrent_fleets <= 50);
    }
    assert_eq!(s.council_rank_privileges().concurrent_fleets, 50);
    // 49 accepted out of 60 requests, on top of the 3 seeded entries.
    assert_eq!(s.privilege_points_counter(), 3 + 49);
    assert!(s.disabled_concurent_fleet());
    let len_before = s.privilege_points_counter();
    s.add_privilege_point(PrivilegePoint::ConcurrentFleets);
    assert_eq!(s.council_rank_privileges().concurrent_fleets, 50);
    assert_eq!(s.privilege_points_counter(), len_before);
}

#[test]
fn fleet_size_stops_at_ceiling() {
    let mut s = initial();
    for _ in 0..120 {
        s.add_privilege_point(PrivilegePoint::FleetSize);
        assert!(s.council_rank_privileges().fleet_size <= 100);
    }
    assert_eq!(s.council_rank_privileges().fleet_size, 100);
    assert_eq!(s.privilege_points_counter(), 3 + 99);
    assert!(s.disabled_fleet_size());
    let len_before = s.privilege_points_counter();
    s.add_privilege_point(PrivilegePoint::FleetSize);
    assert_eq!(s.council_rank_privileges().fleet_size, 100);
    assert_eq!(s.privilege_points_counter(), len_before);
}

#[test]
fn crafting_capacity_has_no_ceiling() {
    let mut s = initial();
    for _ in 0..10000 {
        s.add_privilege_point(PrivilegePoint::CraftingCapacity);
    }
    assert_eq!(s.council_rank_privileges().crafting_capacity, 1 + 10000);
    assert_eq!(s.privilege_points_counter(), 3 + 10000);
}

#[test]
fn starpath_pass_half_steps_block_at_25() {
    let mut s = initial();
    for k in 1..=50u64 {
        s.add_privilege_point(PrivilegePoint::StarpathPass);
        let halves = s.council_rank_privileges().starpath_pass_halves;
        assert_eq!(halves as u64, k);
        assert_eq!(halves as f64 * 0.5, k as f64 * 0.5);
    }
    assert_eq!(s.council_rank_privileges().starpath_pass_halves, 50);
    assert_eq!(s.council_rank_privileges().starpath_pass_halves as f64 * 0.5, 25.0);
    assert!(s.disabled_starpass_path());
    let len_before = s.privilege_points_counter();
    s.add_privilege_point(PrivilegePoint::StarpathPass);
    assert_eq!(s.council_rank_privileges().starpath_pass_halves, 50);
    assert_eq!(s.privilege_points_counter(), len_before);
}

#[test]
fn expedited_rescue_half_steps_block_at_25() {
    let mut s = initial();
    for _ in 0..55 {
        s.add_privilege_point(PrivilegePoint::ExpeditedRescue);
        assert!(s.council_rank_privileges().expedited_rescue_halves <= 50);
    }
    assert_eq!(s.council_rank_privileges().expedited_rescue_halves, 50);
    assert!(s.disabled_expedited_rescue());
    let len_before = s.privilege_points_counter();
    s.add_privilege_point(PrivilegePoint::ExpeditedRescue);
    assert_eq!(s.council_rank_privileges().expedited_rescue_halves, 50);
    assert_eq!(s.privilege_points_counter(), len_before);
}

#[test]
fn two_starpath_assigns_scenario() {
    let mut s = initial();
    s.add_privilege_point(PrivilegePoint::StarpathPass);
    s.add_privilege_point(PrivilegePoint::StarpathPass);
    let p = s.council_rank_privileges();
    assert_eq!(p.starpath_pass_halves, 2);
    assert_eq!(p.starpath_pass_halves as f64 * 0.5, 1.0);
    assert_eq!(s.privilege_points_counter(), 5);
}

#[test]
fn reset_restores_seeded_initial_state() {
    let mut s = initial();
    for _ in 0..7 {
        s.add_privilege_point(PrivilegePoint::CraftingCapacity);
        s.add_privilege_point(PrivilegePoint::StarpathPass);
        s.add_privilege_point(PrivilegePoint::FleetSize);
    }
    s.counter = 21;
    s.reset();
    let fresh = initial();
    assert_eq!(s.counter, 0);
    assert_eq!(s.council_rank_privileges(), fresh.council_rank_privileges());
    assert_eq!(
        s.council_rank_privilege_points(),
        fresh.council_rank_privilege_points()
    );
}

#[test]
fn disabled_all_at_global_budget() {
    let mut s = initial();
    assert!(!s.disabled_all());
    // 139 more accepted assignments bring the history to the 142 budget.
    for _ in 0..139 {
        s.add_privilege_point(PrivilegePoint::CraftingCapacity);
    }
    assert_eq!(s.privilege_points_counter(), 142);
    assert!(s.disabled_all());
}

#[test]
fn validate_range_cases() {
    assert!(validate_range(5, Some(1), Some(10)));
    assert!(!validate_range(0, Some(1), Some(10)));
    assert!(!validate_range(11, Some(1), Some(10)));
    assert!(validate_range(1, Some(1), Some(10)));
    assert!(validate_range(10, Some(1), Some(10)));
    assert!(validate_range(123456, Some(1), None));
    assert!(validate_range(0, None, Some(3)));
    assert!(validate_range(7, None, None));
}
