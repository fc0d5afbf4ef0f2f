use jev_game_engine::live::{
    deferred_may_start, health_guard, is_flight, live_goal_accepted, movement_expired,
    snapshot_due, spawn_overdue, ticks_stale, HealthGuard,
};
use jev_game_engine::model::{Candidate, Position};

fn position(x: f64, y: f64, z: f64) -> Position {
    Position {
        x_bits: x.to_bits(),
        y_bits: y.to_bits(),
        z_bits: z.to_bits(),
    }
}

fn candidate(id: &str, target: Option<Position>, duration_ms: u64) -> Candidate {
    Candidate {
        id: id.into(),
        description: String::new(),
        target,
        duration_ms,
    }
}

#[test]
fn game_ticks_go_stale_after_half_a_second() {
    assert!(!ticks_stale(1_500, 1_000));
    assert!(ticks_stale(1_501, 1_000));
    assert!(!ticks_stale(0, 1_000), "a clock that reads earlier is not stale");
}

#[test]
fn the_spawn_is_overdue_only_before_it_happened_and_after_twenty_seconds() {
    assert!(!spawn_overdue(false, 20_000, 0));
    assert!(spawn_overdue(false, 20_001, 0));
    assert!(!spawn_overdue(true, 90_000, 0));
}

#[test]
fn observations_are_taken_every_quarter_second_once_spawned() {
    assert!(snapshot_due(true, 1_250, 1_000));
    assert!(!snapshot_due(true, 1_249, 1_000));
    assert!(!snapshot_due(false, 9_000, 1_000));
}

#[test]
fn running_movement_stops_at_its_deadline_or_on_stale_ticks() {
    assert!(!movement_expired(None, 9_000, true));
    assert!(!movement_expired(Some(2_000), 1_999, false));
    assert!(movement_expired(Some(2_000), 2_000, false));
    assert!(movement_expired(Some(2_000), 100, true));
}

#[test]
fn a_flight_goal_keeps_running_under_fire_and_other_hits_stop() {
    assert_eq!(health_guard(true, true, true, true), HealthGuard::HitDuringFlight);
    assert_eq!(health_guard(true, true, false, true), HealthGuard::Stop);
    assert_eq!(health_guard(true, true, true, false), HealthGuard::Stop);
    assert_eq!(health_guard(false, true, true, true), HealthGuard::Stop);
    assert_eq!(health_guard(false, false, false, false), HealthGuard::Stop);
    assert_eq!(health_guard(true, false, true, true), HealthGuard::Unharmed);
}

#[test]
fn a_deferred_action_starts_only_in_its_own_spawned_world() {
    let overworld = Some("minecraft:overworld".to_string());
    let nether = Some("minecraft:the_nether".to_string());
    assert!(deferred_may_start(true, false, 3, 3, &overworld, &overworld));
    assert!(!deferred_may_start(false, false, 3, 3, &overworld, &overworld));
    assert!(!deferred_may_start(true, true, 3, 3, &overworld, &overworld));
    assert!(!deferred_may_start(true, false, 2, 3, &overworld, &overworld));
    assert!(!deferred_may_start(true, false, 3, 3, &overworld, &nether));
    assert!(!deferred_may_start(true, false, 3, 3, &overworld, &None));
}

#[test]
fn the_live_executor_accepts_only_bounded_reachable_standable_goals() {
    let near = Some(position(3.5, 64.0, 0.5));
    assert!(live_goal_accepted(10, 11, &candidate("waypoint_0", near.clone(), 2_000), true, true, true));
    assert!(!live_goal_accepted(11, 11, &candidate("waypoint_0", near.clone(), 2_000), true, true, true));
    assert!(!live_goal_accepted(10, 11, &candidate("waypoint_0", near.clone(), 0), true, true, true));
    assert!(!live_goal_accepted(10, 11, &candidate("waypoint_0", near.clone(), 10_001), true, true, true));
    assert!(!live_goal_accepted(10, 11, &candidate("waypoint_0", near.clone(), 2_000), false, true, true));
    assert!(!live_goal_accepted(10, 11, &candidate("waypoint_0", near.clone(), 2_000), true, false, true));
    assert!(!live_goal_accepted(10, 11, &candidate("waypoint_0", near, 2_000), true, true, false));
    let far = Some(position(30_000_000.0, 64.0, 0.0));
    assert!(!live_goal_accepted(10, 11, &candidate("waypoint_0", far, 2_000), true, true, true));
    let nan = Some(position(f64::NAN, 64.0, 0.0));
    assert!(!live_goal_accepted(10, 11, &candidate("waypoint_0", nan, 2_000), true, true, true));
    assert!(live_goal_accepted(10, 11, &candidate("wait", None, 2_000), true, false, false));
    assert!(live_goal_accepted(10, 11, &candidate("stop", None, 2_000), true, false, false));
    assert!(!live_goal_accepted(10, 11, &candidate("navigate", None, 2_000), true, true, true));
}

#[test]
fn flight_goals_are_named_by_their_prefix() {
    assert!(is_flight(&candidate("flee_0", None, 2_000)));
    assert!(!is_flight(&candidate("waypoint_0", None, 2_000)));
    assert!(!is_flight(&candidate("fle", None, 2_000)));
}
