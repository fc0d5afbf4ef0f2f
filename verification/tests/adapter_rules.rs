use jev_game_engine::adapter::{
    completion, fixture_accepts, may_execute, settlement, target_in_world, Completion,
    Settlement, EXPIRED_DURING_VALIDATION,
};
use jev_game_engine::engine::{
    first_flight, goal_duration, landmark_offered, navigable_count, navigation_note,
    wait_candidate, waypoint_count, waypoint_id, waypoint_indices,
};
use jev_game_engine::model::{Candidate, Landmark, Mode, Position};
use jev_game_engine::provider::usable_api_key;

#[test]
fn deadline_expiring_during_execution_rolls_back_queued_action() {
    assert!(may_execute(0, 5, false));
    assert_eq!(completion(Ok(()), 10, 5), Completion::RollBack);
    assert_eq!(completion(Ok(()), 4, 5), Completion::Acknowledge(4));
    assert_eq!(completion(Err("busy"), 4, 5), Completion::Refuse("busy"));
    assert!(!may_execute(5, 5, false));
    assert!(!may_execute(0, 5, true), "a cancelled request is never executed");
    assert!(EXPIRED_DURING_VALIDATION.contains("during validation"));
}

fn position(x: f64, y: f64, z: f64) -> Position {
    Position {
        x_bits: x.to_bits(),
        y_bits: y.to_bits(),
        z_bits: z.to_bits(),
    }
}

fn candidate(id: &str, target: Option<Position>, duration_ms: u64) -> Candidate {
    Candidate {
        id: id.into(),
        description: String::new(),
        target,
        duration_ms,
    }
}

#[test]
fn invalid_durations_and_targets_do_not_move_the_fixture() {
    let near = Some(position(3.0, 64.0, 0.0));
    assert!(fixture_accepts(&candidate("waypoint_0", near, 2_000), false, true, true));
    for duration in [0, 10_001] {
        assert!(!fixture_accepts(&candidate("waypoint_0", near, duration), false, true, true));
    }
    assert!(fixture_accepts(&candidate("wait", None, 1), false, true, false));
    assert!(fixture_accepts(&candidate("stop", None, 10_000), false, true, false));
    assert!(
        !fixture_accepts(&candidate("dance", None, 2_000), false, true, true),
        "an unsupported target-less command is rejected"
    );
    assert!(!fixture_accepts(&candidate("waypoint_0", near, 2_000), false, true, false));
    assert!(!fixture_accepts(&candidate("waypoint_0", near, 2_000), false, false, true));
    assert!(!fixture_accepts(&candidate("waypoint_0", near, 2_000), true, true, true));
    for bad in [f64::NAN, f64::INFINITY, 3.0e7, -3.0e7] {
        assert!(!target_in_world(&position(bad, 64.0, 0.0)));
        assert!(!fixture_accepts(
            &candidate("waypoint_0", Some(position(0.0, bad, 0.0)), 2_000),
            false,
            true,
            true
        ));
    }
    assert!(target_in_world(&position(-2.9e7, 64.0, 2.9e7)));
}

#[test]
fn candidates_are_bounded_and_waiting_is_always_offered() {
    assert_eq!(goal_duration(0), 1);
    assert_eq!(goal_duration(60_000), 10_000);
    assert_eq!(goal_duration(2_000), 2_000);
    let wait = wait_candidate(60_000);
    assert_eq!(wait.id, "wait");
    assert_eq!(wait.description, "Wait without moving");
    assert_eq!(wait.duration_ms, 10_000);
    assert_eq!(waypoint_id(12), "waypoint_12");
    let eligible = [true, false, true, true, true, true, true, true, true, true, true];
    assert_eq!(waypoint_indices(&eligible), vec![0, 2, 3, 4, 5, 6, 7, 8]);
    let live_block = Landmark {
        name: "minecraft:stone".into(),
        position: position(1.0, 64.0, 1.0),
    };
    assert!(landmark_offered(Mode::Demo, &live_block));
    assert!(!landmark_offered(Mode::Live, &live_block));
    let waypoint = Landmark {
        name: "waypoint:3:64:0".into(),
        position: position(3.0, 64.0, 0.0),
    };
    assert!(landmark_offered(Mode::Live, &waypoint));
    let broken = Landmark {
        name: "waypoint:x".into(),
        position: position(f64::NAN, 64.0, 0.0),
    };
    assert!(!landmark_offered(Mode::Demo, &broken));
}

#[test]
fn configured_keys_are_trimmed_and_checked() {
    assert_eq!(usable_api_key("  sk-test \n").as_deref(), Some("sk-test"));
    assert_eq!(usable_api_key("   "), None);
    assert_eq!(usable_api_key("sk\u{7}test"), None);
    assert_eq!(usable_api_key(&"k".repeat(16_385)), None);
    assert_eq!(usable_api_key(&"k".repeat(16_384)).map(|k| k.len()), Some(16_384));
}

#[test]
fn a_request_without_navigation_states_why() {
    let blocks = vec![
        Landmark {
            name: "waypoint:1:64:0".into(),
            position: position(1.5, 64.0, 0.5),
        },
        Landmark {
            name: "minecraft:stone".into(),
            position: position(2.0, 63.0, 0.0),
        },
    ];
    assert_eq!(waypoint_count(Mode::Live, &blocks), 1);
    assert_eq!(waypoint_count(Mode::Demo, &blocks), 2);
    assert_eq!(waypoint_count(Mode::Live, &[]), 0);
    let offered = vec![
        candidate("waypoint_0", Some(position(3.0, 64.0, 0.0)), 2_000),
        candidate("wait", None, 2_000),
    ];
    assert_eq!(navigable_count(&offered), 1);
    assert_eq!(navigable_count(&offered[1..]), 0);
    assert_eq!(navigation_note(1, 1), "");
    assert_eq!(
        navigation_note(1, 0),
        "; no navigate candidate: 1 observed waypoints, none between 0.6 and 12 blocks away"
    );
}

#[test]
fn the_reflex_takes_the_first_ranked_flight_goal() {
    let offered = vec![
        candidate("waypoint_0", Some(position(3.0, 64.0, 0.0)), 2_000),
        candidate("flee_1", Some(position(-3.0, 64.0, 0.0)), 2_000),
        candidate("flee_0", Some(position(0.0, 64.0, -3.0)), 2_000),
        candidate("wait", None, 2_000),
    ];
    assert_eq!(first_flight(&offered), Some(1));
    assert_eq!(first_flight(&offered[3..]), None);
}

#[test]
fn cancellation_during_execution_rolls_back_before_acceptance() {
    // The requester waits when the action is queued and is gone when it is acknowledged.
    assert!(may_execute(0, 1_000, false));
    let queued = completion(Ok(()), 3, 1_000);
    assert_eq!(queued, Completion::Acknowledge(3));
    assert_eq!(settlement(queued, false), Settlement::RolledBack);
    assert_eq!(settlement(queued, true), Settlement::Kept);
    assert_eq!(settlement(completion(Ok(()), 1_000, 1_000), true), Settlement::RolledBack);
    assert_eq!(settlement(completion(Err("refused"), 3, 1_000), true), Settlement::NotQueued);
}
