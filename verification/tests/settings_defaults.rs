use jev_game_engine::model::{FixtureWaypoint, Mode, Settings};

#[test]
fn settings_default_to_no_objective_and_no_reflex() {
    let settings = Settings::default();
    assert!(settings.objective.is_empty());
    assert_eq!(settings.request_interval_ms, 0);
    assert!(!settings.safety_reflex);
}

#[test]
fn the_default_session_keeps_the_distant_fixture_waypoint() {
    assert_eq!(
        Settings::default().fixture_waypoint,
        FixtureWaypoint::Distant
    );
    assert_eq!(FixtureWaypoint::default(), FixtureWaypoint::Distant);
}

#[test]
fn default_settings_are_an_offline_demo_with_bounded_budgets() {
    let settings = Settings::default();
    assert_eq!(settings.mode, Mode::Demo);
    assert_eq!(settings.port, 25565);
    assert_eq!(settings.bot_name, "JevBot");
    assert_eq!(settings.max_requests, 30);
    assert_eq!(settings.max_seconds, 300);
    assert!(!settings.legacy_forwarding);
}
