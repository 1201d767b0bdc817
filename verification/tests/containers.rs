//! Containers, their state, health, statistics and actions.
use dtop::assoc::AssocMap;
use dtop::containers::{
    ContainerAction, ContainerKey, ContainerState, ContainerStats, HealthStatus, Metric, UsageLevel,
};
use std::str::FromStr;

fn metric(value: f64) -> Metric {
    Metric {
        bits: value.to_bits(),
    }
}

#[test]
fn states_are_read_without_regard_to_case() {
    assert_eq!(
        ContainerState::from_str("RUNNING"),
        Ok(ContainerState::Running)
    );
    assert_eq!(
        ContainerState::from_str("Paused"),
        Ok(ContainerState::Paused)
    );
    assert_eq!(
        ContainerState::from_str("restarting"),
        Ok(ContainerState::Restarting)
    );
    assert_eq!(
        ContainerState::from_str("REMOVING"),
        Ok(ContainerState::Removing)
    );
    assert_eq!(
        ContainerState::from_str("exited"),
        Ok(ContainerState::Exited)
    );
    assert_eq!(ContainerState::from_str("dead"), Ok(ContainerState::Dead));
    assert_eq!(
        ContainerState::from_str("Created"),
        Ok(ContainerState::Created)
    );
    assert_eq!(
        ContainerState::from_str("EMPTY"),
        Ok(ContainerState::Unknown)
    );
    assert_eq!(ContainerState::from_str(""), Ok(ContainerState::Unknown));
}

#[test]
fn names_of_states_read_back() {
    for state in [
        ContainerState::Running,
        ContainerState::Paused,
        ContainerState::Restarting,
        ContainerState::Removing,
        ContainerState::Exited,
        ContainerState::Dead,
        ContainerState::Created,
        ContainerState::Unknown,
    ] {
        assert_eq!(ContainerState::from_str(state.name()), Ok(state));
        assert_eq!(state.name(), format!("{state:?}"));
    }
}

#[test]
fn lowercasing_goes_beyond_ascii() {
    // The Kelvin sign is a k in lower case.
    assert_eq!(
        HealthStatus::from_str("UNHEALTHY \u{212a}"),
        Ok(HealthStatus::Unhealthy)
    );
    assert_eq!(
        ContainerState::from_str("\u{212a}"),
        Ok(ContainerState::Unknown)
    );
}

#[test]
fn health_is_found_in_a_text() {
    assert_eq!(
        HealthStatus::from_str("Up 2 hours (healthy)"),
        Ok(HealthStatus::Healthy)
    );
    assert_eq!(
        HealthStatus::from_str("Up 2 hours (unhealthy)"),
        Ok(HealthStatus::Unhealthy)
    );
    assert_eq!(
        HealthStatus::from_str("Up 3 seconds (health: starting)"),
        Ok(HealthStatus::Starting)
    );
    assert_eq!(
        HealthStatus::from_str("HEALTHY"),
        Ok(HealthStatus::Healthy)
    );
    assert_eq!(
        HealthStatus::from_str("healthy, then unhealthy"),
        Ok(HealthStatus::Unhealthy)
    );
    assert_eq!(HealthStatus::from_str("Up 2 hours"), Err(()));
    assert_eq!(HealthStatus::from_str(""), Err(()));
}

#[test]
fn test_percentage_style_thresholds() {
    assert_eq!(metric(30.0).usage_level(), UsageLevel::Low);
    assert_eq!(metric(65.0).usage_level(), UsageLevel::Medium);
    assert_eq!(metric(85.0).usage_level(), UsageLevel::High);

    // Test boundary cases
    assert_eq!(metric(50.0).usage_level(), UsageLevel::Low);
    assert_eq!(metric(50.1).usage_level(), UsageLevel::Medium);
    assert_eq!(metric(80.0).usage_level(), UsageLevel::Medium);
    assert_eq!(metric(80.1).usage_level(), UsageLevel::High);
}

#[test]
fn test_color_coding_boundaries() {
    assert_eq!(metric(0.0).usage_level(), UsageLevel::Low, "0%");
    assert_eq!(metric(50.0).usage_level(), UsageLevel::Low, "50%");
    assert_eq!(metric(50.1).usage_level(), UsageLevel::Medium, "50.1%");
    assert_eq!(metric(80.0).usage_level(), UsageLevel::Medium, "80%");
    assert_eq!(metric(80.1).usage_level(), UsageLevel::High, "80.1%");
    assert_eq!(metric(100.0).usage_level(), UsageLevel::High, "100%");
}

#[test]
fn usage_levels_compare_as_doubles_do() {
    for value in [
        f64::NAN,
        -f64::NAN,
        f64::INFINITY,
        f64::NEG_INFINITY,
        -0.0,
        -90.0,
        50.000000000000007,
        80.00000000000001,
        f64::MAX,
        f64::MIN_POSITIVE,
    ] {
        let expected = if value > 80.0 {
            UsageLevel::High
        } else if value > 50.0 {
            UsageLevel::Medium
        } else {
            UsageLevel::Low
        };
        assert_eq!(metric(value).usage_level(), expected, "{value}");
    }
}

#[test]
fn metrics_order_as_doubles_do() {
    let values = [
        -f64::NAN,
        f64::NEG_INFINITY,
        -1.5,
        -0.0,
        0.0,
        f64::MIN_POSITIVE,
        1.0,
        1e300,
        f64::INFINITY,
        f64::NAN,
    ];
    for a in values {
        for b in values {
            assert_eq!(
                metric(a).order_key().cmp(&metric(b).order_key()),
                a.total_cmp(&b),
                "{a} {b}"
            );
        }
    }
}

#[test]
fn statistics_start_at_zero() {
    let stats = ContainerStats::default();
    assert_eq!(stats.cpu, metric(0.0));
    assert_eq!(stats.disk_write_bytes_per_sec, metric(0.0));
    assert_eq!(stats.memory_limit_bytes, 0);
    assert_eq!(stats.pids_limit, 0);
}

#[test]
fn actions_depend_on_the_state() {
    assert_eq!(
        ContainerAction::available_for_state(&ContainerState::Running),
        vec![
            ContainerAction::Shell,
            ContainerAction::Stop,
            ContainerAction::Restart,
            ContainerAction::Remove,
        ]
    );
    assert_eq!(
        ContainerAction::available_for_state(&ContainerState::Paused),
        vec![ContainerAction::Stop, ContainerAction::Remove]
    );
    for state in [
        ContainerState::Exited,
        ContainerState::Created,
        ContainerState::Dead,
    ] {
        assert_eq!(
            ContainerAction::available_for_state(&state),
            vec![ContainerAction::Start, ContainerAction::Remove]
        );
    }
    for state in [
        ContainerState::Restarting,
        ContainerState::Removing,
        ContainerState::Unknown,
    ] {
        assert!(ContainerAction::available_for_state(&state).is_empty());
    }
}

#[test]
fn actions_have_display_names() {
    assert_eq!(ContainerAction::Start.display_name(), "Start");
    assert_eq!(ContainerAction::Stop.display_name(), "Stop");
    assert_eq!(ContainerAction::Restart.display_name(), "Restart");
    assert_eq!(ContainerAction::Remove.display_name(), "Remove");
    assert_eq!(ContainerAction::Shell.display_name(), "Shell");
}

#[test]
fn keys_tell_hosts_apart() {
    let mut map: AssocMap<ContainerKey, u32> = AssocMap::new();
    let key = |host: &str, id: &str| ContainerKey::new(host.to_string(), id.to_string());
    assert_eq!(map.insert(key("a", "1"), 10), None);
    assert_eq!(map.insert(key("b", "1"), 20), None);
    assert_eq!(map.insert(key("a", "1"), 30), Some(10));
    assert_eq!(map.get(&key("a", "1")), Some(&30));
    assert_eq!(map.get(&key("b", "1")), Some(&20));
    assert_eq!(map.get(&key("b", "2")), None);
    assert_eq!(map.len(), 2);
    assert_eq!(map.remove(&key("a", "1")), Some(30));
    assert_eq!(map.remove(&key("a", "1")), None);
    assert_eq!(map.drain(), vec![20]);
    assert_eq!(map.len(), 0);
}
