//! What a Docker host answers and what becomes of it.
use bollard::{Docker, API_DEFAULT_VERSION};
use dtop::assoc::TextMap;
use dtop::containers::{Container, ContainerState, ContainerStats, HealthStatus};
use dtop::docker::{
    display_metadata, short_id, ContainerDetails, ContainerSummary, DockerHost, Labels,
};
use dtop::events::AppEvent;
use dtop::monitor::{
    event_filter_use, ContainerEvent, DaemonEvent, EventActor, FilterUse, HealthStep,
};
use dtop::outside::{Timestamp, MAX_UNIX_SECOND, MIN_UNIX_SECOND};
use std::cell::Cell;

fn map<V>(entries: Vec<(&str, V)>) -> TextMap<V> {
    let mut map = TextMap::new();
    for (key, value) in entries {
        map.insert(key.to_string(), value);
    }
    map
}

fn labels(entries: &[(&str, &str)]) -> Labels {
    map(entries.iter().map(|(k, v)| (*k, v.to_string())).collect())
}

fn filters(entries: &[(&str, &[&str])]) -> TextMap<Vec<String>> {
    map(entries
        .iter()
        .map(|(k, v)| (*k, v.iter().map(|s| s.to_string()).collect()))
        .collect())
}

fn host_with(entries: &[(&str, &[&str])]) -> DockerHost {
    let docker =
        Docker::connect_with_http("http://127.0.0.1:1", 1, API_DEFAULT_VERSION).unwrap();
    DockerHost::new(
        "local".to_string(),
        docker,
        Some("https://dozzle.example.com".to_string()),
        filters(entries),
    )
}

fn host() -> DockerHost {
    host_with(&[])
}

fn text(s: &str) -> Option<String> {
    Some(s.to_string())
}

#[test]
fn display_metadata_resolves_label_precedence_and_empty_fallbacks() {
    let mut labels = labels(&[
        ("dev.dozzle.name", "Custom name"),
        ("coolify.serviceName", "Coolify service"),
        ("dev.dozzle.group", "Custom group"),
        ("coolify.projectName", "Coolify project"),
        ("com.docker.compose.project", "compose-project"),
    ]);
    assert_eq!(
        display_metadata("/docker-name", Some(&labels)),
        ("Custom name".into(), Some("Custom group".into()))
    );

    labels.remove(&"dev.dozzle.name".to_string());
    labels.insert("dev.dozzle.group".into(), "  ".into());
    assert_eq!(
        display_metadata("/docker-name", Some(&labels)),
        ("Coolify service".into(), Some("Coolify project".into()))
    );

    labels.insert("coolify.serviceName".into(), "".into());
    labels.remove(&"coolify.projectName".to_string());
    assert_eq!(
        display_metadata("/docker-name", Some(&labels)),
        ("docker-name".into(), Some("compose-project".into()))
    );
    assert_eq!(
        display_metadata("/docker-name", None),
        ("docker-name".into(), None)
    );
    assert_eq!(
        display_metadata("", Some(&TextMap::new())),
        (String::new(), None)
    );
}

#[test]
fn blank_labels_are_those_that_trim_to_nothing() {
    for value in ["\t\n ", "\u{a0}", "\u{3000}\u{2003}", "\u{200b}", " x "] {
        let labels = labels(&[("dev.dozzle.name", value)]);
        let expected = if value.trim().is_empty() {
            "n".to_string()
        } else {
            value.to_string()
        };
        assert_eq!(display_metadata("//n", Some(&labels)).0, expected);
    }
}

#[test]
fn short_id_truncates_to_docker_short_form() {
    assert_eq!(short_id("0123456789abcdef0123"), "0123456789ab");
    assert_eq!(short_id("short"), "short");
}

#[test]
fn short_ids_count_characters() {
    assert_eq!(short_id("0123456789ab"), "0123456789ab");
    assert_eq!(short_id(""), "");
    assert_eq!(short_id("ééééééééééééé"), "éééééééééééé");
    assert_eq!(short_id(short_id("0123456789abcdef")), "0123456789ab");
}

fn summary(id: &str, state: &str) -> ContainerSummary {
    ContainerSummary {
        id: text(id),
        names: Some(vec!["/web".to_string(), "/alias".to_string()]),
        labels: Some(labels(&[("com.docker.compose.project", "shop")])),
        state: text(state),
        created: Some(1_700_000_000),
        status: text("Up 2 hours (healthy)"),
        image: text("nginx:latest"),
    }
}

#[test]
fn a_container_list_becomes_containers() {
    let id = "0123456789abcdef0123";
    let list = vec![
        summary(id, "RUNNING"),
        summary("", "RUNNING"),
        ContainerSummary {
            id: text("feedfeedfeedfeed"),
            names: None,
            labels: None,
            state: None,
            created: None,
            status: text("Exited (0)"),
            image: None,
        },
        ContainerSummary {
            id: None,
            names: Some(vec![]),
            labels: None,
            state: None,
            created: None,
            status: None,
            image: None,
        },
    ];
    let listing = host().initial_containers(&list);
    assert_eq!(listing.containers.len(), 2);

    let web = &listing.containers[0];
    assert_eq!(web.id, "0123456789ab");
    assert_eq!(web.name, "web");
    assert_eq!(web.state, ContainerState::Running);
    assert_eq!(web.health, Some(HealthStatus::Healthy));
    assert_eq!(
        web.created,
        Some(Timestamp {
            secs: 1_700_000_000,
            nanos: 0
        })
    );
    assert_eq!(web.stats, ContainerStats::default());
    assert_eq!(web.host_id, "local");
    assert_eq!(web.dozzle_url, text("https://dozzle.example.com"));
    assert_eq!(web.restart_count, None);
    assert_eq!(web.compose_project, text("shop"));
    assert_eq!(web.image, text("nginx:latest"));

    let other = &listing.containers[1];
    assert_eq!(other.id, "feedfeedfeed");
    assert_eq!(other.name, "");
    assert_eq!(other.state, ContainerState::Unknown);
    assert_eq!(other.health, None);
    assert_eq!(other.created, None);
    assert_eq!(other.compose_project, None);
    assert_eq!(other.image, None);

    assert_eq!(
        listing.pending_restart_counts,
        vec![
            (id.to_string(), "0123456789ab".to_string()),
            ("feedfeedfeedfeed".to_string(), "feedfeedfeed".to_string()),
        ]
    );
    assert_eq!(listing.monitored, vec!["0123456789ab".to_string()]);
}

#[test]
fn creation_times_are_those_that_a_date_can_hold() {
    for (secs, held) in [
        (MIN_UNIX_SECOND, true),
        (MIN_UNIX_SECOND - 1, false),
        (MAX_UNIX_SECOND, true),
        (MAX_UNIX_SECOND + 1, false),
        (i64::MIN, false),
        (i64::MAX, false),
        (0, true),
    ] {
        let mut entry = summary("0123456789ab", "exited");
        entry.created = Some(secs);
        let listing = host().initial_containers(&vec![entry]);
        let expected = if held {
            Some(Timestamp { secs, nanos: 0 })
        } else {
            None
        };
        assert_eq!(listing.containers[0].created, expected, "{secs}");
    }
}

#[test]
fn an_empty_list_is_still_handed_over() {
    match host().list_event(Vec::new()) {
        AppEvent::InitialContainerList(id, list) => {
            assert_eq!(id, "local");
            assert!(list.is_empty());
        }
        other => panic!("{other:?}"),
    }
}

#[test]
fn restart_counts_are_told_if_known() {
    match host().restart_count_event("0123456789ab".to_string(), Some(3)) {
        Some(AppEvent::ContainerRestartCount(key, count)) => {
            assert_eq!(key.host_id, "local");
            assert_eq!(key.container_id, "0123456789ab");
            assert_eq!(count, 3);
        }
        other => panic!("{other:?}"),
    }
    assert!(host()
        .restart_count_event("0123456789ab".to_string(), None)
        .is_none());
}

#[test]
fn hosts_are_cloned_with_their_filters() {
    let host = host_with(&[("label", &["a", "b"])]);
    let copy = host.clone();
    assert_eq!(copy.host_id, "local");
    assert_eq!(copy.dozzle_url, host.dozzle_url);
    assert_eq!(copy.filters.entries, host.filters.entries);
    assert!(host_with(&[]).list_filters().is_none());
    assert_eq!(copy.list_filters().unwrap().entries.len(), 1);
}

fn told(filters: &TextMap<Vec<String>>, key: &str) -> Option<Vec<String>> {
    filters.get_text(key).cloned()
}

fn texts(values: &[&str]) -> Option<Vec<String>> {
    Some(values.iter().map(|s| s.to_string()).collect())
}

#[test]
fn event_filters_have_a_base_that_stays() {
    let filters = host_with(&[("type", &["network"]), ("event", &["kill"])]).event_filters();
    assert_eq!(told(&filters, "type"), texts(&["container"]));
    assert_eq!(
        told(&filters, "event"),
        texts(&["start", "die", "stop", "destroy", "health_status"])
    );
    assert_eq!(filters.len(), 2);
}

#[test]
fn event_filters_merge_what_events_support() {
    let filters = host_with(&[
        ("label", &["a=b"]),
        ("status", &["running"]),
        ("name", &["web", "db"]),
        ("id", &["0123"]),
    ])
    .event_filters();
    assert_eq!(told(&filters, "label"), texts(&["a=b"]));
    assert_eq!(told(&filters, "status"), None);
    assert_eq!(told(&filters, "name"), None);
    assert_eq!(told(&filters, "container"), texts(&["web", "db", "0123"]));

    let filters = host_with(&[("container", &["x"]), ("id", &["y"])]).event_filters();
    assert_eq!(told(&filters, "container"), texts(&["x", "y"]));
    let filters = host_with(&[("id", &["y"]), ("container", &["x"])]).event_filters();
    assert_eq!(told(&filters, "container"), texts(&["x"]));
}

#[test]
fn filters_are_told_apart() {
    for key in [
        "container", "label", "image", "network", "volume", "daemon", "scope", "node", "service",
        "secret", "config", "plugin",
    ] {
        assert_eq!(event_filter_use(key), FilterUse::Direct);
    }
    assert_eq!(event_filter_use("id"), FilterUse::Container);
    assert_eq!(event_filter_use("name"), FilterUse::Container);
    assert_eq!(event_filter_use("status"), FilterUse::ListOnly);
    assert_eq!(event_filter_use("Label"), FilterUse::ListOnly);
}

fn event(id: Option<&str>, action: Option<&str>) -> DaemonEvent {
    DaemonEvent {
        actor: Some(EventActor {
            id: id.map(str::to_string),
            attributes: None,
        }),
        action: action.map(str::to_string),
    }
}

#[test]
fn daemon_events_are_understood() {
    let meaning = |action: &str| event(Some("abc"), Some(action)).container_event();
    let is = |event| Some((event, "abc".to_string()));
    assert_eq!(meaning("start"), is(ContainerEvent::Start));
    assert_eq!(meaning("die"), is(ContainerEvent::Stop));
    assert_eq!(meaning("stop"), is(ContainerEvent::Stop));
    assert_eq!(meaning("destroy"), is(ContainerEvent::Destroy));
    assert_eq!(meaning("health_status"), is(ContainerEvent::Health));
    assert_eq!(meaning("health_status: healthy"), is(ContainerEvent::Health));
    assert_eq!(meaning("health"), None);
    assert_eq!(meaning("kill"), None);
    assert_eq!(event(Some("abc"), None).container_event(), None);
    assert_eq!(event(Some(""), Some("start")).container_event(), None);
    assert_eq!(event(None, Some("start")).container_event(), None);
    let anonymous = DaemonEvent {
        actor: None,
        action: text("start"),
    };
    assert_eq!(anonymous.container_event(), None);
}

/// A stats task that ended on its own leaves its handle in the map — only
/// stop/die/destroy events prune it — so "is this container monitored?" has
/// to ask whether the task is still alive. Answering from `contains_key`
/// alone left a container whose stats stream had given up stuck at zero,
/// with even a restart unable to re-arm it.
#[test]
fn is_monitored_reports_a_finished_stats_task_as_not_monitored() {
    let runtime = tokio::runtime::Builder::new_current_thread()
        .build()
        .unwrap();
    runtime.block_on(async {
        let mut active: TextMap<tokio::task::JoinHandle<()>> = TextMap::new();

        // A handle whose task has run to completion, as a stats stream that gave
        // up leaves behind.
        let finished = tokio::spawn(async {});
        while !finished.is_finished() {
            tokio::task::yield_now().await;
        }
        active.insert("dead".to_string(), finished);
        active.insert(
            "alive".to_string(),
            tokio::spawn(std::future::pending::<()>()),
        );

        let is_finished = |handle: &tokio::task::JoinHandle<()>| handle.is_finished();
        assert!(DockerHost::is_monitored("alive", &active, is_finished));
        assert!(!DockerHost::is_monitored("dead", &active, is_finished));
        assert!(!DockerHost::is_monitored("unknown", &active, is_finished));
    });
}

#[test]
fn no_stats_task_is_lost() {
    let mut active: TextMap<u32> = TextMap::new();
    assert_eq!(
        DockerHost::start_container_monitoring("a", 1, &mut active),
        None
    );
    assert_eq!(
        DockerHost::start_container_monitoring("b", 2, &mut active),
        None
    );
    assert_eq!(
        DockerHost::start_container_monitoring("a", 3, &mut active),
        Some(1)
    );
    let asked = Cell::new(0);
    let monitored = DockerHost::is_monitored("a", &active, |handle: &u32| {
        asked.set(*handle);
        false
    });
    assert!(monitored);
    assert_eq!(asked.get(), 3);
    assert_eq!(active.drain(), vec![3, 2]);
}

fn details() -> ContainerDetails {
    ContainerDetails {
        name: text("/web"),
        labels: Some(labels(&[("dev.dozzle.group", "front")])),
        health: text("STARTING"),
        created: text("2024-05-06T09:08:09.5+02:00"),
        restart_count: Some(7),
        image: text("nginx"),
    }
}

fn created(step: Option<(AppEvent, Option<String>)>) -> (Container, String) {
    match step {
        Some((AppEvent::ContainerCreated(container), Some(id))) => (container, id),
        other => panic!("{other:?}"),
    }
}

#[test]
fn a_started_container_is_announced_and_monitored() {
    let id = "0123456789abcdef0123";
    let (container, monitored) =
        created(host().handle_container_start(id, Some(&details()), false));
    assert_eq!(monitored, "0123456789ab");
    assert_eq!(container.id, "0123456789ab");
    assert_eq!(container.name, "web");
    assert_eq!(container.state, ContainerState::Running);
    assert_eq!(container.health, Some(HealthStatus::Starting));
    assert_eq!(
        container.created,
        Some(Timestamp {
            secs: 1_714_979_289,
            nanos: 500_000_000
        })
    );
    assert_eq!(container.stats, ContainerStats::default());
    assert_eq!(container.host_id, "local");
    assert_eq!(container.dozzle_url, text("https://dozzle.example.com"));
    assert_eq!(container.restart_count, Some(7));
    assert_eq!(container.compose_project, text("front"));
    assert_eq!(container.image, text("nginx"));
}

#[test]
fn creation_times_are_read_as_rfc_3339() {
    for written in [
        "2024-05-06T07:08:09Z",
        "2016-12-31T23:59:60Z",
        "0000-01-01T00:00:00-23:59",
        "yesterday",
        "",
    ] {
        let mut inspect = details();
        inspect.created = text(written);
        let (container, _) = created(host().handle_container_start("a", Some(&inspect), false));
        let expected = chrono::DateTime::parse_from_rfc3339(written)
            .ok()
            .map(|t| Timestamp {
                secs: t.timestamp(),
                nanos: t.timestamp_subsec_nanos(),
            });
        assert_eq!(container.created, expected, "{written}");
    }
}

#[test]
fn a_container_that_is_monitored_only_changes_its_state() {
    match host().handle_container_start("0123456789abcdef", Some(&details()), true) {
        Some((AppEvent::ContainerStateChanged(key, state), None)) => {
            assert_eq!(key.host_id, "local");
            assert_eq!(key.container_id, "0123456789ab");
            assert_eq!(state, ContainerState::Running);
        }
        other => panic!("{other:?}"),
    }
    assert!(host().handle_container_start("a", None, false).is_none());
    assert!(host().handle_container_start("a", None, true).is_none());
}

#[test]
fn a_stopped_container_loses_its_task() {
    let mut active = map(vec![("0123456789ab", 1), ("other", 2)]);
    match host().handle_container_stop("0123456789abcdef", &mut active) {
        Some((task, AppEvent::ContainerStateChanged(key, state))) => {
            assert_eq!(task, 1);
            assert_eq!(key.container_id, "0123456789ab");
            assert_eq!(state, ContainerState::Exited);
        }
        other => panic!("{other:?}"),
    }
    // A second event, such as "stop" after "die", finds nothing left to do.
    assert!(host()
        .handle_container_stop("0123456789abcdef", &mut active)
        .is_none());
    assert_eq!(active.drain(), vec![2]);
}

#[test]
fn a_destroyed_container_is_always_told() {
    let mut active = map(vec![("0123456789ab", 1)]);
    for task in [Some(1), None] {
        match host().handle_container_destroy("0123456789abcdef", &mut active) {
            (aborted, AppEvent::ContainerDestroyed(key)) => {
                assert_eq!(aborted, task);
                assert_eq!(key.host_id, "local");
                assert_eq!(key.container_id, "0123456789ab");
            }
            other => panic!("{other:?}"),
        }
    }
}

fn health(step: HealthStep) -> Option<HealthStatus> {
    match step {
        HealthStep::Report(AppEvent::ContainerHealthChanged(key, health)) => {
            assert_eq!(key.container_id, "0123456789ab");
            Some(health)
        }
        HealthStep::Inspect => None,
        other => panic!("{other:?}"),
    }
}

#[test]
fn health_is_told_by_the_action_or_the_attributes() {
    let host = host();
    let change = |action: &str, attributes: Option<&Labels>| {
        health(host.handle_health_status_change("0123456789abcdef", action, attributes))
    };
    assert_eq!(
        change("health_status: healthy", None),
        Some(HealthStatus::Healthy)
    );
    let sick = labels(&[("health_status", "unhealthy"), ("HealthStatus", "healthy")]);
    assert_eq!(
        change("health_status: starting", Some(&sick)),
        Some(HealthStatus::Starting)
    );
    assert_eq!(
        change("health_status", Some(&sick)),
        Some(HealthStatus::Unhealthy)
    );
    let camel = labels(&[("HealthStatus", "Healthy")]);
    assert_eq!(
        change("health_status", Some(&camel)),
        Some(HealthStatus::Healthy)
    );
    // An attribute that says nothing hides the other one.
    let mute = labels(&[("health_status", "?"), ("HealthStatus", "healthy")]);
    assert_eq!(change("health_status", Some(&mute)), None);
    assert_eq!(change("health_status", None), None);
}

#[test]
fn inspected_health_is_told_if_known() {
    match host().inspected_health_event("0123456789abcdef", &text("UNHEALTHY")) {
        Some(AppEvent::ContainerHealthChanged(key, health)) => {
            assert_eq!(key.container_id, "0123456789ab");
            assert_eq!(health, HealthStatus::Unhealthy);
        }
        other => panic!("{other:?}"),
    }
    assert!(host().inspected_health_event("a", &text("NONE")).is_none());
    assert!(host().inspected_health_event("a", &None).is_none());
}
