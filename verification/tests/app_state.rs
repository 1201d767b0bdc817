//! Filtering, sorting and selecting.
use dtop::app_state::{AppState, Selection, SORT_THROTTLE_NANOS};
use dtop::columns::{Column, ColumnConfig, SortDirection, SortState};
use dtop::containers::{Container, ContainerKey, ContainerState, ContainerStats, Metric};
use dtop::events::{Key, RenderAction, ViewState};
use dtop::outside::Timestamp;

fn metric(value: f64) -> Metric {
    Metric {
        bits: value.to_bits(),
    }
}

fn container(id: &str, name: &str, host: &str) -> Container {
    Container {
        id: id.to_string(),
        name: name.to_string(),
        state: ContainerState::Running,
        health: None,
        created: None,
        stats: ContainerStats::default(),
        host_id: host.to_string(),
        dozzle_url: None,
        restart_count: None,
        compose_project: None,
        image: None,
    }
}

fn new_state() -> AppState {
    AppState::new(false, Column::Uptime, None, ColumnConfig::default())
}

fn add(state: &mut AppState, container: Container) {
    let key = ContainerKey::new(container.host_id.clone(), container.id.clone());
    state.containers.insert(key, container);
}

fn ids(state: &AppState) -> Vec<String> {
    state
        .sorted_container_keys
        .iter()
        .map(|key| key.container_id.clone())
        .collect()
}

fn sorted_by(state: &mut AppState, field: Column, direction: SortDirection) -> Vec<String> {
    state.sort_state = SortState { field, direction };
    state.force_sort_containers();
    ids(state)
}

/// Companion to a selection that is lost while a filter is active: toggling `a`
/// off and back on can empty and refill the list the same way, and must likewise
/// restore the cursor.
#[test]
fn test_toggle_show_all_restores_selection() {
    let mut state = new_state();
    state.show_all_containers = true;

    let mut stopped = container("aaa111111111", "foo", "local");
    stopped.state = ContainerState::Exited;
    add(&mut state, stopped);
    state.force_sort_containers();
    state.ensure_selection();
    assert_eq!(state.table_state.selected(), Some(0));

    // 'a' hides the stopped container — the list empties and the cursor goes.
    assert_eq!(state.handle_toggle_show_all(), RenderAction::Render);
    assert!(state.sorted_container_keys.is_empty());
    assert_eq!(state.table_state.selected(), None);

    // 'a' again brings it back, and the cursor with it.
    assert_eq!(state.handle_toggle_show_all(), RenderAction::Render);
    assert_eq!(state.sorted_container_keys.len(), 1);
    assert_eq!(
        state.table_state.selected(),
        Some(0),
        "the restored row should be selected again"
    );
}

#[test]
fn showing_all_is_toggled_in_the_list_only() {
    let mut state = new_state();
    state.view_state = ViewState::SearchMode;
    assert_eq!(state.handle_toggle_show_all(), RenderAction::Nothing);
    assert!(!state.show_all_containers);
}

#[test]
fn a_selection_beyond_the_list_is_brought_back() {
    let mut state = new_state();
    for id in ["1", "2", "3"] {
        add(&mut state, container(id, id, "local"));
    }
    state.force_sort_containers();
    state.table_state.select(Some(9));
    state.table_state.offset = 4;
    state.ensure_selection();
    assert_eq!(
        state.table_state,
        Selection {
            selected: Some(2),
            offset: 4
        }
    );
    state.table_state.select(Some(1));
    state.ensure_selection();
    assert_eq!(state.table_state.selected(), Some(1));
    state.table_state.select(None);
    assert_eq!(state.table_state, Selection::new());
}

#[test]
fn rows_are_sorted_by_each_column() {
    let mut state = new_state();
    let mut a = container("a", "beta", "h1");
    a.created = Some(Timestamp { secs: 5, nanos: 7 });
    a.stats.cpu = metric(3.0);
    a.stats.memory = metric(-1.0);
    a.stats.pids_current = 9;
    a.stats.network_tx_bytes_per_sec = metric(1.0);
    a.stats.network_rx_bytes_per_sec = metric(2.0);
    a.stats.disk_read_bytes_per_sec = metric(3.0);
    a.stats.disk_write_bytes_per_sec = metric(f64::NAN);
    a.restart_count = Some(-2);
    a.compose_project = Some("x".to_string());
    a.image = Some("z".to_string());
    let mut b = container("b", "alpha", "h2");
    b.created = Some(Timestamp { secs: 5, nanos: 8 });
    b.stats.cpu = metric(20.0);
    b.stats.memory = metric(-0.5);
    b.stats.pids_current = 10;
    b.stats.network_tx_bytes_per_sec = metric(0.5);
    b.stats.network_rx_bytes_per_sec = metric(4.0);
    b.stats.disk_read_bytes_per_sec = metric(2.0);
    b.stats.disk_write_bytes_per_sec = metric(f64::INFINITY);
    b.restart_count = Some(1);
    b.image = Some("y".to_string());
    b.state = ContainerState::Dead;
    add(&mut state, a);
    add(&mut state, b);
    state.show_all_containers = true;

    for (column, first) in [
        (Column::Uptime, "a"),
        (Column::Name, "b"),
        (Column::Id, "a"),
        (Column::Host, "a"),
        (Column::Compose, "b"),
        (Column::Image, "b"),
        (Column::Cpu, "a"),
        (Column::Memory, "a"),
        (Column::Pids, "a"),
        (Column::NetTx, "b"),
        (Column::NetRx, "a"),
        (Column::DiskRead, "b"),
        (Column::DiskWrite, "b"),
        (Column::Status, "b"),
        (Column::Restarts, "a"),
    ] {
        let other = if first == "a" { "b" } else { "a" };
        assert_eq!(
            sorted_by(&mut state, column, SortDirection::Ascending),
            vec![first, other],
            "{column:?}"
        );
        assert_eq!(
            sorted_by(&mut state, column, SortDirection::Descending),
            vec![other, first],
            "{column:?}"
        );
    }
}

#[test]
fn missing_values_come_first_in_ascending_order() {
    let mut state = new_state();
    let mut old = container("old", "n", "local");
    old.created = Some(Timestamp { secs: -9, nanos: 0 });
    add(&mut state, old);
    add(&mut state, container("none", "n", "local"));
    assert_eq!(
        sorted_by(&mut state, Column::Uptime, SortDirection::Ascending),
        vec!["none", "old"]
    );
    assert_eq!(
        sorted_by(&mut state, Column::Uptime, SortDirection::Descending),
        vec!["old", "none"]
    );
}

#[test]
fn hosts_break_ties_in_either_direction() {
    let mut state = new_state();
    add(&mut state, container("1", "same", "zeta"));
    add(&mut state, container("2", "same", "alpha"));
    add(&mut state, container("3", "same", "alpha"));
    for direction in [SortDirection::Ascending, SortDirection::Descending] {
        assert_eq!(
            sorted_by(&mut state, Column::Name, direction),
            vec!["2", "3", "1"]
        );
    }
}

#[test]
fn sorting_agrees_with_a_stable_sort() {
    let mut state = new_state();
    let mut expected: Vec<(u64, String)> = Vec::new();
    let mut seed: u64 = 12345;
    for i in 0..200 {
        seed = seed.wrapping_mul(6364136223846793005).wrapping_add(1442695040888963407);
        let mut c = container(&format!("{i}"), "n", "local");
        c.stats.pids_current = (seed >> 33) % 17;
        expected.push((c.stats.pids_current, c.id.clone()));
        add(&mut state, c);
    }
    expected.sort_by(|a, b| b.0.cmp(&a.0));
    let expected: Vec<String> = expected.into_iter().map(|(_, id)| id).collect();
    assert_eq!(
        sorted_by(&mut state, Column::Pids, SortDirection::Descending),
        expected
    );
    // Sorting again changes nothing.
    state.force_sort_containers();
    assert_eq!(ids(&state), expected);
}

#[test]
fn the_search_disregards_case() {
    let mut state = new_state();
    add(&mut state, container("ABC1", "Nginx", "local"));
    add(&mut state, container("def2", "redis", "server1"));
    add(&mut state, container("ghi3", "ÉCLAIR", "remote"));
    for (search, expected) in [
        ("NGI", vec!["ABC1"]),
        ("abc", vec!["ABC1"]),
        ("Server", vec!["def2"]),
        ("éclair", vec!["ghi3"]),
        ("r", vec!["def2", "ghi3"]),
        ("nothing", vec![]),
        ("", vec!["ABC1", "def2", "ghi3"]),
    ] {
        state.search_input = search.to_string();
        assert_eq!(
            sorted_by(&mut state, Column::Id, SortDirection::Ascending),
            expected,
            "{search}"
        );
    }
}

#[test]
fn only_running_containers_are_listed_unless_all_are() {
    let mut state = new_state();
    let mut paused = container("p", "paused", "local");
    paused.state = ContainerState::Paused;
    add(&mut state, paused);
    add(&mut state, container("r", "running", "local"));
    state.force_sort_containers();
    assert_eq!(ids(&state), vec!["r"]);
    state.show_all_containers = true;
    assert_eq!(
        sorted_by(&mut state, Column::Name, SortDirection::Ascending),
        vec!["p", "r"]
    );
}

#[test]
fn sorting_is_throttled_unless_forced() {
    let mut state = new_state();
    add(&mut state, container("1", "n", "local"));
    // The state was made a moment ago.
    state.sort_containers();
    assert!(ids(&state).is_empty());
    state.sort_containers_after(SORT_THROTTLE_NANOS - 1, false);
    assert!(ids(&state).is_empty());
    state.sort_containers_after(SORT_THROTTLE_NANOS, false);
    assert_eq!(ids(&state), vec!["1"]);
    add(&mut state, container("2", "n", "local"));
    state.sort_containers_after(0, true);
    assert_eq!(ids(&state).len(), 2);
    assert_eq!(SORT_THROTTLE_NANOS, 3_000_000_000);
}

#[test]
fn a_sort_restarts_the_throttle() {
    let mut state = new_state();
    let made = state.last_sort_time;
    state.force_sort_containers();
    assert!(state.last_sort_time >= made);
    add(&mut state, container("1", "n", "local"));
    state.sort_containers();
    assert!(ids(&state).is_empty());
}

#[test]
fn a_sort_counts_from_its_moment() {
    let mut state = new_state();
    let made = state.last_sort_time;
    let moment = made + std::time::Duration::from_secs(100);
    state.sort_containers_at(SORT_THROTTLE_NANOS - 1, moment, false);
    assert_eq!(state.last_sort_time, made);
    state.sort_containers_at(SORT_THROTTLE_NANOS, moment, false);
    assert_eq!(state.last_sort_time, moment);
    state.sort_containers_at(0, made, true);
    assert_eq!(state.last_sort_time, made);

    let area = dtop::outside::Area {
        x: 0,
        y: 0,
        width: 80,
        height: 20,
    };
    state.prepare_list_at(area, 0, moment);
    assert_eq!(state.last_sort_time, made);
    state.prepare_list_at(area, SORT_THROTTLE_NANOS, moment);
    assert_eq!(state.last_sort_time, moment);
}

#[test]
fn the_sort_selector_opens_on_the_sort_field() {
    let mut state = new_state();
    state.sort_state = SortState::new(Column::Cpu);
    assert_eq!(state.handle_open_sort_selector(), RenderAction::Render);
    assert_eq!(state.view_state, ViewState::SortSelector);
    let visible = state.column_config.visible_columns();
    let cpu = visible.iter().position(|c| *c == Column::Cpu);
    assert_eq!(state.sort_selector_state.selected(), cpu);

    // A field that is not shown selects the first row.
    let mut state = new_state();
    state.sort_state = SortState::new(Column::Restarts);
    state.handle_open_sort_selector();
    assert_eq!(state.sort_selector_state.selected(), Some(0));

    // Elsewhere nothing happens.
    assert_eq!(state.handle_open_sort_selector(), RenderAction::Nothing);
    assert_eq!(state.view_state, ViewState::SortSelector);
}

#[test]
fn the_sort_selector_moves_within_its_rows() {
    let mut state = new_state();
    state.view_state = ViewState::SortSelector;
    let count = state.column_config.visible_columns().len();
    assert_eq!(
        state.handle_sort_selector_key(Key::Up),
        RenderAction::Render
    );
    assert_eq!(state.sort_selector_state.selected(), None);
    state.handle_sort_selector_key(Key::Down);
    assert_eq!(state.sort_selector_state.selected(), Some(1));
    state.handle_sort_selector_key(Key::Char('j'));
    assert_eq!(state.sort_selector_state.selected(), Some(2));
    state.handle_sort_selector_key(Key::Char('k'));
    assert_eq!(state.sort_selector_state.selected(), Some(1));
    for _ in 0..50 {
        state.handle_sort_selector_key(Key::Down);
    }
    assert_eq!(state.sort_selector_state.selected(), Some(count - 1));
    assert_eq!(
        state.handle_sort_selector_key(Key::Char('x')),
        RenderAction::Nothing
    );
    for key in [
        Key::PageUp,
        Key::PageDown,
        Key::Home,
        Key::End,
        Key::Other,
    ] {
        assert_eq!(state.handle_sort_selector_key(key), RenderAction::Nothing);
        assert_eq!(state.sort_selector_state.selected(), Some(count - 1));
    }
}

#[test]
fn choosing_a_column_sorts_by_it_and_again_turns_it_round() {
    let mut state = new_state();
    add(&mut state, container("1", "b", "local"));
    add(&mut state, container("2", "a", "local"));
    state.view_state = ViewState::SortSelector;
    let name = state
        .column_config
        .visible_columns()
        .iter()
        .position(|c| *c == Column::Name)
        .unwrap();
    state.sort_selector_state.select(Some(name));
    assert_eq!(
        state.handle_sort_selector_key(Key::Enter),
        RenderAction::Render
    );
    assert_eq!(state.sort_state, SortState::new(Column::Name));
    assert_eq!(ids(&state), vec!["2", "1"]);
    state.handle_sort_selector_key(Key::Char(' '));
    assert_eq!(state.sort_state.direction, SortDirection::Descending);
    assert_eq!(ids(&state), vec!["1", "2"]);
    state.handle_sort_selector_key(Key::Enter);
    assert_eq!(state.sort_state, SortState::new(Column::Name));

    // A row that is not there chooses nothing.
    state.sort_selector_state.select(Some(99));
    assert_eq!(
        state.handle_sort_selector_key(Key::Enter),
        RenderAction::Render
    );
    assert_eq!(state.sort_state, SortState::new(Column::Name));
}

#[test]
fn the_sort_selector_closes() {
    for key in [Key::Esc, Key::Char('s')] {
        let mut state = new_state();
        state.view_state = ViewState::SortSelector;
        state.sort_selector_state.select(Some(3));
        assert_eq!(state.handle_sort_selector_key(key), RenderAction::Render);
        assert_eq!(state.view_state, ViewState::ContainerList);
        assert_eq!(state.sort_selector_state, Selection::new());
    }
}

#[test]
fn a_new_state_is_empty() {
    let state = AppState::new(
        true,
        Column::Name,
        Some(SortDirection::Descending),
        ColumnConfig::default(),
    );
    assert!(state.show_all_containers);
    assert_eq!(state.sort_state.field, Column::Name);
    assert_eq!(state.sort_state.direction, SortDirection::Descending);
    assert_eq!(state.view_state, ViewState::ContainerList);
    assert_eq!(state.containers.len(), 0);
    assert_eq!(state.table_state.selected(), None);
}
