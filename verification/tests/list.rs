//! The container list as it is shown.
use dtop::app_state::AppState;
use dtop::clip::{clip_to_width, clip_widths};
use dtop::columns::{Column, ColumnConfig, SortDirection, SortState};
use dtop::containers::{
    Container, ContainerKey, ContainerState, ContainerStats, HealthStatus, Metric, UsageLevel,
};
use dtop::list::{
    column_constraints, create_container_row, create_header_row, create_memory_progress_bar,
    create_progress_bar, get_status_icon, list_title, table_columns, viewport_height, write_bar,
    ListCell, StatusColor, StatusIcon,
};
use dtop::outside::{Area, ColumnWidth, Timestamp};
use ratatui::layout::Rect;
use ratatui::widgets::{Block, Borders, Padding};
use unicode_width::UnicodeWidthStr;

fn metric(value: f64) -> Metric {
    Metric {
        bits: value.to_bits(),
    }
}

/// How much of a bar a percentage fills.
fn filled(percentage: f64, width: usize) -> usize {
    ((percentage.clamp(0.0, 100.0) / 100.0) * width as f64).round() as usize
}

#[test]
fn test_clip_to_width_ascii() {
    assert_eq!(clip_to_width("nginx", 10), ("nginx", 5));
    assert_eq!(clip_to_width("nginx", 5), ("nginx", 5));
    assert_eq!(clip_to_width("nginx", 3), ("ngi", 3));
    assert_eq!(clip_to_width("nginx", 0), ("", 0));
    assert_eq!(clip_to_width("", 8), ("", 0));
}

#[test]
fn test_clip_to_width_wide_chars() {
    // A double-width char must not be split across the column boundary.
    assert_eq!(clip_to_width("日本語", 6), ("日本語", 6));
    assert_eq!(clip_to_width("日本語", 5), ("日本", 4));
    assert_eq!(clip_to_width("日本語", 1), ("", 0));
}

#[test]
fn clipping_counts_what_takes_no_column() {
    // A control character and a combining accent take none.
    assert_eq!(clip_to_width("a\u{7}b", 1), ("a\u{7}", 1));
    assert_eq!(clip_to_width("e\u{301}x", 1), ("e\u{301}", 1));
    assert_eq!(clip_to_width("\u{301}", 0), ("\u{301}", 0));
    // The first that does not fit ends the text, though a later one would fit.
    assert_eq!(clip_to_width("a日b", 2), ("a", 1));
}

#[test]
fn clipped_texts_fit() {
    let text = "né日\u{200d}本 ok\u{301}!";
    for max in 0..12u16 {
        let (clipped, width) = clip_to_width(text, max);
        assert!(text.starts_with(clipped));
        assert!(width <= max);
        // Cutting again changes nothing.
        assert_eq!(clip_to_width(clipped, max), (clipped, width));
    }
    assert_eq!(clip_to_width("plain ascii", 200).1 as usize, "plain ascii".width());
}

#[test]
fn widths_are_added_up_to_the_first_that_does_not_fit() {
    assert_eq!(clip_widths(&vec![1, 2, 1], 3), (2, 3));
    assert_eq!(clip_widths(&vec![1, 2, 1], 4), (3, 4));
    assert_eq!(clip_widths(&vec![2, 1], 1), (0, 0));
    assert_eq!(clip_widths(&vec![0, 0, 3], 2), (2, 0));
    assert_eq!(clip_widths(&vec![usize::MAX], u16::MAX), (0, 0));
    assert_eq!(clip_widths(&vec![], 9), (0, 0));
}

#[test]
fn test_create_memory_progress_bar_format() {
    let bar = create_memory_progress_bar(filled(50.0, 20), 20, "512M", "1G");
    assert!(bar.contains("512M/1G"));
    assert!(bar.contains("██████████")); // 50% filled = 10 blocks
}

#[test]
fn test_create_memory_progress_bar_zero() {
    let bar = create_memory_progress_bar(filled(0.0, 20), 20, "0B", "1G");
    assert!(bar.contains("0B/1G"));
    assert!(bar.starts_with("░░░░░░░░░░░░░░░░░░░░")); // All empty
}

#[test]
fn test_create_memory_progress_bar_full() {
    let bar = create_memory_progress_bar(filled(100.0, 20), 20, "1G", "1G");
    assert!(bar.contains("1G/1G"));
    assert!(bar.starts_with("████████████████████")); // All filled
}

#[test]
fn test_create_memory_progress_bar_clamps_over_100() {
    // Bar visual should clamp at 100% even if percentage > 100
    let bar = create_memory_progress_bar(filled(150.0, 20), 20, "1.5G", "1G");
    assert!(bar.starts_with("████████████████████")); // Still fully filled
}

#[test]
fn bars_are_written_out() {
    assert_eq!(create_progress_bar(2, 5, " 45.0"), "██░░░  45.0%");
    assert_eq!(create_progress_bar(7, 5, "150.0"), "███████ 150.0%");
    assert_eq!(
        create_memory_progress_bar(1, 3, "512M", "1G"),
        "█░░ 512M/1G"
    );
    let mut text = "x".to_string();
    write_bar(&mut text, 1, 2);
    assert_eq!(text, "x█░░");
}

#[test]
fn status_icons_go_by_health_first() {
    assert_eq!(
        get_status_icon(&ContainerState::Running, &Some(HealthStatus::Unhealthy)),
        (
            StatusIcon::Health(HealthStatus::Unhealthy),
            StatusColor::Red
        )
    );
    for (health, color) in [
        (HealthStatus::Healthy, StatusColor::Green),
        (HealthStatus::Unhealthy, StatusColor::Red),
        (HealthStatus::Starting, StatusColor::Yellow),
    ] {
        assert_eq!(
            get_status_icon(&ContainerState::Dead, &Some(health)),
            (StatusIcon::Health(health), color)
        );
    }
    for (state, color) in [
        (ContainerState::Running, StatusColor::Green),
        (ContainerState::Paused, StatusColor::Yellow),
        (ContainerState::Restarting, StatusColor::Yellow),
        (ContainerState::Removing, StatusColor::Yellow),
        (ContainerState::Exited, StatusColor::Red),
        (ContainerState::Dead, StatusColor::Red),
        (ContainerState::Created, StatusColor::Cyan),
        (ContainerState::Unknown, StatusColor::Gray),
    ] {
        assert_eq!(
            get_status_icon(&state, &None),
            (StatusIcon::State(state), color)
        );
    }
}

#[test]
fn the_host_column_is_left_out_where_it_is_not_to_be_shown() {
    let columns = vec![Column::Id, Column::Host, Column::Name];
    assert_eq!(table_columns(&columns, true), columns);
    assert_eq!(
        table_columns(&columns, false),
        vec![Column::Id, Column::Name]
    );
}

#[test]
fn the_header_marks_the_sort_field() {
    let columns = vec![
        Column::Status,
        Column::Name,
        Column::Host,
        Column::Cpu,
        Column::Uptime,
        Column::DiskRead,
    ];
    let sort = SortState {
        field: Column::Cpu,
        direction: SortDirection::Descending,
    };
    assert_eq!(
        create_header_row(&columns, true, sort),
        vec!["", "Name", "Host", "CPU % ▼", "Created", "Disk R"]
    );
    let sort = SortState {
        field: Column::Name,
        direction: SortDirection::Ascending,
    };
    assert_eq!(
        create_header_row(&columns, false, sort),
        vec!["", "Name ▲", "CPU %", "Created", "Disk R"]
    );
    // The status column has no label to mark.
    assert_eq!(
        create_header_row(&vec![Column::Status], false, SortState::new(Column::Status)),
        vec![""]
    );
}

#[test]
fn columns_ask_for_their_widths() {
    let all = Column::all_default();
    let wide = column_constraints(&all, true, true);
    assert_eq!(
        wide,
        vec![
            ColumnWidth::Length(12),
            ColumnWidth::Length(1),
            ColumnWidth::Min(8),
            ColumnWidth::Length(20),
            ColumnWidth::Length(20),
            ColumnWidth::Length(30),
            ColumnWidth::Length(28),
            ColumnWidth::Length(33),
            ColumnWidth::Length(12),
            ColumnWidth::Length(12),
            ColumnWidth::Length(12),
            ColumnWidth::Length(12),
            ColumnWidth::Length(12),
            ColumnWidth::Length(15),
            ColumnWidth::Length(10),
        ]
    );
    let narrow = column_constraints(&vec![Column::Cpu, Column::Host, Column::Memory], false, false);
    assert_eq!(
        narrow,
        vec![ColumnWidth::Length(7), ColumnWidth::Length(7)]
    );
}

fn container() -> Container {
    let mut stats = ContainerStats::default();
    stats.cpu = metric(65.0);
    stats.memory = metric(81.5);
    stats.memory_used_bytes = 512;
    stats.memory_limit_bytes = 1024;
    stats.network_tx_bytes_per_sec = metric(1.0);
    stats.network_rx_bytes_per_sec = metric(2.0);
    stats.disk_read_bytes_per_sec = metric(3.0);
    stats.disk_write_bytes_per_sec = metric(4.0);
    stats.pids_current = 42;
    stats.pids_limit = 100;
    Container {
        id: "abc123456789".to_string(),
        name: "nginx".to_string(),
        state: ContainerState::Running,
        health: None,
        created: Some(Timestamp { secs: 9, nanos: 0 }),
        stats,
        host_id: "local".to_string(),
        dozzle_url: None,
        restart_count: Some(-3),
        compose_project: Some("shop".to_string()),
        image: None,
    }
}

fn cell(container: &Container, column: Column, bars: bool) -> ListCell {
    let mut row = create_container_row(container, &vec![column], true, bars);
    assert_eq!(row.len(), 1);
    row.pop().unwrap()
}

fn text(container: &Container, column: Column) -> String {
    match cell(container, column, false) {
        ListCell::Text(text) => text,
        other => panic!("{column:?}: {other:?}"),
    }
}

#[test]
fn texts_stand_in_their_cells() {
    let c = container();
    assert_eq!(text(&c, Column::Id), "abc123456789");
    assert_eq!(text(&c, Column::Name), "nginx");
    assert_eq!(text(&c, Column::Host), "local");
    assert_eq!(text(&c, Column::Compose), "shop");
    assert_eq!(text(&c, Column::Image), "");
    assert_eq!(text(&c, Column::Pids), "42/100");
    assert_eq!(text(&c, Column::Restarts), "-3");
    let mut c = container();
    c.stats.pids_current = u64::MAX;
    c.stats.pids_limit = 0;
    c.restart_count = None;
    assert_eq!(text(&c, Column::Pids), "18446744073709551615");
    assert_eq!(text(&c, Column::Restarts), "");
    c.restart_count = Some(i64::MIN);
    assert_eq!(text(&c, Column::Restarts), "-9223372036854775808");
}

#[test]
fn figures_of_running_containers_are_shown() {
    let c = container();
    assert!(matches!(
        cell(&c, Column::Status, false),
        ListCell::Status(StatusIcon::State(ContainerState::Running), StatusColor::Green)
    ));
    assert!(matches!(
        cell(&c, Column::Cpu, false),
        ListCell::Percentage(m, UsageLevel::Medium) if m == metric(65.0)
    ));
    assert!(matches!(
        cell(&c, Column::Cpu, true),
        ListCell::Bar(m, UsageLevel::Medium) if m == metric(65.0)
    ));
    assert!(matches!(
        cell(&c, Column::Memory, false),
        ListCell::Percentage(m, UsageLevel::High) if m == metric(81.5)
    ));
    assert!(matches!(
        cell(&c, Column::Memory, true),
        ListCell::MemoryBar(m, 512, 1024, UsageLevel::High) if m == metric(81.5)
    ));
    for (column, rate) in [
        (Column::NetTx, 1.0),
        (Column::NetRx, 2.0),
        (Column::DiskRead, 3.0),
        (Column::DiskWrite, 4.0),
    ] {
        assert!(matches!(cell(&c, column, true), ListCell::Rate(m) if m == metric(rate)));
    }
    assert!(matches!(
        cell(&c, Column::Uptime, false),
        ListCell::Age(Some(Timestamp { secs: 9, nanos: 0 }))
    ));
}

#[test]
fn figures_of_other_containers_are_left_blank() {
    let mut c = container();
    c.state = ContainerState::Exited;
    for column in [
        Column::Cpu,
        Column::Memory,
        Column::Pids,
        Column::NetTx,
        Column::NetRx,
        Column::DiskRead,
        Column::DiskWrite,
    ] {
        assert_eq!(text(&c, column), "", "{column:?}");
    }
    assert_eq!(text(&c, Column::Uptime), "N/A");
    assert_eq!(text(&c, Column::Restarts), "-3");
}

#[test]
fn the_title_counts_containers() {
    assert_eq!(
        list_title("X.X.X", 30),
        "dtop vX.X.X - 30 containers ('?' for help, 'q' to quit)"
    );
    assert_eq!(
        list_title("0.7.10", 0),
        "dtop v0.7.10 - 0 containers ('?' for help, 'q' to quit)"
    );
}

#[test]
fn the_viewport_has_at_least_one_row() {
    assert_eq!(viewport_height(20), 16);
    assert_eq!(viewport_height(6), 2);
    assert_eq!(viewport_height(5), 1);
    assert_eq!(viewport_height(4), 1);
    assert_eq!(viewport_height(0), 1);
    assert_eq!(viewport_height(u16::MAX), 65531);
}

fn listed_state() -> AppState {
    let mut state = AppState::new(true, Column::Name, None, ColumnConfig::default());
    let mut other = container();
    other.id = "def987654321".to_string();
    other.name = "apache".to_string();
    other.state = ContainerState::Exited;
    for c in [container(), other] {
        let key = ContainerKey::new(c.host_id.clone(), c.id.clone());
        state.containers.insert(key, c);
    }
    state.force_sort_containers();
    state
}

#[test]
fn the_list_is_brought_up_to_date() {
    let mut state = listed_state();
    state.sorted_container_keys.clear();
    state.sort_state = SortState::new(Column::Id);
    let area = Area {
        x: 0,
        y: 0,
        width: 100,
        height: 20,
    };
    // Right after a sort only the rows and the columns are.
    state.prepare_list(area);
    assert_eq!(state.last_list_viewport_height, 16);
    assert_eq!(
        state.visible_columns_cache,
        state.column_config.visible_columns()
    );
    assert!(state.sorted_container_keys.is_empty());
    state.prepare_list_after(area, 3_000_000_000);
    let ids: Vec<&str> = state
        .sorted_container_keys
        .iter()
        .map(|key| key.container_id.as_str())
        .collect();
    assert_eq!(ids, vec!["abc123456789", "def987654321"]);
}

#[test]
fn the_list_is_laid_out() {
    let mut state = listed_state();
    let area = Area {
        x: 0,
        y: 0,
        width: 128,
        height: 20,
    };
    state.prepare_list(area);
    let view = state.list_view(area, "1.2.3", false);
    let columns = table_columns(&state.visible_columns_cache, false);
    assert_eq!(view.rows.len(), 2);
    assert!(view.rows.iter().all(|row| row.len() == columns.len()));
    assert_eq!(view.header.len(), columns.len());
    assert_eq!(view.widths.len(), columns.len());
    assert!(view.header.contains(&"Name ▲".to_string()));
    assert!(view.widths.contains(&ColumnWidth::Length(28)));
    assert!(matches!(&view.rows[0][2], ListCell::Text(name) if name == "apache"));
    assert!(matches!(&view.rows[1][2], ListCell::Text(name) if name == "nginx"));
    assert_eq!(
        view.title,
        "dtop v1.2.3 - 2 containers ('?' for help, 'q' to quit)"
    );

    // Below the width for bars, and with a key whose container is gone.
    let narrow = Area { width: 127, ..area };
    let gone = state.sorted_container_keys[0].clone();
    state.containers.remove(&gone);
    let view = state.list_view(narrow, "1.2.3", true);
    assert_eq!(view.rows.len(), 1);
    assert!(view.widths.contains(&ColumnWidth::Length(20)));
    assert!(!view.widths.contains(&ColumnWidth::Length(28)));
    assert!(view.title.contains(" 2 containers"));
}

#[test]
fn the_table_is_inside_its_block() {
    let state = listed_state();
    for (x, y, width, height) in [
        (0u16, 0u16, 100u16, 20u16),
        (3, 7, 40, 5),
        (0, 0, 4, 3),
        (0, 0, 3, 2),
        (5, 5, 0, 0),
        (10, 0, 1, 1),
        (65_000, 65_000, 535, 535),
        (65_535, 65_535, 0, 0),
    ] {
        let area = Area {
            x,
            y,
            width,
            height,
        };
        let view = state.list_view(area, "1", false);
        let block = Block::default()
            .borders(Borders::NONE)
            .padding(Padding::proportional(1))
            .title(view.title.clone());
        let inner = block.inner(Rect::new(x, y, width, height));
        assert_eq!(
            view.table_area,
            Area {
                x: inner.x,
                y: inner.y,
                width: inner.width,
                height: inner.height
            }
        );
    }
    let view = state.list_view(
        Area {
            x: 0,
            y: 0,
            width: 100,
            height: 20,
        },
        "1",
        false,
    );
    assert_eq!(
        view.table_area,
        Area {
            x: 2,
            y: 2,
            width: 96,
            height: 17
        }
    );
}
