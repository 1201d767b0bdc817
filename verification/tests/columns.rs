//! Columns, their order and the sort state.
use dtop::columns::{Column, ColumnConfig, SortDirection, SortState};

#[test]
fn test_column_default_sort_direction() {
    assert_eq!(
        Column::Uptime.default_sort_direction(),
        SortDirection::Descending
    );
    assert_eq!(
        Column::Name.default_sort_direction(),
        SortDirection::Ascending
    );
    assert_eq!(
        Column::Cpu.default_sort_direction(),
        SortDirection::Descending
    );
    assert_eq!(
        Column::Memory.default_sort_direction(),
        SortDirection::Descending
    );
    assert_eq!(
        Column::Pids.default_sort_direction(),
        SortDirection::Descending
    );
    assert_eq!(
        Column::NetTx.default_sort_direction(),
        SortDirection::Descending
    );
    assert_eq!(
        Column::NetRx.default_sort_direction(),
        SortDirection::Descending
    );
    assert_eq!(
        Column::DiskRead.default_sort_direction(),
        SortDirection::Descending
    );
    assert_eq!(
        Column::DiskWrite.default_sort_direction(),
        SortDirection::Descending
    );
    assert_eq!(
        Column::Id.default_sort_direction(),
        SortDirection::Ascending
    );
    assert_eq!(
        Column::Host.default_sort_direction(),
        SortDirection::Ascending
    );
    assert_eq!(
        Column::Restarts.default_sort_direction(),
        SortDirection::Descending
    );
}

#[test]
fn test_sort_state_new() {
    let state = SortState::new(Column::Name);
    assert_eq!(state.field, Column::Name);
    assert_eq!(state.direction, SortDirection::Ascending);

    let state = SortState::new(Column::Cpu);
    assert_eq!(state.field, Column::Cpu);
    assert_eq!(state.direction, SortDirection::Descending);
}

#[test]
fn test_column_label() {
    assert_eq!(Column::Status.label(), "Status Icon");
    assert_eq!(Column::Name.label(), "Name");
    assert_eq!(Column::Id.label(), "ID");
    assert_eq!(Column::Host.label(), "Host");
    assert_eq!(Column::Cpu.label(), "CPU %");
    assert_eq!(Column::Memory.label(), "Memory %");
    assert_eq!(Column::Pids.label(), "PIDs");
    assert_eq!(Column::NetTx.label(), "Net TX");
    assert_eq!(Column::NetRx.label(), "Net RX");
    assert_eq!(Column::DiskRead.label(), "Disk R");
    assert_eq!(Column::DiskWrite.label(), "Disk W");
    assert_eq!(Column::Uptime.label(), "Uptime");
    assert_eq!(Column::Restarts.label(), "Restarts");
    assert_eq!(Column::Image.label(), "Image");
}

#[test]
fn test_column_config_default_all_visible() {
    let config = ColumnConfig::default();
    assert_eq!(config.columns.len(), 15);
    // All columns except Restarts, Compose, Image, DiskRead, DiskWrite, Pids should be visible by default
    for (col, visible) in &config.columns {
        assert_eq!(*visible, col.default_visible());
    }
}

#[test]
fn test_column_config_visible_columns() {
    let mut config = ColumnConfig::default();
    let id_idx = config
        .columns
        .iter()
        .position(|(c, _)| *c == Column::Id)
        .unwrap();
    config.columns[id_idx] = (Column::Id, false);
    let visible = config.visible_columns();
    assert!(!visible.contains(&Column::Id));
    // Default has 9 visible (Restarts, Compose, Image, DiskRead, DiskWrite, Pids hidden), minus Id = 8
    assert_eq!(visible.len(), 8);
}

#[test]
fn test_column_config_toggle() {
    let mut config = ColumnConfig::default();
    let id_idx = config
        .columns
        .iter()
        .position(|(c, _)| *c == Column::Id)
        .unwrap();
    config.toggle(id_idx);
    assert!(!config.columns[id_idx].1);
    config.toggle(id_idx);
    assert!(config.columns[id_idx].1);
}

#[test]
fn test_column_config_toggle_name_is_noop() {
    let mut config = ColumnConfig::default();
    let name_idx = config
        .columns
        .iter()
        .position(|(c, _)| *c == Column::Name)
        .unwrap();
    config.toggle(name_idx);
    assert!(config.columns[name_idx].1);
}

#[test]
fn test_column_config_move_up() {
    let mut config = ColumnConfig::default();
    // Default order: Id, Status, Name, ...
    // After move_up(2): Id, Name, Status, ...
    config.move_up(2);
    assert_eq!(config.columns[1].0, Column::Name);
    assert_eq!(config.columns[2].0, Column::Status);
}

#[test]
fn test_column_config_move_up_at_zero_is_noop() {
    let mut config = ColumnConfig::default();
    let first = config.columns[0].0;
    config.move_up(0);
    assert_eq!(config.columns[0].0, first);
}

#[test]
fn test_column_config_move_down() {
    let mut config = ColumnConfig::default();
    let col_at_0 = config.columns[0].0;
    config.move_down(0);
    assert_eq!(config.columns[1].0, col_at_0);
}

#[test]
fn test_column_config_move_down_at_end_is_noop() {
    let mut config = ColumnConfig::default();
    let last_idx = config.columns.len() - 1;
    let last = config.columns[last_idx].0;
    config.move_down(last_idx);
    assert_eq!(config.columns[last_idx].0, last);
}

#[test]
fn test_column_config_equality() {
    let config1 = ColumnConfig::default();
    let mut config2 = ColumnConfig::default();
    assert_eq!(config1, config2);
    let id_idx = config2
        .columns
        .iter()
        .position(|(c, _)| *c == Column::Id)
        .unwrap();
    config2.toggle(id_idx);
    assert_ne!(config1, config2);
}

#[test]
fn test_column_config_from_config_strings() {
    let strings = vec!["status".to_string(), "name".to_string(), "cpu".to_string()];
    let config = ColumnConfig::from_config_strings(&strings);
    let visible = config.visible_columns();
    assert_eq!(visible, vec![Column::Status, Column::Name, Column::Cpu]);
    assert_eq!(config.columns.len(), 15);
}

#[test]
fn test_column_config_to_config_strings() {
    let mut config = ColumnConfig::default();
    let id_idx = config
        .columns
        .iter()
        .position(|(c, _)| *c == Column::Id)
        .unwrap();
    config.toggle(id_idx);
    let strings = config.to_config_strings();
    assert!(!strings.contains(&"id".to_string()));
    assert!(strings.contains(&"name".to_string()));
}

#[test]
fn test_column_config_id() {
    assert_eq!(Column::Status.id(), "status");
    assert_eq!(Column::Name.id(), "name");
    assert_eq!(Column::Id.id(), "id");
    assert_eq!(Column::Host.id(), "host");
    assert_eq!(Column::Cpu.id(), "cpu");
    assert_eq!(Column::Memory.id(), "memory");
    assert_eq!(Column::Pids.id(), "pids");
    assert_eq!(Column::NetTx.id(), "net_tx");
    assert_eq!(Column::NetRx.id(), "net_rx");
    assert_eq!(Column::DiskRead.id(), "disk_read");
    assert_eq!(Column::DiskWrite.id(), "disk_write");
    assert_eq!(Column::Uptime.id(), "uptime");
    assert_eq!(Column::Restarts.id(), "restarts");
    assert_eq!(Column::Image.id(), "image");
}

#[test]
fn test_column_from_id() {
    assert_eq!(Column::from_id("status"), Some(Column::Status));
    assert_eq!(Column::from_id("name"), Some(Column::Name));
    assert_eq!(Column::from_id("id"), Some(Column::Id));
    assert_eq!(Column::from_id("host"), Some(Column::Host));
    assert_eq!(Column::from_id("cpu"), Some(Column::Cpu));
    assert_eq!(Column::from_id("memory"), Some(Column::Memory));
    assert_eq!(Column::from_id("pids"), Some(Column::Pids));
    assert_eq!(Column::from_id("net_tx"), Some(Column::NetTx));
    assert_eq!(Column::from_id("net_rx"), Some(Column::NetRx));
    assert_eq!(Column::from_id("disk_read"), Some(Column::DiskRead));
    assert_eq!(Column::from_id("disk_write"), Some(Column::DiskWrite));
    assert_eq!(Column::from_id("uptime"), Some(Column::Uptime));
    assert_eq!(Column::from_id("restarts"), Some(Column::Restarts));
    assert_eq!(Column::from_id("image"), Some(Column::Image));
    assert_eq!(Column::from_id("invalid"), None);
}

#[test]
fn directions_toggle_and_have_symbols() {
    assert_eq!(SortDirection::Ascending.toggle(), SortDirection::Descending);
    assert_eq!(SortDirection::Descending.toggle(), SortDirection::Ascending);
    assert_eq!(SortDirection::Ascending.symbol(), "▲");
    assert_eq!(SortDirection::Descending.symbol(), "▼");
}

#[test]
fn an_explicit_direction_overrides_the_default() {
    let state = SortState::new_with_direction(Column::Name, Some(SortDirection::Descending));
    assert_eq!(state.direction, SortDirection::Descending);
    let state = SortState::new_with_direction(Column::Name, None);
    assert_eq!(state.direction, SortDirection::Ascending);
    let state = SortState::default();
    assert_eq!(state.field, Column::Uptime);
    assert_eq!(state.direction, SortDirection::Descending);
}

#[test]
fn sort_fields_ignore_case_and_know_aliases() {
    assert_eq!(Column::from_sort_str("CPU"), Some(Column::Cpu));
    assert_eq!(Column::from_sort_str("Net_Rx"), Some(Column::NetRx));
    assert_eq!(Column::from_sort_str("U"), Some(Column::Uptime));
    assert_eq!(Column::from_sort_str("n"), Some(Column::Name));
    assert_eq!(Column::from_sort_str("c"), Some(Column::Cpu));
    assert_eq!(Column::from_sort_str("M"), Some(Column::Memory));
    assert_eq!(Column::from_sort_str("mem"), Some(Column::Memory));
    assert_eq!(Column::from_sort_str("é"), None);
    assert_eq!(Column::from_sort_str(""), None);
}

#[test]
fn sort_labels_differ_from_labels() {
    assert_eq!(Column::Status.sort_label(), "Status");
    assert_eq!(Column::Cpu.sort_label(), "CPU");
    assert_eq!(Column::Memory.sort_label(), "Memory");
    assert_eq!(Column::DiskRead.sort_label(), "Disk Read");
    assert_eq!(Column::DiskWrite.sort_label(), "Disk Write");
    assert_eq!(Column::Compose.sort_label(), "Compose");
}

#[test]
fn every_id_reads_back() {
    for column in Column::all_default() {
        assert_eq!(Column::from_id(column.id()), Some(column));
        assert_eq!(Column::from_sort_str(column.id()), Some(column));
    }
}

#[test]
fn unlisted_columns_are_hidden_and_unknown_or_repeated_names_ignored() {
    let strings = vec![
        "cpu".to_string(),
        "nonsense".to_string(),
        "name".to_string(),
        "cpu".to_string(),
    ];
    let config = ColumnConfig::from_config_strings(&strings);
    assert_eq!(config.visible_columns(), vec![Column::Cpu, Column::Name]);
    assert_eq!(config.columns.len(), 15);
    assert!(config.columns[2..].iter().all(|(_, visible)| !visible));
}

#[test]
fn config_strings_read_back() {
    let mut config = ColumnConfig::default();
    config.move_up(4);
    config.toggle(0);
    let again = ColumnConfig::from_config_strings(&config.to_config_strings());
    assert_eq!(again.visible_columns(), config.visible_columns());
}

#[test]
fn moves_undo_each_other() {
    let mut config = ColumnConfig::default();
    config.move_up(5);
    assert_eq!(config.columns[4].0, Column::Image);
    config.move_down(4);
    assert_eq!(config, ColumnConfig::default());
    config.move_up(99);
    config.toggle(99);
    assert_eq!(config, ColumnConfig::default());
}

#[test]
fn edits_keep_every_column_and_the_name_shown() {
    let mut config = ColumnConfig::default();
    for index in 0..20 {
        config.toggle(index);
        config.move_up(index);
        config.move_down(index / 2);
    }
    assert_eq!(config.columns.len(), 15);
    for column in Column::all_default() {
        let times = config.columns.iter().filter(|(c, _)| *c == column).count();
        assert_eq!(times, 1, "{column:?}");
    }
    assert!(config.visible_columns().contains(&Column::Name));
}
