//! The links over the names, held against the table that the terminal draws.
use dtop::app_state::AppState;
use dtop::columns::{Column, ColumnConfig};
use dtop::containers::{Container, ContainerKey, ContainerState, ContainerStats, Metric};
use dtop::links::{place_links, Link, COLUMN_SPACING, HEADER_ROWS};
use dtop::list::{create_memory_progress_bar, create_progress_bar, ListCell, ListView};
use dtop::outside::{Area, ColumnSpan, ColumnWidth};
use ratatui::buffer::Buffer;
use ratatui::layout::{Constraint, Flex, Layout, Rect};
use ratatui::widgets::{Block, Borders, Padding, Row, StatefulWidget, Table, TableState, Widget};

fn metric(value: f64) -> Metric {
    Metric {
        bits: value.to_bits(),
    }
}

fn new_state() -> AppState {
    AppState::new(false, Column::Uptime, None, ColumnConfig::default())
}

fn test_container(id: &str, name: &str, dozzle: Option<&str>) -> Container {
    let mut stats = ContainerStats::default();
    stats.cpu = metric(10.0);
    stats.memory = metric(20.0);
    Container {
        id: id.to_string(),
        name: name.to_string(),
        state: ContainerState::Running,
        health: None,
        created: None,
        stats,
        host_id: "local".to_string(),
        dozzle_url: dozzle.map(str::to_string),
        restart_count: None,
        compose_project: None,
        image: None,
    }
}

fn add(state: &mut AppState, container: Container) {
    let key = ContainerKey::new(container.host_id.clone(), container.id.clone());
    state.containers.insert(key, container);
    state.force_sort_containers();
    state.ensure_selection();
}

fn cell_text(cell: &ListCell) -> String {
    let value = |m: &Metric| f64::from_bits(m.bits);
    let filled = |p: f64| ((p.clamp(0.0, 100.0) / 100.0) * 20.0).round() as usize;
    match cell {
        ListCell::Text(text) => text.clone(),
        ListCell::Status(_, _) => "o".to_string(),
        ListCell::Percentage(m, _) => format!("{:5.1}%", value(m)),
        ListCell::Bar(m, _) => {
            create_progress_bar(filled(value(m)), 20, &format!("{:5.1}", value(m)))
        }
        ListCell::MemoryBar(m, used, limit, _) => create_memory_progress_bar(
            filled(value(m)),
            20,
            &format!("{used}B"),
            &format!("{limit}B"),
        ),
        ListCell::Rate(m) => format!("{:.0}B/s", value(m)),
        ListCell::Age(_) => "just now".to_string(),
    }
}

/// Draws the list as the terminal does, and writes back the first row on screen.
fn draw(state: &mut AppState, width: u16, height: u16) -> (Buffer, ListView) {
    let rect = Rect::new(0, 0, width, height);
    let area = Area {
        x: 0,
        y: 0,
        width,
        height,
    };
    state.prepare_list(area);
    let view = state.list_view(area, "X.X.X", false);
    let rows: Vec<Row> = view
        .rows
        .iter()
        .map(|row| Row::new(row.iter().map(cell_text).collect::<Vec<String>>()))
        .collect();
    let constraints: Vec<Constraint> = view
        .widths
        .iter()
        .map(|width| match width {
            ColumnWidth::Length(n) => Constraint::Length(*n),
            ColumnWidth::Min(n) => Constraint::Min(*n),
        })
        .collect();
    let block = Block::default()
        .borders(Borders::NONE)
        .padding(Padding::proportional(1))
        .title(view.title.clone());
    let table = Table::new(rows, constraints)
        .header(Row::new(view.header.clone()).bottom_margin(1))
        .block(block);
    let mut table_state = TableState::default()
        .with_offset(state.table_state.offset)
        .with_selected(state.table_state.selected);
    let mut buffer = Buffer::empty(rect);
    StatefulWidget::render(table, rect, &mut buffer, &mut table_state);
    state.table_state.offset = table_state.offset();
    state.table_state.selected = table_state.selected();
    (buffer, view)
}

fn links(state: &AppState, view: &ListView) -> Vec<Link> {
    state.dozzle_links(view.table_area, &view.widths, false, true)
}

/// Finds the top-left cell of `text` in the buffer, scanning row by row.
fn find_text_position(buffer: &Buffer, text: &str) -> Option<(u16, u16)> {
    let area = buffer.area();
    for y in 0..area.height {
        let mut row = String::new();
        for x in 0..area.width {
            row.push_str(buffer[(x, y)].symbol());
        }
        if let Some(byte_index) = row.find(text) {
            let column = row[..byte_index].chars().count() as u16;
            return Some((column, y));
        }
    }
    None
}

/// The hyperlink must land on exactly the cell where the Name column starts.
#[test]
fn test_dozzle_hyperlink_lands_on_name_column() {
    let mut state = new_state();
    add(
        &mut state,
        test_container("abc123456789", "nginx", Some("https://l.dozzle.dev/")),
    );
    let (plain, view) = draw(&mut state, 100, 20);
    let (x, y) = find_text_position(&plain, "nginx").expect("name should render");
    let links = links(&state, &view);
    assert_eq!(links.len(), 1);
    assert_eq!((links[0].x, links[0].y), (x, y));
    assert_eq!(links[0].url, "https://l.dozzle.dev/container/abc123456789");
    assert_eq!(links[0].label, "nginx");
    assert_eq!(links[0].width, 5);
}

/// Pins the overlay's replayed column layout against the width `Table` actually
/// used for the Name column: a long name on a wide terminal is linked in full.
#[test]
fn test_link_spans_full_name_at_wide_terminal() {
    let name = "compassionate_fermi"; // 19 chars, well over Min(8)
    let mut state = new_state();
    add(
        &mut state,
        test_container("e855f52b69e3", name, Some("http://localhost:8080")),
    );
    let (plain, view) = draw(&mut state, 162, 20);
    let (x, y) = find_text_position(&plain, name).expect("name should render in full");
    assert_eq!(plain[(x + 18, y)].symbol(), "i");
    let links = links(&state, &view);
    assert_eq!(links.len(), 1);
    assert_eq!((links[0].x, links[0].y), (x, y));
    assert_eq!(
        links[0].url,
        "http://localhost:8080/container/e855f52b69e3"
    );
    assert_eq!(links[0].label, name);
    assert_eq!(links[0].width, 19);
}

#[test]
fn test_no_hyperlink_when_disabled_or_dozzle_unset() {
    let mut state = new_state();
    add(
        &mut state,
        test_container("abc123456789", "nginx", Some("https://l.dozzle.dev/")),
    );

    // Disabled by config/terminal detection.
    let (_, view) = draw(&mut state, 100, 20);
    let disabled = state.dozzle_links(view.table_area, &view.widths, false, false);
    assert!(disabled.is_empty());

    // Enabled, but the host has no Dozzle URL configured.
    let mut plain_state = new_state();
    add(
        &mut plain_state,
        test_container("abc123456789", "nginx", None),
    );
    let (_, view) = draw(&mut plain_state, 100, 20);
    assert!(links(&plain_state, &view).is_empty());
}

/// Rows scroll under the header, so the overlay has to offset by the first row on
/// screen or links drift onto the wrong containers.
#[test]
fn test_hyperlink_follows_scroll_offset() {
    let mut state = new_state();
    for i in 0..40 {
        add(
            &mut state,
            test_container(
                &format!("container{i:04}0000"),
                &format!("svc-{i:02}"),
                Some("https://dozzle.example.com"),
            ),
        );
    }
    // Select a row well past the first screenful so the table scrolls.
    state.table_state.select(Some(35));
    let (plain, view) = draw(&mut state, 100, 20);
    assert!(state.table_state.offset > 0);

    let selected = state.table_state.selected().expect("a row is selected");
    let key = state.sorted_container_keys[selected].clone();
    let name = state.containers.get(&key).unwrap().name.clone();
    let (x, y) = find_text_position(&plain, &name).expect("selected name is on screen");
    let links = links(&state, &view);
    let link = links.iter().find(|link| link.label == name).unwrap();
    assert_eq!((link.x, link.y), (x, y), "link for {name}");
    assert_eq!(
        link.url,
        format!(
            "https://dozzle.example.com/container/{}",
            key.container_id
        )
    );
    // Every link lies on its name.
    assert_eq!(links.len(), 15);
    for link in &links {
        let position = find_text_position(&plain, &link.label);
        assert_eq!(position, Some((link.x, link.y)), "{}", link.label);
    }
}

#[test]
fn a_narrow_column_clips_the_link() {
    let mut state = new_state();
    let name = "compassionate_fermi";
    add(
        &mut state,
        test_container("e855f52b69e3", name, Some("http://localhost:8080")),
    );
    let (plain, view) = draw(&mut state, 90, 20);
    let links = links(&state, &view);
    assert_eq!(links.len(), 1);
    assert_eq!(links[0].label, "compassionate");
    assert_eq!(links[0].width, 13);
    let shown = find_text_position(&plain, "compassionate");
    assert_eq!(shown, Some((links[0].x, links[0].y)));
}

/// The default columns ask for more than an ordinary terminal has: the name column
/// keeps its minimum there, and every name is linked.
#[test]
fn names_are_linked_where_the_columns_have_no_room() {
    let mut state = new_state();
    for (id, name) in [
        ("aaa", "compassionate_fermi"),
        ("bbb", "peaceful_jepsen"),
        ("ccc", "db"),
    ] {
        add(&mut state, test_container(id, name, Some("https://d/")));
    }
    for (width, height) in [(80, 24), (84, 24), (60, 24), (30, 10)] {
        let (plain, view) = draw(&mut state, width, height);
        let links = links(&state, &view);
        assert_eq!(links.len(), 3, "{width}");
        for (link, (label, url, row)) in links.iter().zip([
            ("compassi", "https://d/container/aaa", 0),
            ("peaceful", "https://d/container/bbb", 1),
            ("db", "https://d/container/ccc", 2),
        ]) {
            assert_eq!(link.label, label, "{width}");
            assert_eq!(link.url, url);
            assert_eq!(link.y, view.table_area.y + HEADER_ROWS + row);
            assert_eq!(link.width as usize, label.len());
            let drawn: String = (link.x..link.x + link.width)
                .map(|x| plain[(x, link.y)].symbol())
                .collect();
            assert_eq!(drawn, label, "{width}");
        }
    }
}

#[test]
fn no_link_without_a_name_column() {
    let mut state = new_state();
    add(
        &mut state,
        test_container("abc123456789", "nginx", Some("https://l.dozzle.dev")),
    );
    for entry in state.column_config.columns.iter_mut() {
        if entry.0 == Column::Name {
            entry.1 = false;
        }
    }
    let (_, view) = draw(&mut state, 100, 20);
    assert!(links(&state, &view).is_empty());
}

/// The hyperlink overlay recomputes the Name column's x-offset by replaying
/// `Table`'s layout. If ratatui ever changes `column_spacing`'s default or
/// the flex behaviour, this pins the assumption.
#[test]
fn test_column_layout_matches_table_defaults() {
    // Render a bare table and check where it actually put column 1.
    let mut rendered = Buffer::empty(Rect::new(0, 0, 20, 3));
    let table = Table::new(
        vec![Row::new(vec!["ab", "cd"])],
        [Constraint::Length(4), Constraint::Length(4)],
    );
    Widget::render(table, Rect::new(0, 0, 20, 3), &mut rendered);

    // Column 0 occupies x=0..4, then one spacing column, so column 1 starts
    // at x=5.
    assert_eq!(rendered[(0, 0)].symbol(), "a");
    assert_eq!(rendered[(5, 0)].symbol(), "c");

    // The overlay's replayed layout must agree with that.
    let rects = Layout::horizontal([Constraint::Length(4), Constraint::Length(4)])
        .flex(Flex::Start)
        .spacing(COLUMN_SPACING)
        .split(Rect::new(0, 0, 20, 1));
    assert_eq!(rects[0].x, 0);
    assert_eq!(rects[1].x, 5);
}

#[test]
fn links_are_placed_by_the_name_column() {
    let mut state = new_state();
    add(
        &mut state,
        test_container("aaa", "日本語", Some("https://d//")),
    );
    add(&mut state, test_container("bbb", "b", None));
    add(&mut state, test_container("ccc", "c", Some("https://d")));
    let area = Area {
        x: 3,
        y: 4,
        width: 30,
        height: 5,
    };
    let span = ColumnSpan { x: 7, width: 5 };
    let place = |area, span, offset| {
        place_links(
            &state.containers,
            &state.sorted_container_keys,
            offset,
            area,
            span,
        )
        .into_iter()
        .map(|link| (link.label, link.url, link.x, link.y, link.width))
        .collect::<Vec<_>>()
    };
    let first = (
        "日本".to_string(),
        "https://d/container/aaa".to_string(),
        10,
        6,
        4,
    );
    let third = |y| {
        (
            "c".to_string(),
            "https://d/container/ccc".to_string(),
            10,
            y,
            1,
        )
    };
    assert_eq!(HEADER_ROWS, 2);
    assert_eq!(place(area, span, 0), vec![first.clone(), third(8)]);
    assert_eq!(place(area, span, 1), vec![third(7)]);
    assert_eq!(place(area, span, 3), vec![]);
    assert_eq!(place(area, span, usize::MAX), vec![]);
    // No more rows than there is room for.
    assert_eq!(place(Area { height: 4, ..area }, span, 0), vec![first]);
    assert_eq!(place(Area { height: 2, ..area }, span, 0), vec![]);
    // Nothing of a name that does not fit.
    assert_eq!(
        place(area, ColumnSpan { x: 7, width: 1 }, 0),
        vec![third(8)]
    );
    assert_eq!(place(area, ColumnSpan { x: 7, width: 0 }, 0), vec![]);
}

/// Where the columns have room, the name column begins right after those before it
/// and gets what the others leave.
#[test]
fn the_name_column_is_laid_out_by_the_widths() {
    let mut state = new_state();
    let name = "n".repeat(400);
    add(
        &mut state,
        test_container("abc123456789", &name, Some("https://d")),
    );
    let mut seed: u64 = 7;
    let mut random = |below: u64| {
        seed = seed
            .wrapping_mul(6364136223846793005)
            .wrapping_add(1442695040888963407);
        ((seed >> 33) % below) as u16
    };
    let others: Vec<Column> = Column::all_default()
        .into_iter()
        .filter(|column| *column != Column::Name)
        .collect();
    for _ in 0..200 {
        let count = 1 + random(15) as usize;
        let index = random(count as u64) as usize;
        let mut columns: Vec<Column> = others[..count - 1].to_vec();
        columns.insert(index, Column::Name);
        let mut widths: Vec<ColumnWidth> =
            (0..count).map(|_| ColumnWidth::Length(random(40))).collect();
        let minimum = random(4) != 0;
        let asked_for = 1 + random(20);
        widths[index] = if minimum {
            ColumnWidth::Min(asked_for)
        } else {
            ColumnWidth::Length(asked_for)
        };
        let asked = |width: &ColumnWidth| match width {
            ColumnWidth::Length(n) | ColumnWidth::Min(n) => *n,
        };
        let sum: u16 = widths.iter().map(asked).sum();
        let left = random(3) * random(60);
        let before: u16 = widths[..index].iter().map(asked).sum();
        state.visible_columns_cache = columns;
        let area = Area {
            x: 2,
            y: 2,
            width: sum + (count as u16 - 1) + left,
            height: 10,
        };
        let links = state.dozzle_links(area, &widths, true, true);
        assert_eq!(links.len(), 1, "{widths:?} {area:?}");
        assert_eq!(links[0].x, 2 + before + index as u16, "{widths:?} {area:?}");
        let expected = asked_for + if minimum { left } else { 0 };
        assert_eq!(links[0].width, expected, "{widths:?} {area:?}");
    }
}

/// The layout that the links go by, at the edges of what a terminal can hold.
#[test]
fn wide_rows_are_laid_out_by_the_widths() {
    let split = |constraints: Vec<Constraint>, spacing: u16, total: u16| {
        Layout::horizontal(constraints)
            .flex(Flex::Start)
            .spacing(spacing)
            .split(Rect::new(0, 0, total, 1))
            .iter()
            .map(|rect| (rect.x, rect.width))
            .collect::<Vec<_>>()
    };
    let length = Constraint::Length;
    assert_eq!(
        split(
            vec![length(10), Constraint::Min(40_000), length(5)],
            1,
            u16::MAX
        ),
        vec![(0, 10), (11, 65_518), (65_530, 5)]
    );
    assert_eq!(
        split(vec![length(30_000), length(30_000)], 5_535, u16::MAX),
        vec![(0, 30_000), (35_535, 30_000)]
    );
    assert_eq!(
        split(vec![length(0), length(0), Constraint::Min(0)], 0x7fff, u16::MAX),
        vec![(0, 0), (32_767, 0), (65_534, 1)]
    );
    assert_eq!(split(vec![Constraint::Min(0)], 9, 0), vec![(0, 0)]);
    assert_eq!(split(vec![length(3)], 9, 3), vec![(0, 3)]);
    assert_eq!(
        split(vec![length(1); 15], 1, 29),
        (0..15).map(|i| (2 * i, 1)).collect::<Vec<_>>()
    );
}

/// Where a row has room for the spacing and the one minimum only, these are kept,
/// and the lengths give way by no more than they have to.
#[test]
fn rows_without_room_keep_the_spacing_and_the_minimum() {
    let mut seed: u64 = 11;
    let mut random = |below: u64| {
        seed = seed
            .wrapping_mul(6364136223846793005)
            .wrapping_add(1442695040888963407);
        ((seed >> 33) % below) as u16
    };
    for _ in 0..200 {
        let count = 2 + random(14);
        let spacing = random(4);
        let mut asked: Vec<u16> = (0..count).map(|_| random(30)).collect();
        let minimum = random(u64::from(count) + 3);
        if minimum < count {
            asked[minimum as usize] = random(15);
        }
        let constraints: Vec<Constraint> = (0..count)
            .map(|i| {
                let n = asked[i as usize];
                if i == minimum {
                    Constraint::Min(n)
                } else {
                    Constraint::Length(n)
                }
            })
            .collect();
        let gaps = spacing * (count - 1);
        let kept = if minimum < count {
            asked[minimum as usize]
        } else {
            0
        };
        let sum: u16 = asked.iter().sum();
        let total = gaps + kept + random(u64::from(sum - kept) + 1);
        let spans: Vec<(u16, u16)> = Layout::horizontal(constraints.clone())
            .flex(Flex::Start)
            .spacing(spacing)
            .split(Rect::new(0, 0, total, 1))
            .iter()
            .map(|rect| (rect.x, rect.width))
            .collect();
        let mut edge = 0;
        for i in 0..count {
            let (x, width) = spans[i as usize];
            assert_eq!(x, edge, "{constraints:?} {spacing} {total} {spans:?}");
            if i == minimum {
                let left = (total - gaps).saturating_sub(sum);
                assert_eq!(width, kept + left, "{constraints:?} {spacing} {total}");
            } else {
                assert!(width <= asked[i as usize], "{constraints:?} {total}");
            }
            edge = x + width + spacing;
        }
        if gaps + sum > total {
            assert_eq!(edge - spacing, total, "{constraints:?} {spacing} {total}");
        }
    }
}

#[test]
fn links_go_by_the_span_of_the_name_column() {
    let mut state = new_state();
    add(
        &mut state,
        test_container("abc", "nginx", Some("https://d")),
    );
    state.visible_columns_cache = vec![Column::Id, Column::Host, Column::Name, Column::Cpu];
    let area = Area {
        x: 0,
        y: 0,
        width: 40,
        height: 9,
    };
    let span = |x, width| ColumnSpan { x, width };
    let spans = vec![span(0, 4), span(5, 6), span(12, 7), span(20, 20)];
    let links = state.links_at(area, &spans, true);
    assert_eq!((links[0].x, links[0].width), (12, 5));
    // Without the host column the name is the second.
    let links = state.links_at(area, &spans, false);
    assert_eq!((links[0].x, links[0].width), (5, 5));
    // A column that has no span has no links.
    assert!(state.links_at(area, &spans[..2].to_vec(), true).is_empty());
    let few = vec![ColumnWidth::Length(4)];
    assert!(state.dozzle_links(area, &few, true, true).is_empty());
    state.visible_columns_cache = vec![Column::Id];
    assert!(state.links_at(area, &spans, true).is_empty());
}
