//! The container list as it is shown: its columns, rows and header.
use crate::app_state;
use crate::app_state::AppState;
use crate::columns;
use crate::columns::{Column, SortDirection, SortState};
use crate::containers::{
    Container, ContainerKey, ContainerState, HealthStatus, Metric, UsageLevel,
};
use crate::outside;
use crate::outside::{elapsed_nanos, now, titled_block_inner, Area, ColumnWidth, Timestamp};
use crate::text;
use crate::text::{decimal, signed_decimal};
use std::time::Instant;
use vstd::prelude::*;
use vstd::string::*;

verus! {

/// The width from which on the list shows progress bars.
pub const PROGRESS_BAR_MIN_WIDTH: u16 = 128;

/// The width of a progress bar.
pub const BAR_WIDTH: usize = 20;

/// The padding of the block around the table.
pub const LIST_PADDING: u16 = 1;

/// A bar of filled and empty blocks.
pub open spec fn bar(filled: nat, empty: nat) -> Seq<char> {
    Seq::new(filled, |i: int| '█') + Seq::new(empty, |i: int| '░')
}

/// Writes the progress bar characters (filled + empty) into the given String buffer
pub fn write_bar(buf: &mut String, filled_width: usize, empty_width: usize)
    ensures
        final(buf)@ == old(buf)@ + bar(filled_width as nat, empty_width as nat),
{
    proof {
        reveal_strlit("█");
        reveal_strlit("░");
    }
    let ghost before = buf@;
    let mut i: usize = 0;
    while i < filled_width
        invariant
            i <= filled_width,
            "█"@ == seq!['█'],
            buf@ == before + bar(i as nat, 0),
        decreases filled_width - i,
    {
        buf.append("█");
        i = i + 1;
        assert(buf@ =~= before + bar(i as nat, 0));
    }
    let mut j: usize = 0;
    while j < empty_width
        invariant
            j <= empty_width,
            "░"@ == seq!['░'],
            buf@ == before + bar(filled_width as nat, j as nat),
        decreases empty_width - j,
    {
        buf.append("░");
        j = j + 1;
        assert(buf@ =~= before + bar(filled_width as nat, j as nat));
    }
}

/// The blocks that a bar of the given width leaves empty.
pub open spec fn left_empty(filled: usize, width: usize) -> nat {
    if filled <= width {
        (width - filled) as nat
    } else {
        0
    }
}

/// Creates a text-based progress bar with percentage, given how much of the bar
/// is filled and the percentage in five columns
pub fn create_progress_bar(filled_width: usize, width: usize, percentage: &str) -> (r: String)
    ensures
        r@ == bar(filled_width as nat, left_empty(filled_width, width)) + " "@ + percentage@
            + "%"@,
{
    let empty_width: usize = width.saturating_sub(filled_width);
    let mut result = String::new();
    write_bar(&mut result, filled_width, empty_width);
    result.append(" ");
    result.append(percentage);
    result.append("%");
    result
}

/// Creates a text-based progress bar with memory used/limit display, given how
/// much of the bar is filled
pub fn create_memory_progress_bar(filled_width: usize, width: usize, used: &str, limit: &str) -> (r:
    String)
    ensures
        r@ == bar(filled_width as nat, left_empty(filled_width, width)) + " "@ + used@ + "/"@
            + limit@,
{
    let empty_width: usize = width.saturating_sub(filled_width);
    let mut result = String::new();
    write_bar(&mut result, filled_width, empty_width);
    result.append(" ");
    result.append(used);
    result.append("/");
    result.append(limit);
    result
}

/// Which icon stands for how a container fares.
#[derive(Clone, Copy, Debug, PartialEq, Eq, Structural)]
pub enum StatusIcon {
    Health(HealthStatus),
    State(ContainerState),
}

/// The color of a status icon.
#[derive(Clone, Copy, Debug, PartialEq, Eq, Structural)]
pub enum StatusColor {
    Green,
    Yellow,
    Red,
    Cyan,
    Gray,
}

/// The color that stands for a health.
pub open spec fn health_color(health: HealthStatus) -> StatusColor {
    match health {
        HealthStatus::Healthy => StatusColor::Green,
        HealthStatus::Unhealthy => StatusColor::Red,
        HealthStatus::Starting => StatusColor::Yellow,
    }
}

/// The color that stands for a state.
pub open spec fn state_color(state: ContainerState) -> StatusColor {
    match state {
        ContainerState::Running => StatusColor::Green,
        ContainerState::Paused | ContainerState::Restarting | ContainerState::Removing
            => StatusColor::Yellow,
        ContainerState::Exited | ContainerState::Dead => StatusColor::Red,
        ContainerState::Created => StatusColor::Cyan,
        ContainerState::Unknown => StatusColor::Gray,
    }
}

/// The icon and color of a container: by its health if it has health checks, else
/// by its state.
pub open spec fn status_of(state: ContainerState, health: Option<HealthStatus>) -> (
    StatusIcon,
    StatusColor,
) {
    match health {
        Some(h) => (StatusIcon::Health(h), health_color(h)),
        None => (StatusIcon::State(state), state_color(state)),
    }
}

/// Returns the status icon and color based on container health (if available) or state
pub fn get_status_icon(state: &ContainerState, health: &Option<HealthStatus>) -> (r: (
    StatusIcon,
    StatusColor,
))
    ensures
        r == status_of(*state, *health),
{
    // Prioritize health status if container has health checks configured
    if let Some(health) = health {
        let color = match health {
            HealthStatus::Healthy => StatusColor::Green,
            HealthStatus::Unhealthy => StatusColor::Red,
            HealthStatus::Starting => StatusColor::Yellow,
        };
        return (StatusIcon::Health(*health), color);
    }
    // Use state-based icon if no health check is configured
    let color = match state {
        ContainerState::Running => StatusColor::Green,
        ContainerState::Paused => StatusColor::Yellow,
        ContainerState::Restarting => StatusColor::Yellow,
        ContainerState::Removing => StatusColor::Yellow,
        ContainerState::Exited => StatusColor::Red,
        ContainerState::Dead => StatusColor::Red,
        ContainerState::Created => StatusColor::Cyan,
        ContainerState::Unknown => StatusColor::Gray,
    };
    (StatusIcon::State(*state), color)
}

/// Whether a column is in the table: all are, but for the host's where it is not
/// to be shown.
pub open spec fn in_table(column: Column, show_host_column: bool) -> bool {
    column != Column::Host || show_host_column
}

/// The columns that are in the table.
pub open spec fn table_columns_of(columns: Seq<Column>, show_host_column: bool) -> Seq<Column>
    decreases columns.len(),
{
    if columns.len() == 0 {
        Seq::empty()
    } else {
        let front = table_columns_of(columns.drop_last(), show_host_column);
        if in_table(columns.last(), show_host_column) {
            front.push(columns.last())
        } else {
            front
        }
    }
}

/// The columns that are in the table.
pub fn table_columns(visible_columns: &Vec<Column>, show_host_column: bool) -> (r: Vec<Column>)
    ensures
        r@ == table_columns_of(visible_columns@, show_host_column),
{
    let ghost all = visible_columns@;
    let mut r: Vec<Column> = Vec::new();
    let mut i: usize = 0;
    while i < visible_columns.len()
        invariant
            all == visible_columns@,
            i <= all.len(),
            r@ == table_columns_of(all.take(i as int), show_host_column),
        decreases all.len() - i,
    {
        assert(all.take(i + 1).drop_last() =~= all.take(i as int));
        let column = visible_columns[i];
        if column != Column::Host || show_host_column {
            r.push(column);
        }
        i = i + 1;
    }
    assert(all.take(i as int) =~= all);
    r
}

/// The table leaves out the host column at most, and keeps the order of the
/// others.
pub proof fn law_table_leaves_out_only_the_host(columns: Seq<Column>, show_host_column: bool)
    ensures
        forall|c: Column| #[trigger]
            table_columns_of(columns, show_host_column).contains(c) <==> columns.contains(c)
                && in_table(c, show_host_column),
        show_host_column ==> table_columns_of(columns, show_host_column) == columns,
    decreases columns.len(),
{
    if columns.len() > 0 {
        let front = columns.drop_last();
        let last = columns.last();
        law_table_leaves_out_only_the_host(front, show_host_column);
        assert(columns =~= front.push(last));
        let before = table_columns_of(front, show_host_column);
        let after = table_columns_of(columns, show_host_column);
        assert forall|c: Column| #[trigger] after.contains(c) <==> columns.contains(c) && in_table(
            c,
            show_host_column,
        ) by {
            if front.contains(c) {
                assert(columns[front.index_of(c)] == c);
            }
            if columns.contains(c) && c != last {
                assert(front[columns.index_of(c)] == c);
            }
            if before.contains(c) {
                assert(after[before.index_of(c)] == c);
            }
            if after.contains(c) && c != last {
                assert(before[after.index_of(c)] == c);
            }
            assert(columns[columns.len() - 1] == last);
            if in_table(last, show_host_column) {
                assert(after[after.len() - 1] == last);
            }
        }
    }
}

/// The label of a column in the header.
pub open spec fn header_label(column: Column) -> Seq<char> {
    match column {
        Column::Status => ""@,
        Column::Name => "Name"@,
        Column::Id => "ID"@,
        Column::Host => "Host"@,
        Column::Compose => "Compose"@,
        Column::Image => "Image"@,
        Column::Cpu => "CPU %"@,
        Column::Memory => "Memory %"@,
        Column::Pids => "PIDs"@,
        Column::NetTx => "Net TX"@,
        Column::NetRx => "Net RX"@,
        Column::DiskRead => "Disk R"@,
        Column::DiskWrite => "Disk W"@,
        Column::Uptime => "Created"@,
        Column::Restarts => "Restarts"@,
    }
}

/// What the header says over a column: its label, and the direction where it is
/// the sort field and has a label.
pub open spec fn header_text(column: Column, sort: SortState) -> Seq<char> {
    if column == sort.field && column != Column::Status {
        header_label(column) + " "@ + sort.direction.symbol_text()
    } else {
        header_label(column)
    }
}

/// The label of a column in the header.
fn base_label(column: Column) -> (r: &'static str)
    ensures
        r@ == header_label(column),
{
    match column {
        Column::Status => "",
        Column::Name => "Name",
        Column::Id => "ID",
        Column::Host => "Host",
        Column::Compose => "Compose",
        Column::Image => "Image",
        Column::Cpu => "CPU %",
        Column::Memory => "Memory %",
        Column::Pids => "PIDs",
        Column::NetTx => "Net TX",
        Column::NetRx => "Net RX",
        Column::DiskRead => "Disk R",
        Column::DiskWrite => "Disk W",
        Column::Uptime => "Created",
        Column::Restarts => "Restarts",
    }
}

/// Creates the table header row
pub fn create_header_row(
    visible_columns: &Vec<Column>,
    show_host_column: bool,
    sort_state: SortState,
) -> (r: Vec<String>)
    ensures
        r@.len() == table_columns_of(visible_columns@, show_host_column).len(),
        forall|i: int|
            0 <= i < r@.len() ==> (#[trigger] r@[i])@ == header_text(
                table_columns_of(visible_columns@, show_host_column)[i],
                sort_state,
            ),
{
    let columns = table_columns(visible_columns, show_host_column);
    let mut r: Vec<String> = Vec::new();
    let mut i: usize = 0;
    while i < columns.len()
        invariant
            columns@ == table_columns_of(visible_columns@, show_host_column),
            i <= columns@.len(),
            r@.len() == i,
            forall|j: int|
                0 <= j < i ==> (#[trigger] r@[j])@ == header_text(columns@[j], sort_state),
        decreases columns@.len() - i,
    {
        let column = columns[i];
        let mut header = base_label(column).to_owned();
        if column == sort_state.field && column != Column::Status {
            header.append(" ");
            header.append(sort_state.direction.symbol());
        }
        r.push(header);
        i = i + 1;
    }
    r
}

/// The width that a column asks for.
pub open spec fn width_of(column: Column, show_progress_bars: bool) -> ColumnWidth {
    match column {
        Column::Id => ColumnWidth::Length(12),
        Column::Status => ColumnWidth::Length(1),
        Column::Name => ColumnWidth::Min(8),
        Column::Host => ColumnWidth::Length(20),
        Column::Compose => ColumnWidth::Length(20),
        Column::Image => ColumnWidth::Length(30),
        Column::Cpu => ColumnWidth::Length(
            if show_progress_bars {
                28
            } else {
                7
            },
        ),
        Column::Memory => ColumnWidth::Length(
            if show_progress_bars {
                33
            } else {
                7
            },
        ),
        Column::Pids
        | Column::NetTx
        | Column::NetRx
        | Column::DiskRead
        | Column::DiskWrite => ColumnWidth::Length(12),
        Column::Uptime => ColumnWidth::Length(15),
        Column::Restarts => ColumnWidth::Length(10),
    }
}

/// Builds the column constraints for the table.
///
/// Shared with the hyperlink overlay, which re-runs the same layout to find
/// where the table put each column.
pub fn column_constraints(
    visible_columns: &Vec<Column>,
    show_host_column: bool,
    show_progress_bars: bool,
) -> (r: Vec<ColumnWidth>)
    ensures
        r@ == table_columns_of(visible_columns@, show_host_column).map_values(
            |column: Column| width_of(column, show_progress_bars),
        ),
{
    let cpu_width: u16 = if show_progress_bars {
        28
    } else {
        7
    };
    let mem_width: u16 = if show_progress_bars {
        33
    } else {
        7
    };
    let columns = table_columns(visible_columns, show_host_column);
    let mut r: Vec<ColumnWidth> = Vec::new();
    let mut i: usize = 0;
    while i < columns.len()
        invariant
            cpu_width == if show_progress_bars {
                28u16
            } else {
                7u16
            },
            mem_width == if show_progress_bars {
                33u16
            } else {
                7u16
            },
            i <= columns@.len(),
            r@ == columns@.take(i as int).map_values(
                |column: Column| width_of(column, show_progress_bars),
            ),
        decreases columns@.len() - i,
    {
        let width = match columns[i] {
            Column::Id => ColumnWidth::Length(12),
            Column::Status => ColumnWidth::Length(1),
            Column::Name => ColumnWidth::Min(8),
            Column::Host => ColumnWidth::Length(20),
            Column::Compose => ColumnWidth::Length(20),
            Column::Image => ColumnWidth::Length(30),
            Column::Cpu => ColumnWidth::Length(cpu_width),
            Column::Memory => ColumnWidth::Length(mem_width),
            Column::Pids => ColumnWidth::Length(12),
            Column::NetTx => ColumnWidth::Length(12),
            Column::NetRx => ColumnWidth::Length(12),
            Column::DiskRead => ColumnWidth::Length(12),
            Column::DiskWrite => ColumnWidth::Length(12),
            Column::Uptime => ColumnWidth::Length(15),
            Column::Restarts => ColumnWidth::Length(10),
        };
        r.push(width);
        assert(columns@.take(i + 1) =~= columns@.take(i as int).push(columns@[i as int]));
        i = i + 1;
        assert(r@ =~= columns@.take(i as int).map_values(
            |column: Column| width_of(column, show_progress_bars),
        ));
    }
    assert(columns@.take(i as int) =~= columns@);
    r
}

/// What stands in one cell of the list. Figures that the terminal writes out are
/// left as they were measured.
#[derive(Debug)]
pub enum ListCell {
    Text(String),
    Status(StatusIcon, StatusColor),
    /// A percentage, in the style of its usage level
    Percentage(Metric, UsageLevel),
    /// A progress bar of a percentage, in the style of its usage level
    Bar(Metric, UsageLevel),
    /// A progress bar of a percentage with bytes used and limit, in the style of
    /// its usage level
    MemoryBar(Metric, u64, u64, UsageLevel),
    /// A rate in bytes per second
    Rate(Metric),
    /// The time since a container was created
    Age(Option<Timestamp>),
}

impl ListCell {
    /// Whether the cell holds the given text.
    pub open spec fn says(self, s: Seq<char>) -> bool {
        self matches ListCell::Text(t) && t@ == s
    }
}

/// The number of processes, over the limit where there is one: a limit of 0 means
/// none.
pub open spec fn pids_text(current: u64, limit: u64) -> Seq<char> {
    if limit > 0 {
        text::digits(current as nat) + "/"@ + text::digits(limit as nat)
    } else {
        text::digits(current as nat)
    }
}

/// A text, or an empty one where there is none.
pub open spec fn or_blank(s: Option<String>) -> Seq<char> {
    match s {
        Some(t) => t@,
        None => ""@,
    }
}

/// Whether a cell is what a column shows of a container. Of one that is not
/// running most figures are left blank.
pub open spec fn shows(cell: ListCell, column: Column, c: Container, show_progress_bars: bool) -> bool {
    let running = c.state == ContainerState::Running;
    match column {
        Column::Id => cell.says(c.id@),
        Column::Status => cell == ListCell::Status(
            status_of(c.state, c.health).0,
            status_of(c.state, c.health).1,
        ),
        Column::Name => cell.says(c.name@),
        Column::Host => cell.says(c.host_id@),
        Column::Compose => cell.says(or_blank(c.compose_project)),
        Column::Image => cell.says(or_blank(c.image)),
        Column::Cpu => if !running {
            cell.says(""@)
        } else if show_progress_bars {
            cell == ListCell::Bar(c.stats.cpu, c.stats.cpu.level())
        } else {
            cell == ListCell::Percentage(c.stats.cpu, c.stats.cpu.level())
        },
        Column::Memory => if !running {
            cell.says(""@)
        } else if show_progress_bars {
            cell == ListCell::MemoryBar(
                c.stats.memory,
                c.stats.memory_used_bytes,
                c.stats.memory_limit_bytes,
                c.stats.memory.level(),
            )
        } else {
            cell == ListCell::Percentage(c.stats.memory, c.stats.memory.level())
        },
        Column::Pids => cell.says(
            if running {
                pids_text(c.stats.pids_current, c.stats.pids_limit)
            } else {
                ""@
            },
        ),
        Column::NetTx => shows_rate(cell, running, c.stats.network_tx_bytes_per_sec),
        Column::NetRx => shows_rate(cell, running, c.stats.network_rx_bytes_per_sec),
        Column::DiskRead => shows_rate(cell, running, c.stats.disk_read_bytes_per_sec),
        Column::DiskWrite => shows_rate(cell, running, c.stats.disk_write_bytes_per_sec),
        Column::Uptime => if running {
            cell == ListCell::Age(c.created)
        } else {
            cell.says("N/A"@)
        },
        Column::Restarts => cell.says(
            match c.restart_count {
                Some(n) => text::signed_digits(n as int),
                None => ""@,
            },
        ),
    }
}

/// Whether a cell shows a rate of a running container, or nothing of another.
pub open spec fn shows_rate(cell: ListCell, running: bool, rate: Metric) -> bool {
    if running {
        cell == ListCell::Rate(rate)
    } else {
        cell.says(""@)
    }
}

/// An empty cell.
fn blank_cell() -> (r: ListCell)
    ensures
        r.says(""@),
{
    ListCell::Text("".to_owned())
}

/// A cell with a text, or an empty one where there is none.
fn optional_cell(s: &Option<String>) -> (r: ListCell)
    ensures
        r.says(or_blank(*s)),
{
    match s {
        Some(t) => ListCell::Text(t.clone()),
        None => blank_cell(),
    }
}

/// A cell with a rate of a running container, or an empty one.
fn rate_cell(running: bool, rate: Metric) -> (r: ListCell)
    ensures
        shows_rate(r, running, rate),
{
    if running {
        ListCell::Rate(rate)
    } else {
        blank_cell()
    }
}

/// What a column shows of a container.
fn create_cell(container: &Container, column: Column, show_progress_bars: bool) -> (r: ListCell)
    ensures
        shows(r, column, *container, show_progress_bars),
{
    let is_running = container.state == ContainerState::Running;
    let stats = container.stats;
    match column {
        Column::Id => ListCell::Text(container.id.clone()),
        Column::Status => {
            let (icon, color) = get_status_icon(&container.state, &container.health);
            ListCell::Status(icon, color)
        },
        Column::Name => ListCell::Text(container.name.clone()),
        Column::Host => ListCell::Text(container.host_id.clone()),
        Column::Compose => optional_cell(&container.compose_project),
        Column::Image => optional_cell(&container.image),
        Column::Cpu => {
            if !is_running {
                blank_cell()
            } else if show_progress_bars {
                ListCell::Bar(stats.cpu, stats.cpu.usage_level())
            } else {
                ListCell::Percentage(stats.cpu, stats.cpu.usage_level())
            }
        },
        Column::Memory => {
            if !is_running {
                blank_cell()
            } else if show_progress_bars {
                ListCell::MemoryBar(
                    stats.memory,
                    stats.memory_used_bytes,
                    stats.memory_limit_bytes,
                    stats.memory.usage_level(),
                )
            } else {
                ListCell::Percentage(stats.memory, stats.memory.usage_level())
            }
        },
        Column::Pids => {
            if is_running {
                // A limit of 0 means "no limit"; show "current/limit" when a
                // limit is set so users can watch it against the cap.
                let mut display = decimal(stats.pids_current);
                if stats.pids_limit > 0 {
                    display.append("/");
                    let limit = decimal(stats.pids_limit);
                    display.append(limit.as_str());
                }
                ListCell::Text(display)
            } else {
                blank_cell()
            }
        },
        Column::NetTx => rate_cell(is_running, stats.network_tx_bytes_per_sec),
        Column::NetRx => rate_cell(is_running, stats.network_rx_bytes_per_sec),
        Column::DiskRead => rate_cell(is_running, stats.disk_read_bytes_per_sec),
        Column::DiskWrite => rate_cell(is_running, stats.disk_write_bytes_per_sec),
        Column::Uptime => {
            if is_running {
                ListCell::Age(container.created)
            } else {
                ListCell::Text("N/A".to_owned())
            }
        },
        Column::Restarts => match container.restart_count {
            Some(n) => ListCell::Text(signed_decimal(n)),
            None => blank_cell(),
        },
    }
}

/// Whether a row is what the given columns show of a container.
pub open spec fn row_shows(
    row: Seq<ListCell>,
    columns: Seq<Column>,
    c: Container,
    show_progress_bars: bool,
) -> bool {
    &&& row.len() == columns.len()
    &&& forall|i: int|
        0 <= i < row.len() ==> shows(#[trigger] row[i], columns[i], c, show_progress_bars)
}

/// Creates a table row for a single container
pub fn create_container_row(
    container: &Container,
    visible_columns: &Vec<Column>,
    show_host_column: bool,
    show_progress_bars: bool,
) -> (r: Vec<ListCell>)
    ensures
        row_shows(
            r@,
            table_columns_of(visible_columns@, show_host_column),
            *container,
            show_progress_bars,
        ),
{
    let columns = table_columns(visible_columns, show_host_column);
    let mut r: Vec<ListCell> = Vec::new();
    let mut i: usize = 0;
    while i < columns.len()
        invariant
            i <= columns@.len(),
            r@.len() == i,
            forall|j: int|
                0 <= j < i ==> shows(
                    #[trigger] r@[j],
                    columns@[j],
                    *container,
                    show_progress_bars,
                ),
        decreases columns@.len() - i,
    {
        r.push(create_cell(container, columns[i], show_progress_bars));
        i = i + 1;
    }
    r
}

/// The text of the list's title.
pub open spec fn title_text(version: Seq<char>, container_count: nat) -> Seq<char> {
    "dtop v"@ + version + " - "@ + text::digits(container_count)
        + " containers ('?' for help, 'q' to quit)"@
}

/// The title of the block that wraps the table.
pub fn list_title(version: &str, container_count: usize) -> (r: String)
    ensures
        r@ == title_text(version@, container_count as nat),
{
    let mut title = "dtop v".to_owned();
    title.append(version);
    title.append(" - ");
    let count = decimal(container_count as u64);
    title.append(count.as_str());
    title.append(" containers ('?' for help, 'q' to quit)");
    title
}

/// The rows of the list that fit into an area of the given height: padding takes
/// two rows, the header and its margin two more, and at least one is counted.
pub open spec fn viewport_rows(height: u16) -> int {
    if height > 5 {
        height - 4
    } else {
        1
    }
}

/// The rows of the list that fit into an area of the given height.
pub fn viewport_height(height: u16) -> (r: usize)
    ensures
        r == viewport_rows(height),
{
    if height > 5 {
        (height - 4) as usize
    } else {
        1
    }
}

/// The list as it is shown: everything that the terminal needs to draw it.
#[derive(Debug)]
pub struct ListView {
    pub rows: Vec<Vec<ListCell>>,
    pub header: Vec<String>,
    /// The widths that the columns ask for
    pub widths: Vec<ColumnWidth>,
    /// The title of the block around the table
    pub title: String,
    /// Where the table is, inside the block
    pub table_area: Area,
}

/// The containers with the given keys, as far as they are known.
pub open spec fn known(
    containers: Map<(Seq<char>, Seq<char>), Container>,
    keys: Seq<ContainerKey>,
) -> Seq<Container>
    decreases keys.len(),
{
    if keys.len() == 0 {
        Seq::empty()
    } else {
        let front = known(containers, keys.drop_last());
        if containers.contains_key(keys.last()@) {
            front.push(containers[keys.last()@])
        } else {
            front
        }
    }
}

impl AppState {
    /// Brings the state up to date for drawing the list into an area: the rows that
    /// fit, the list itself unless it was sorted a moment ago, and the columns.
    pub fn prepare_list(&mut self, area: Area)
        ensures
            ({
                let resized = AppState {
                    last_list_viewport_height: viewport_rows(area.height) as usize,
                    ..*old(self)
                };
                let listed = AppState {
                    visible_columns_cache: old(self).visible_columns_cache,
                    ..*final(self)
                };
                &&& final(self).visible_columns_cache@ == old(self).shown_columns()
                &&& listed == resized || resized.relisted(listed)
            }),
    {
        let elapsed: u128 = elapsed_nanos(&self.last_sort_time);
        self.prepare_list_after(area, elapsed);
    }

    /// Brings the state up to date for drawing the list into an area, given the
    /// nanoseconds since the last sort.
    pub fn prepare_list_after(&mut self, area: Area, elapsed: u128)
        ensures
            ({
                let resized = AppState {
                    last_list_viewport_height: viewport_rows(area.height) as usize,
                    ..*old(self)
                };
                let listed = AppState {
                    visible_columns_cache: old(self).visible_columns_cache,
                    ..*final(self)
                };
                &&& final(self).visible_columns_cache@ == old(self).shown_columns()
                &&& if elapsed < app_state::SORT_THROTTLE_NANOS {
                    listed == resized
                } else {
                    resized.relisted(listed)
                }
            }),
    {
        let moment = now();
        self.prepare_list_at(area, elapsed, moment);
    }

    /// Brings the state up to date for drawing the list into an area, given the
    /// nanoseconds since the last sort and the moment of this one.
    pub fn prepare_list_at(&mut self, area: Area, elapsed: u128, moment: Instant)
        ensures
            ({
                let resized = AppState {
                    last_list_viewport_height: viewport_rows(area.height) as usize,
                    ..*old(self)
                };
                let listed = AppState {
                    visible_columns_cache: old(self).visible_columns_cache,
                    ..*final(self)
                };
                &&& final(self).visible_columns_cache@ == old(self).shown_columns()
                &&& resized.sorted_at(elapsed, moment, false, listed)
            }),
    {
        self.last_list_viewport_height = viewport_height(area.height);
        self.sort_containers_at(elapsed, moment, false);
        self.refresh_visible_columns();
    }

    /// The list as it is shown in an area.
    pub fn list_view(&self, area: Area, version: &str, show_host_column: bool) -> (r: ListView)
        requires
            self.containers.wf(),
        ensures
            ({
                let columns = table_columns_of(self.visible_columns_cache@, show_host_column);
                let show_progress_bars = area.width >= PROGRESS_BAR_MIN_WIDTH;
                let listed = known(self.containers@, self.sorted_container_keys@);
                &&& r.rows@.len() == listed.len()
                &&& forall|i: int|
                    0 <= i < r.rows@.len() ==> row_shows(
                        (#[trigger] r.rows@[i])@,
                        columns,
                        listed[i],
                        show_progress_bars,
                    )
                &&& r.header@.len() == columns.len()
                &&& forall|i: int|
                    0 <= i < r.header@.len() ==> (#[trigger] r.header@[i])@ == header_text(
                        columns[i],
                        self.sort_state,
                    )
                &&& r.widths@ == columns.map_values(
                    |column: Column| width_of(column, show_progress_bars),
                )
                &&& forall|i: int|
                    0 <= i < columns.len() && columns[i] == Column::Cpu ==> #[trigger] r.widths@[i]
                        == ColumnWidth::Length(
                        if area.width >= 128 {
                            28
                        } else {
                            7
                        },
                    )
                &&& r.title@ == title_text(version@, self.sorted_container_keys@.len())
                &&& outside::inside_titled_block(area, LIST_PADDING, r.table_area)
            }),
    {
        let show_progress_bars = area.width >= PROGRESS_BAR_MIN_WIDTH;
        let mut rows: Vec<Vec<ListCell>> = Vec::new();
        let ghost keys = self.sorted_container_keys@;
        let ghost columns = table_columns_of(self.visible_columns_cache@, show_host_column);
        let mut i: usize = 0;
        while i < self.sorted_container_keys.len()
            invariant
                self.containers.wf(),
                keys == self.sorted_container_keys@,
                columns == table_columns_of(self.visible_columns_cache@, show_host_column),
                i <= keys.len(),
                rows@.len() == known(self.containers@, keys.take(i as int)).len(),
                forall|j: int|
                    0 <= j < rows@.len() ==> row_shows(
                        (#[trigger] rows@[j])@,
                        columns,
                        known(self.containers@, keys.take(i as int))[j],
                        show_progress_bars,
                    ),
            decreases keys.len() - i,
        {
            assert(keys.take(i + 1).drop_last() =~= keys.take(i as int));
            if let Some(container) = self.containers.get(&self.sorted_container_keys[i]) {
                rows.push(
                    create_container_row(
                        container,
                        &self.visible_columns_cache,
                        show_host_column,
                        show_progress_bars,
                    ),
                );
            }
            i = i + 1;
        }
        assert(keys.take(i as int) =~= keys);
        let header = create_header_row(
            &self.visible_columns_cache,
            show_host_column,
            self.sort_state,
        );
        let widths = column_constraints(
            &self.visible_columns_cache,
            show_host_column,
            show_progress_bars,
        );
        let title = list_title(version, self.sorted_container_keys.len());
        let table_area = titled_block_inner(area, LIST_PADDING, title.as_str());
        ListView { rows, header, widths, title, table_area }
    }
}

/// The table of an area on a terminal is on the terminal too, and inside the
/// area.
pub proof fn law_table_is_inside(area: Area, table_area: Area)
    requires
        area.fits(),
        outside::inside_titled_block(area, LIST_PADDING, table_area),
    ensures
        table_area.fits(),
        table_area.width > 0 && table_area.height > 0 ==> {
            &&& area.x <= table_area.x
            &&& table_area.x + table_area.width <= area.x + area.width
            &&& area.y <= table_area.y
            &&& table_area.y + table_area.height <= area.y + area.height
        },
{
}

/// A bar has its filled blocks first and then its empty ones, and is as wide as it
/// should be unless more is filled.
pub proof fn law_bars_fill_their_width(filled: usize, width: usize, i: int)
    ensures
        ({
            let blocks = bar(filled as nat, left_empty(filled, width));
            &&& filled <= width ==> blocks.len() == width
            &&& filled > width ==> blocks.len() == filled
            &&& 0 <= i < filled ==> blocks[i] as int == 0x2588
            &&& filled <= i < blocks.len() ==> blocks[i] as int == 0x2591
        }),
{
}

/// The health tells the icon and the color where there is one, and the state where
/// there is none. Green is for what is well, yellow for what is changing, red for
/// what failed or ended, cyan for what has not started and gray for what is not
/// known.
pub proof fn law_status_goes_by_health_first(state: ContainerState, health: Option<HealthStatus>)
    ensures
        ({
            let (icon, color) = status_of(state, health);
            &&& health matches Some(h) ==> icon == StatusIcon::Health(h)
            &&& health is None ==> icon == StatusIcon::State(state)
            &&& color == StatusColor::Green <==> health == Some(HealthStatus::Healthy) || (health
                is None && state == ContainerState::Running)
            &&& color == StatusColor::Red <==> health == Some(HealthStatus::Unhealthy) || (health
                is None && (state == ContainerState::Exited || state == ContainerState::Dead))
            &&& color == StatusColor::Yellow <==> health == Some(HealthStatus::Starting) || (health
                is None && (state == ContainerState::Paused || state == ContainerState::Restarting
                || state == ContainerState::Removing))
            &&& color == StatusColor::Cyan <==> health is None && state == ContainerState::Created
            &&& color == StatusColor::Gray <==> health is None && state == ContainerState::Unknown
        }),
{
}

/// The table has the columns of a list in two parts in order, each but the host's,
/// which is left out unless it is to be shown.
pub proof fn law_table_keeps_the_order(
    first: Seq<Column>,
    second: Seq<Column>,
    show_host_column: bool,
    c: Column,
)
    ensures
        table_columns_of(first + second, show_host_column) == table_columns_of(
            first,
            show_host_column,
        ) + table_columns_of(second, show_host_column),
        c != Column::Host ==> table_columns_of(seq![c], show_host_column) == seq![c],
        table_columns_of(seq![Column::Host], true) == seq![Column::Host],
        table_columns_of(seq![Column::Host], false).len() == 0,
    decreases second.len(),
{
    reveal_with_fuel(table_columns_of, 2);
    assert(seq![c].drop_last() =~= Seq::<Column>::empty());
    assert(seq![Column::Host].drop_last() =~= Seq::<Column>::empty());
    assert(Seq::<Column>::empty().push(c) =~= seq![c]);
    assert(Seq::<Column>::empty().push(Column::Host) =~= seq![Column::Host]);
    let all = first + second;
    if second.len() == 0 {
        assert(all =~= first);
        assert(table_columns_of(first, show_host_column) + table_columns_of(
            second,
            show_host_column,
        ) =~= table_columns_of(first, show_host_column));
    } else {
        law_table_keeps_the_order(first, second.drop_last(), show_host_column, c);
        assert(all.drop_last() =~= first + second.drop_last());
        assert(table_columns_of(all, show_host_column) =~= table_columns_of(
            first,
            show_host_column,
        ) + table_columns_of(second, show_host_column));
    }
}

/// The header says what the columns' labels say, but that the status has none and
/// that the uptime is told by when a container was created.
pub proof fn law_headers_are_labels(c: Column)
    ensures
        c != Column::Status && c != Column::Uptime ==> header_label(c) == c.label_text(),
        header_label(Column::Status).len() == 0,
        header_label(Column::Uptime) == "Created"@,
{
    reveal_strlit("");
}

/// Exactly the sort field has the direction after its label, a triangle that
/// points up for ascending and down for descending order; the status has no
/// header.
pub proof fn law_header_marks_the_sort_field(c: Column, sort: SortState)
    ensures
        c == Column::Status ==> header_text(c, sort).len() == 0,
        c != sort.field ==> header_text(c, sort) == header_label(c),
        c == sort.field && c != Column::Status ==> {
            let text = header_text(c, sort);
            let n = header_label(c).len() as int;
            &&& text.len() == n + 2
            &&& text.take(n) == header_label(c)
            &&& text[n] == ' '
            &&& sort.direction == SortDirection::Ascending ==> text[n + 1] as int == 0x25b2
            &&& sort.direction == SortDirection::Descending ==> text[n + 1] as int == 0x25bc
        },
{
    law_headers_are_labels(c);
    columns::law_symbols_point_the_way(sort.direction);
    reveal_strlit(" ");
    if c == sort.field && c != Column::Status {
        assert(header_text(c, sort).take(header_label(c).len() as int) =~= header_label(c));
    }
}

/// The ID has room for a short ID, bars make the columns that have them wider by
/// the bar and more, and only the name grows with the table.
pub proof fn law_widths_of_columns(c: Column, show_progress_bars: bool)
    ensures
        width_of(c, show_progress_bars) is Min <==> c == Column::Name,
        width_of(Column::Name, show_progress_bars) == ColumnWidth::Min(8),
        width_of(Column::Id, show_progress_bars) == ColumnWidth::Length(12),
        width_of(Column::Status, show_progress_bars) == ColumnWidth::Length(1),
        width_of(Column::Cpu, true) == ColumnWidth::Length(28),
        width_of(Column::Memory, true) == ColumnWidth::Length(33),
        width_of(Column::Cpu, false) == ColumnWidth::Length(7),
        width_of(Column::Memory, false) == ColumnWidth::Length(7),
        c == Column::Host || c == Column::Compose ==> width_of(c, show_progress_bars)
            == ColumnWidth::Length(20),
        c == Column::Image ==> width_of(c, show_progress_bars) == ColumnWidth::Length(30),
        c == Column::Pids || c == Column::NetTx || c == Column::NetRx || c == Column::DiskRead || c
            == Column::DiskWrite ==> width_of(c, show_progress_bars) == ColumnWidth::Length(12),
        c == Column::Uptime ==> width_of(c, show_progress_bars) == ColumnWidth::Length(15),
        c == Column::Restarts ==> width_of(c, show_progress_bars) == ColumnWidth::Length(10),
{
}

/// The text on processes reads back: up to a slash it is their number, and after it
/// the limit; there is a slash only where there is a limit.
pub proof fn law_process_counts_read_back(current: u64, limit: u64)
    ensures
        ({
            let text = pids_text(current, limit);
            let n = text::digits(current as nat).len() as int;
            &&& text.len() >= n
            &&& text::value_of(text.take(n)) == current
            &&& limit == 0 ==> text.len() == n
            &&& limit > 0 ==> text.len() > n && text[n] == '/' && text::value_of(text.skip(n + 1))
                == limit
        }),
{
    let text = pids_text(current, limit);
    let n = text::digits(current as nat).len() as int;
    text::law_digits_read_back(current as nat);
    text::law_digits_read_back(limit as nat);
    reveal_strlit("/");
    assert(text.take(n) =~= text::digits(current as nat));
    if limit > 0 {
        assert(text.skip(n + 1) =~= text::digits(limit as nat));
    }
}

/// Of a running container a column of figures shows the container's own figure: the
/// measurements in the style of their levels, with a bar where there is room.
pub proof fn law_cells_show_figures(cell: ListCell, c: Container, column: Column, bars: bool)
    requires
        shows(cell, column, c, bars),
        c.state == ContainerState::Running,
    ensures
        column == Column::Cpu && bars ==> cell == ListCell::Bar(c.stats.cpu, c.stats.cpu.level()),
        column == Column::Cpu && !bars ==> cell == ListCell::Percentage(
            c.stats.cpu,
            c.stats.cpu.level(),
        ),
        column == Column::Memory && bars ==> cell == ListCell::MemoryBar(
            c.stats.memory,
            c.stats.memory_used_bytes,
            c.stats.memory_limit_bytes,
            c.stats.memory.level(),
        ),
        column == Column::Memory && !bars ==> cell == ListCell::Percentage(
            c.stats.memory,
            c.stats.memory.level(),
        ),
        column == Column::NetTx ==> cell == ListCell::Rate(c.stats.network_tx_bytes_per_sec),
        column == Column::NetRx ==> cell == ListCell::Rate(c.stats.network_rx_bytes_per_sec),
        column == Column::DiskRead ==> cell == ListCell::Rate(c.stats.disk_read_bytes_per_sec),
        column == Column::DiskWrite ==> cell == ListCell::Rate(c.stats.disk_write_bytes_per_sec),
        column == Column::Uptime ==> cell == ListCell::Age(c.created),
        column == Column::Pids ==> cell is Text && text::value_of(
            cell->Text_0@.take(text::digits(c.stats.pids_current as nat).len() as int),
        ) == c.stats.pids_current,
{
    law_process_counts_read_back(c.stats.pids_current, c.stats.pids_limit);
}

/// Of a container that does not run the columns of figures are blank and its uptime
/// is not available.
pub proof fn law_cells_of_others_are_blank(cell: ListCell, c: Container, column: Column, bars: bool)
    requires
        shows(cell, column, c, bars),
        c.state != ContainerState::Running,
    ensures
        column == Column::Cpu || column == Column::Memory || column == Column::Pids || column
            == Column::NetTx || column == Column::NetRx || column == Column::DiskRead || column
            == Column::DiskWrite ==> cell is Text && cell->Text_0@.len() == 0,
        column == Column::Uptime ==> cell is Text && cell->Text_0@ == "N/A"@,
{
    reveal_strlit("");
}

/// Whether a container runs or not, the other columns show what it is: its ID, its
/// name, its host, its project and its image, blank where it has none, and how
/// often it was restarted as a number.
pub proof fn law_cells_show_what_a_container_is(
    cell: ListCell,
    c: Container,
    column: Column,
    bars: bool,
)
    requires
        shows(cell, column, c, bars),
    ensures
        column == Column::Id ==> cell is Text && cell->Text_0@ == c.id@,
        column == Column::Name ==> cell is Text && cell->Text_0@ == c.name@,
        column == Column::Host ==> cell is Text && cell->Text_0@ == c.host_id@,
        column == Column::Compose && c.compose_project is Some ==> cell is Text && cell->Text_0@
            == c.compose_project->0@,
        column == Column::Image && c.image is Some ==> cell is Text && cell->Text_0@ == c.image->0@,
        (column == Column::Compose && c.compose_project is None) || (column == Column::Image
            && c.image is None) || (column == Column::Restarts && c.restart_count is None) ==> cell
            is Text && cell->Text_0@.len() == 0,
        column == Column::Restarts && c.restart_count is Some && c.restart_count->0 >= 0 ==> cell
            is Text && text::value_of(cell->Text_0@) == c.restart_count->0,
        column == Column::Restarts && c.restart_count is Some && c.restart_count->0 < 0 ==> cell
            is Text && cell->Text_0@[0] == '-' && text::value_of(cell->Text_0@.skip(1))
            == -(c.restart_count->0 as int),
        column == Column::Status ==> cell is Status && (cell->Status_0, cell->Status_1)
            == status_of(c.state, c.health),
{
    reveal_strlit("");
    if let Some(n) = c.restart_count {
        text::law_signed_digits_read_back(n as int);
    }
}

/// The title begins with the program and its version, and then gives the number of
/// containers.
pub proof fn law_title_counts_the_containers(version: Seq<char>, count: nat)
    ensures
        ({
            let title = title_text(version, count);
            let front = "dtop v"@ + version + " - "@;
            let n = text::digits(count).len() as int;
            &&& text::begins_with(title, front)
            &&& text::value_of(title.skip(front.len() as int).take(n)) == count
            &&& title.skip(front.len() + n) == " containers ('?' for help, 'q' to quit)"@
        }),
{
    let title = title_text(version, count);
    let front = "dtop v"@ + version + " - "@;
    let n = text::digits(count).len() as int;
    text::law_digits_read_back(count);
    assert(title.subrange(0, front.len() as int) =~= front);
    assert(title.skip(front.len() as int).take(n) =~= text::digits(count));
    assert(title.skip(front.len() + n) =~= " containers ('?' for help, 'q' to quit)"@);
}

/// Four rows of an area are not for containers, but at least one always is.
pub proof fn law_viewport_leaves_four_rows(height: u16)
    ensures
        viewport_rows(height) >= 1,
        height >= 5 ==> viewport_rows(height) + 4 == height,
        height < 5 ==> viewport_rows(height) == 1,
{
}

/// The containers with keys in two parts are those of the first and then those of
/// the second; a key whose container is not known is passed over.
pub proof fn law_known_containers_in_order(
    containers: Map<(Seq<char>, Seq<char>), Container>,
    first: Seq<ContainerKey>,
    second: Seq<ContainerKey>,
    key: ContainerKey,
)
    ensures
        known(containers, first + second) == known(containers, first) + known(containers, second),
        containers.contains_key(key@) ==> known(containers, seq![key]) == seq![containers[key@]],
        !containers.contains_key(key@) ==> known(containers, seq![key]).len() == 0,
    decreases second.len(),
{
    reveal_with_fuel(known, 2);
    assert(seq![key].drop_last() =~= Seq::<ContainerKey>::empty());
    assert(Seq::<Container>::empty().push(containers[key@]) =~= seq![containers[key@]]);
    let all = first + second;
    if second.len() == 0 {
        assert(all =~= first);
        assert(known(containers, first) + known(containers, second) =~= known(containers, first));
    } else {
        law_known_containers_in_order(containers, first, second.drop_last(), key);
        assert(all.drop_last() =~= first + second.drop_last());
        assert(known(containers, all) =~= known(containers, first) + known(containers, second));
    }
}

/// The table leaves out a row for the title, a row above and below, and two
/// columns on either side of it.
pub proof fn law_table_has_a_margin(area: Area, table_area: Area)
    requires
        area.fits(),
        area.width >= 4,
        area.height >= 3,
        outside::inside_titled_block(area, LIST_PADDING, table_area),
    ensures
        table_area.x == area.x + 2,
        table_area.y == area.y + 2,
        table_area.width == area.width - 4,
        table_area.height == area.height - 3,
{
}

/// A row has a cell for each column, and the cell is what the column shows.
pub proof fn law_rows_show_each_column(
    row: Seq<ListCell>,
    columns: Seq<Column>,
    c: Container,
    show_progress_bars: bool,
    i: int,
)
    requires
        row_shows(row, columns, c, show_progress_bars),
    ensures
        row.len() == columns.len(),
        0 <= i < columns.len() ==> shows(row[i], columns[i], c, show_progress_bars),
{
}

} // verus!
