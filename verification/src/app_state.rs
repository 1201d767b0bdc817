//! The state behind the container list: what is listed, in which order, and what
//! is selected.
use crate::assoc::AssocMap;
use crate::columns;
use crate::columns::{Column, ColumnConfig, SortDirection, SortState};
use crate::containers::{Container, ContainerKey, ContainerState};
use crate::events::{Key, RenderAction, ViewState};
use crate::order;
use crate::order::{compare_number_options, compare_text, compare_text_options, Rank};
use crate::outside;
use crate::outside::{elapsed_nanos, now};
use crate::text;
use crate::text::{chars_of, holds};
use std::time::Instant;
use vstd::prelude::*;

verus! {

/// Minimum time between sorts to avoid re-sorting on every frame, in nanoseconds
pub const SORT_THROTTLE_NANOS: u128 = 3_000_000_000;

/// Which row of a list is selected, and which is the first on screen.
#[derive(Clone, Copy, Debug, PartialEq, Eq, Structural)]
pub struct Selection {
    pub selected: Option<usize>,
    pub offset: usize,
}

impl Selection {
    /// No selection, at the top of the list.
    pub open spec fn nothing() -> Selection {
        Selection { selected: None, offset: 0 }
    }

    /// The selection after a row, or none, has been selected. Selecting none
    /// scrolls to the top.
    pub open spec fn selecting(self, row: Option<usize>) -> Selection {
        match row {
            Some(_) => Selection { selected: row, offset: self.offset },
            None => Selection::nothing(),
        }
    }

    /// No selection, at the top of the list.
    pub fn new() -> (r: Self)
        ensures
            r == Selection::nothing(),
    {
        Selection { selected: None, offset: 0 }
    }

    /// Selects a row, or none.
    pub fn select(&mut self, row: Option<usize>)
        ensures
            *final(self) == old(self).selecting(row),
    {
        self.selected = row;
        if row.is_none() {
            self.offset = 0;
        }
    }

    /// The selected row.
    pub fn selected(&self) -> (r: Option<usize>)
        ensures
            r == self.selected,
    {
        self.selected
    }
}

/// The containers that are known, by key.
pub type ContainerMap = AssocMap<ContainerKey, Container>;

/// The value by which a column sorts a container.
pub open spec fn sort_value(c: Container, field: Column) -> order::SortValue {
    match field {
        Column::Uptime => order::SortValue::Number(
            match c.created {
                Some(t) => Some(t.secs * 0x1_0000_0000 + t.nanos),
                None => None,
            },
        ),
        Column::Name => order::SortValue::Text(Some(c.name@)),
        Column::Id => order::SortValue::Text(Some(c.id@)),
        Column::Host => order::SortValue::Text(Some(c.host_id@)),
        Column::Compose => order::text_value(&c.compose_project),
        Column::Image => order::text_value(&c.image),
        Column::Cpu => order::SortValue::Number(Some(c.stats.cpu.order())),
        Column::Memory => order::SortValue::Number(Some(c.stats.memory.order())),
        Column::Pids => order::SortValue::Number(Some(c.stats.pids_current as int)),
        Column::NetTx => order::SortValue::Number(
            Some(c.stats.network_tx_bytes_per_sec.order()),
        ),
        Column::NetRx => order::SortValue::Number(
            Some(c.stats.network_rx_bytes_per_sec.order()),
        ),
        Column::DiskRead => order::SortValue::Number(
            Some(c.stats.disk_read_bytes_per_sec.order()),
        ),
        Column::DiskWrite => order::SortValue::Number(
            Some(c.stats.disk_write_bytes_per_sec.order()),
        ),
        Column::Status => order::SortValue::Text(Some(c.state.name_text())),
        Column::Restarts => order::SortValue::Number(
            match c.restart_count {
                Some(n) => Some(n as int),
                None => None,
            },
        ),
    }
}

/// The sign of the comparison of two containers under a sort state: by the sort
/// field in the sort direction, then by host.
pub open spec fn compare_containers(a: Container, b: Container, sort: SortState) -> int {
    let by_field = order::compare_values(sort_value(a, sort.field), sort_value(b, sort.field));
    let directed = match sort.direction {
        SortDirection::Ascending => by_field,
        SortDirection::Descending => -by_field,
    };
    if directed != 0 {
        directed
    } else {
        order::compare_texts(a.host_id@, b.host_id@)
    }
}

/// Whether a search filter in lower case matches a container by its name, its id
/// or its host. An empty filter matches all.
pub open spec fn filter_matches(c: Container, filter: Seq<char>) -> bool {
    ||| filter.len() == 0
    ||| text::occurs(outside::lowercase(c.name@), filter)
    ||| text::occurs(outside::lowercase(c.id@), filter)
    ||| text::occurs(outside::lowercase(c.host_id@), filter)
}

/// Whether the row `i` of the containers comes before the row `j`: as the sort
/// state has it, and in the order of the map where that leaves it open.
pub open spec fn row_before(
    rows: Seq<(ContainerKey, Container)>,
    sort: SortState,
    i: usize,
    j: usize,
) -> bool {
    let sign = compare_containers(rows[i as int].1, rows[j as int].1, sort);
    sign < 0 || (sign == 0 && i < j)
}

/// The keys of some rows of the containers.
pub open spec fn keys_at(rows: Seq<(ContainerKey, Container)>, at: Seq<usize>) -> Seq<ContainerKey> {
    at.map_values(|i: usize| rows[i as int].0)
}

/// The state of the application, as far as the container list depends on it.
pub struct AppState {
    /// The containers of all hosts
    pub containers: ContainerMap,
    /// The keys of the containers that are listed, in list order
    pub sorted_container_keys: Vec<ContainerKey>,
    pub view_state: ViewState,
    pub column_config: ColumnConfig,
    /// The columns that are shown, as of the last render
    pub visible_columns_cache: Vec<Column>,
    pub sort_state: SortState,
    pub sort_selector_state: Selection,
    /// The selected row of the container list
    pub table_state: Selection,
    /// Whether containers that are not running are listed too
    pub show_all_containers: bool,
    /// What the user searches for
    pub search_input: String,
    /// When the list was last sorted
    pub last_sort_time: Instant,
    /// How many rows of the list fit on the screen
    pub last_list_viewport_height: usize,
}

/// Compares two containers under a sort state.
pub fn compare_for_sort(a: &Container, b: &Container, sort: SortState) -> (r: Rank)
    ensures
        r.sign() == compare_containers(*a, *b, sort),
{
    let by_field = match sort.field {
        Column::Uptime => compare_number_options(created_key(a), created_key(b)),
        Column::Name => compare_text(a.name.as_str(), b.name.as_str()),
        Column::Id => compare_text(a.id.as_str(), b.id.as_str()),
        Column::Host => compare_text(a.host_id.as_str(), b.host_id.as_str()),
        Column::Compose => compare_text_options(&a.compose_project, &b.compose_project),
        Column::Image => compare_text_options(&a.image, &b.image),
        Column::Cpu => compare_number_options(
            Some(a.stats.cpu.order_key()),
            Some(b.stats.cpu.order_key()),
        ),
        Column::Memory => compare_number_options(
            Some(a.stats.memory.order_key()),
            Some(b.stats.memory.order_key()),
        ),
        Column::Pids => compare_number_options(
            Some(a.stats.pids_current as i128),
            Some(b.stats.pids_current as i128),
        ),
        Column::NetTx => compare_number_options(
            Some(a.stats.network_tx_bytes_per_sec.order_key()),
            Some(b.stats.network_tx_bytes_per_sec.order_key()),
        ),
        Column::NetRx => compare_number_options(
            Some(a.stats.network_rx_bytes_per_sec.order_key()),
            Some(b.stats.network_rx_bytes_per_sec.order_key()),
        ),
        Column::DiskRead => compare_number_options(
            Some(a.stats.disk_read_bytes_per_sec.order_key()),
            Some(b.stats.disk_read_bytes_per_sec.order_key()),
        ),
        Column::DiskWrite => compare_number_options(
            Some(a.stats.disk_write_bytes_per_sec.order_key()),
            Some(b.stats.disk_write_bytes_per_sec.order_key()),
        ),
        Column::Status => compare_text(a.state.name(), b.state.name()),
        Column::Restarts => compare_number_options(restarts_key(a), restarts_key(b)),
    };
    let directed = match sort.direction {
        SortDirection::Ascending => by_field,
        SortDirection::Descending => by_field.reversed(),
    };
    match directed {
        Rank::Same => compare_text(a.host_id.as_str(), b.host_id.as_str()),
        _ => directed,
    }
}

/// The time of creation as one number.
fn created_key(c: &Container) -> (r: Option<i128>)
    ensures
        match r {
            Some(n) => c.created matches Some(t) && n == t.secs * 0x1_0000_0000 + t.nanos,
            None => c.created is None,
        },
{
    match c.created {
        Some(t) => Some((t.secs as i128) * 0x1_0000_0000 + (t.nanos as i128)),
        None => None,
    }
}

/// The restart count as a number to sort by.
fn restarts_key(c: &Container) -> (r: Option<i128>)
    ensures
        match r {
            Some(n) => c.restart_count matches Some(m) && n == m,
            None => c.restart_count is None,
        },
{
    match c.restart_count {
        Some(n) => Some(n as i128),
        None => None,
    }
}

/// Whether a search filter stands in one of three texts, all in lower case.
pub fn search_matches(name: &str, id: &str, host: &str, filter: &Vec<char>) -> (r: bool)
    ensures
        r == (text::occurs(name@, filter@) || text::occurs(id@, filter@) || text::occurs(
            host@,
            filter@,
        )),
{
    holds(&chars_of(name), filter) || holds(&chars_of(id), filter) || holds(&chars_of(host), filter)
}

/// The comparison of containers is antisymmetric.
pub proof fn lemma_compare_containers_antisymmetric(a: Container, b: Container, sort: SortState)
    ensures
        compare_containers(a, b, sort) == -compare_containers(b, a, sort),
        compare_containers(a, a, sort) == 0,
{
    order::lemma_compare_values_antisymmetric(sort_value(a, sort.field), sort_value(b, sort.field));
    order::lemma_compare_values_antisymmetric(sort_value(a, sort.field), sort_value(a, sort.field));
    order::lemma_compare_texts_antisymmetric(a.host_id@, b.host_id@);
    order::lemma_compare_texts_antisymmetric(a.host_id@, a.host_id@);
}

/// The comparison of containers is transitive.
pub proof fn lemma_compare_containers_transitive(
    a: Container,
    b: Container,
    c: Container,
    sort: SortState,
)
    requires
        compare_containers(a, b, sort) <= 0,
        compare_containers(b, c, sort) <= 0,
    ensures
        compare_containers(a, c, sort) <= 0,
        compare_containers(a, b, sort) < 0 || compare_containers(b, c, sort) < 0
            ==> compare_containers(a, c, sort) < 0,
{
    let x = sort_value(a, sort.field);
    let y = sort_value(b, sort.field);
    let z = sort_value(c, sort.field);
    order::lemma_compare_values_antisymmetric(x, y);
    order::lemma_compare_values_antisymmetric(y, z);
    order::lemma_compare_values_antisymmetric(x, z);
    match sort.direction {
        SortDirection::Ascending => {
            order::lemma_compare_values_transitive(x, y, z);
        },
        SortDirection::Descending => {
            order::lemma_compare_values_transitive(z, y, x);
        },
    }
    order::lemma_compare_texts_antisymmetric(a.host_id@, b.host_id@);
    order::lemma_compare_texts_antisymmetric(b.host_id@, c.host_id@);
    order::lemma_compare_texts_antisymmetric(a.host_id@, c.host_id@);
    if order::compare_texts(a.host_id@, b.host_id@) <= 0 && order::compare_texts(
        b.host_id@,
        c.host_id@,
    ) <= 0 {
        order::lemma_compare_texts_transitive(a.host_id@, b.host_id@, c.host_id@);
    }
}

/// Rows come before one another in one direction only, and transitively.
proof fn lemma_row_before(
    rows: Seq<(ContainerKey, Container)>,
    sort: SortState,
    i: usize,
    j: usize,
    k: usize,
)
    ensures
        i != j ==> row_before(rows, sort, i, j) == !row_before(rows, sort, j, i),
        !row_before(rows, sort, i, i),
        row_before(rows, sort, i, j) && row_before(rows, sort, j, k) ==> row_before(
            rows,
            sort,
            i,
            k,
        ),
{
    let a = rows[i as int].1;
    let b = rows[j as int].1;
    let c = rows[k as int].1;
    lemma_compare_containers_antisymmetric(a, b, sort);
    if row_before(rows, sort, i, j) && row_before(rows, sort, j, k) {
        lemma_compare_containers_transitive(a, b, c, sort);
    }
}

/// Whether some rows stand in strictly ascending order.
pub open spec fn ascending(
    rows: Seq<(ContainerKey, Container)>,
    sort: SortState,
    at: Seq<usize>,
) -> bool {
    forall|a: int, b: int|
        0 <= a < b < at.len() ==> row_before(rows, sort, #[trigger] at[a], #[trigger] at[b])
}

/// Where a row belongs among rows that all stand above it in the map: after
/// those that come before it, before those that come after it.
fn place_of(
    rows: &Vec<(ContainerKey, Container)>,
    sort: SortState,
    at: &Vec<usize>,
    row: usize,
) -> (r: usize)
    requires
        row < rows@.len(),
        forall|k: int| 0 <= k < at@.len() ==> #[trigger] at@[k] < row,
        ascending(rows@, sort, at@),
    ensures
        r <= at@.len(),
        forall|k: int| 0 <= k < r ==> row_before(rows@, sort, #[trigger] at@[k], row),
        forall|k: int| r <= k < at@.len() ==> row_before(rows@, sort, row, #[trigger] at@[k]),
{
    let mut low: usize = 0;
    let mut high: usize = at.len();
    while low < high
        invariant
            low <= high <= at@.len(),
            row < rows@.len(),
            forall|k: int| 0 <= k < at@.len() ==> #[trigger] at@[k] < row,
            ascending(rows@, sort, at@),
            forall|k: int| 0 <= k < low ==> row_before(rows@, sort, #[trigger] at@[k], row),
            forall|k: int| high <= k < at@.len() ==> row_before(rows@, sort, row, #[trigger] at@[k]),
        decreases high - low,
    {
        let middle: usize = low + (high - low) / 2;
        let other: usize = at[middle];
        let rank = compare_for_sort(&rows[other].1, &rows[row].1, sort);
        match rank {
            Rank::After => {
                proof {
                    lemma_row_before(rows@, sort, other, row, row);
                    assert forall|k: int| middle <= k < at@.len() implies row_before(
                        rows@,
                        sort,
                        row,
                        #[trigger] at@[k],
                    ) by {
                        lemma_row_before(rows@, sort, row, other, at@[k]);
                    }
                }
                high = middle;
            },
            _ => {
                proof {
                    assert forall|k: int| 0 <= k <= middle implies row_before(
                        rows@,
                        sort,
                        #[trigger] at@[k],
                        row,
                    ) by {
                        lemma_row_before(rows@, sort, at@[k], other, row);
                    }
                }
                low = middle + 1;
            },
        }
    }
    low
}

impl AppState {
    /// The search filter, in lower case.
    pub open spec fn filter(self) -> Seq<char> {
        outside::lowercase(self.search_input@)
    }

    /// Whether a container is listed: it is running or all are shown, and the
    /// search filter matches it.
    pub open spec fn admits(self, c: Container) -> bool {
        &&& self.show_all_containers || c.state == ContainerState::Running
        &&& filter_matches(c, self.filter())
    }

    /// Whether some rows of the containers are those that are listed, in list
    /// order.
    pub open spec fn is_listing(self, at: Seq<usize>) -> bool {
        &&& ascending(self.containers.entries@, self.sort_state, at)
        &&& forall|i: usize| #[trigger]
            at.contains(i) <==> i < self.containers.entries@.len() && self.admits(
                self.containers.entries@[i as int].1,
            )
    }

    /// Whether some keys are those of the containers that are listed, in list
    /// order.
    pub open spec fn lists(self, keys: Seq<ContainerKey>) -> bool {
        exists|at: Seq<usize>| #[trigger]
            self.is_listing(at) && keys == keys_at(self.containers.entries@, at)
    }

    /// Whether `after` is this state with its containers listed anew, and with
    /// nothing else changed but the time of the last sort.
    pub open spec fn relisted(self, after: AppState) -> bool {
        &&& self.lists(after.sorted_container_keys@)
        &&& after == AppState {
            sorted_container_keys: after.sorted_container_keys,
            last_sort_time: after.last_sort_time,
            ..self
        }
    }

    /// Whether `after` is this state after a sort at a moment, so many nanoseconds
    /// after the last: unchanged where that is less than the throttle and the sort
    /// is not forced, else listed anew as of that moment.
    pub open spec fn sorted_at(
        self,
        elapsed: u128,
        moment: Instant,
        force: bool,
        after: AppState,
    ) -> bool {
        if !force && elapsed < SORT_THROTTLE_NANOS {
            after == self
        } else {
            &&& self.relisted(after)
            &&& after.last_sort_time == moment
        }
    }

    /// A state without containers.
    pub fn new(
        show_all_containers: bool,
        sort_field: Column,
        sort_direction: Option<SortDirection>,
        column_config: ColumnConfig,
    ) -> (r: Self)
        ensures
            r.containers.wf(),
            r.containers.entries@.len() == 0,
            r.sorted_container_keys@.len() == 0,
            r.view_state == ViewState::ContainerList,
            r.column_config == column_config,
            r.visible_columns_cache@.len() == 0,
            r.sort_state == match sort_direction {
                Some(direction) => SortState { field: sort_field, direction },
                None => SortState::of(sort_field),
            },
            r.sort_selector_state == Selection::nothing(),
            r.table_state == Selection::nothing(),
            r.show_all_containers == show_all_containers,
            r.search_input@.len() == 0,
            r.last_list_viewport_height == 1,
    {
        AppState {
            containers: AssocMap::new(),
            sorted_container_keys: Vec::new(),
            view_state: ViewState::ContainerList,
            column_config,
            visible_columns_cache: Vec::new(),
            sort_state: SortState::new_with_direction(sort_field, sort_direction),
            sort_selector_state: Selection::new(),
            table_state: Selection::new(),
            show_all_containers,
            search_input: String::new(),
            last_sort_time: now(),
            last_list_viewport_height: 1,
        }
    }

    /// Whether a container is listed under a search filter in lower case.
    fn admits_under(&self, c: &Container, filter: &Vec<char>) -> (r: bool)
        requires
            filter@ == self.filter(),
        ensures
            r == self.admits(*c),
    {
        if !self.show_all_containers && c.state != ContainerState::Running {
            return false;
        }
        if filter.len() == 0 {
            return true;
        }
        let name = c.name.to_lowercase();
        let id = c.id.to_lowercase();
        let host = c.host_id.to_lowercase();
        search_matches(name.as_str(), id.as_str(), host.as_str(), filter)
    }

    /// The rows of the containers that are listed, in list order.
    pub fn listed_rows(&self) -> (r: Vec<usize>)
        ensures
            self.is_listing(r@),
    {
        let lower = self.search_input.to_lowercase();
        let filter = chars_of(lower.as_str());
        let ghost rows = self.containers.entries@;
        let sort = self.sort_state;
        let mut at: Vec<usize> = Vec::new();
        let mut i: usize = 0;
        while i < self.containers.entries.len()
            invariant
                rows == self.containers.entries@,
                sort == self.sort_state,
                filter@ == self.filter(),
                i <= rows.len(),
                ascending(rows, sort, at@),
                forall|k: int| 0 <= k < at@.len() ==> #[trigger] at@[k] < i,
                forall|j: usize| #[trigger]
                    at@.contains(j) <==> j < i && self.admits(rows[j as int].1),
            decreases rows.len() - i,
        {
            if self.admits_under(&self.containers.entries[i].1, &filter) {
                let place: usize = place_of(&self.containers.entries, sort, &at, i);
                let ghost before = at@;
                at.insert(place, i);
                proof {
                    assert forall|a: int, b: int| 0 <= a < b < at@.len() implies row_before(
                        rows,
                        sort,
                        #[trigger] at@[a],
                        #[trigger] at@[b],
                    ) by {
                        let old_a = if a < place { a } else { a - 1 };
                        let old_b = if b < place { b } else { b - 1 };
                        if a != place && b != place {
                            assert(row_before(rows, sort, before[old_a], before[old_b]));
                        }
                    }
                    assert forall|j: usize| #[trigger] at@.contains(j) <==> before.contains(j) || j
                        == i by {
                        if before.contains(j) {
                            let k = before.index_of(j);
                            assert(at@[if k < place { k } else { k + 1 }] == j);
                        }
                        assert(at@[place as int] == i);
                        if at@.contains(j) {
                            let k = at@.index_of(j);
                            if k < place {
                                assert(before[k] == j);
                            } else if k > place {
                                assert(before[k - 1] == j);
                            }
                        }
                    }
                    assert forall|k: int| 0 <= k < at@.len() implies #[trigger] at@[k] < i + 1 by {
                        assert(at@.contains(at@[k]));
                    }
                }
            }
            i = i + 1;
        }
        at
    }

    /// Sorts the container keys based on the current sort field and direction,
    /// if enough time has passed since the last sort
    pub fn sort_containers(&mut self)
        ensures
            *final(self) == *old(self) || old(self).relisted(*final(self)),
    {
        self.sort_containers_internal(false);
    }

    /// Forces an immediate sort regardless of throttle duration
    pub fn force_sort_containers(&mut self)
        ensures
            old(self).relisted(*final(self)),
    {
        self.sort_containers_internal(true);
    }

    /// Internal sorting implementation with throttling control
    fn sort_containers_internal(&mut self, force: bool)
        ensures
            force ==> old(self).relisted(*final(self)),
            *final(self) == *old(self) || old(self).relisted(*final(self)),
    {
        let elapsed: u128 = elapsed_nanos(&self.last_sort_time);
        self.sort_containers_after(elapsed, force);
    }

    /// Sorts the container keys, given the nanoseconds since the last sort. Less
    /// than the throttle after that sort the list stays as it is, unless forced.
    pub fn sort_containers_after(&mut self, elapsed: u128, force: bool)
        ensures
            if !force && elapsed < SORT_THROTTLE_NANOS {
                *final(self) == *old(self)
            } else {
                old(self).relisted(*final(self))
            },
    {
        let moment = now();
        self.sort_containers_at(elapsed, moment, force);
    }

    /// Sorts the container keys, given the nanoseconds since the last sort and the
    /// moment of this one, from which on the next is throttled.
    pub fn sort_containers_at(&mut self, elapsed: u128, moment: Instant, force: bool)
        ensures
            old(self).sorted_at(elapsed, moment, force, *final(self)),
    {
        if !force && elapsed < SORT_THROTTLE_NANOS {
            return ;
        }
        self.last_sort_time = moment;
        let at = self.listed_rows();
        let ghost rows = self.containers.entries@;
        let mut keys: Vec<ContainerKey> = Vec::new();
        let mut i: usize = 0;
        while i < at.len()
            invariant
                rows == self.containers.entries@,
                self.is_listing(at@),
                i <= at@.len(),
                keys@ == keys_at(rows, at@.take(i as int)),
            decreases at@.len() - i,
        {
            assert(at@.contains(at@[i as int]));
            keys.push(self.containers.entries[at[i]].0.clone());
            i = i + 1;
            assert(keys@ =~= keys_at(rows, at@.take(i as int)));
        }
        assert(at@.take(i as int) == at@);
        self.sorted_container_keys = keys;
        assert(old(self).is_listing(at@));
    }

    /// Refreshes the cache of the columns that are shown.
    pub fn refresh_visible_columns(&mut self)
        ensures
            final(self).visible_columns_cache@ == columns::shown(old(self).column_config.columns@),
            *final(self) == (AppState {
                visible_columns_cache: final(self).visible_columns_cache,
                ..*old(self)
            }),
    {
        self.visible_columns_cache = self.column_config.visible_columns();
    }

    /// The columns that are shown.
    pub open spec fn shown_columns(self) -> Seq<Column> {
        columns::shown(self.column_config.columns@)
    }

    /// Where the sort field stands among the columns that are shown; the first
    /// row where it is not shown.
    pub open spec fn sort_field_row(self) -> int {
        match self.shown_columns().index_of_first(self.sort_state.field) {
            Some(i) => i,
            None => 0,
        }
    }

    /// Opens the sort selector popup
    pub fn handle_open_sort_selector(&mut self) -> (r: RenderAction)
        ensures
            if old(self).view_state == ViewState::ContainerList {
                &&& r == RenderAction::Render
                &&& *final(self) == (AppState {
                    view_state: ViewState::SortSelector,
                    sort_selector_state: Selection {
                        selected: Some(old(self).sort_field_row() as usize),
                        offset: old(self).sort_selector_state.offset,
                    },
                    ..*old(self)
                })
            } else {
                r == RenderAction::Nothing && *final(self) == *old(self)
            },
    {
        match self.view_state {
            ViewState::ContainerList => {},
            _ => {
                return RenderAction::Nothing;
            },
        }
        let visible = self.column_config.visible_columns();
        let current: usize = match position_of(&visible, self.sort_state.field) {
            Some(i) => i,
            None => 0,
        };
        self.view_state = ViewState::SortSelector;
        self.sort_selector_state.select(Some(current));
        RenderAction::Render
    }

    /// The column that is selected in the sort selector.
    pub open spec fn chosen_column(self) -> Option<Column> {
        match self.sort_selector_state.selected {
            Some(i) => if i < self.shown_columns().len() {
                Some(self.shown_columns()[i as int])
            } else {
                None
            },
            None => None,
        }
    }

    /// Handles key events while in the sort selector popup
    pub fn handle_sort_selector_key(&mut self, key: Key) -> (r: RenderAction)
        ensures
            r == if selector_command(key) == SelectorCommand::Ignore {
                RenderAction::Nothing
            } else {
                RenderAction::Render
            },
            match selector_command(key) {
                SelectorCommand::Choose => match old(self).chosen_column() {
                    Some(field) => (AppState {
                        sort_state: choosing(old(self).sort_state, field),
                        ..*old(self)
                    }).relisted(*final(self)),
                    None => *final(self) == *old(self),
                },
                SelectorCommand::Close => *final(self) == (AppState {
                    view_state: ViewState::ContainerList,
                    sort_selector_state: Selection::nothing(),
                    ..*old(self)
                }),
                _ => *final(self) == (AppState {
                    sort_selector_state: moved(
                        old(self).sort_selector_state,
                        selector_command(key),
                        old(self).shown_columns().len() as int,
                    ),
                    ..*old(self)
                }),
            },
    {
        let visible = self.column_config.visible_columns();
        let count: usize = visible.len();
        match command_of(key) {
            SelectorCommand::Up => {
                let current: usize = match self.sort_selector_state.selected() {
                    Some(i) => i,
                    None => 0,
                };
                if current > 0 {
                    self.sort_selector_state.select(Some(current - 1));
                }
                RenderAction::Render
            },
            SelectorCommand::Down => {
                let current: usize = match self.sort_selector_state.selected() {
                    Some(i) => i,
                    None => 0,
                };
                let max: usize = if count > 0 {
                    count - 1
                } else {
                    0
                };
                if current < max {
                    self.sort_selector_state.select(Some(current + 1));
                }
                RenderAction::Render
            },
            SelectorCommand::Choose => {
                if let Some(i) = self.sort_selector_state.selected() {
                    if i < count {
                        let field = visible[i];
                        if self.sort_state.field == field {
                            // Same field: toggle direction
                            self.sort_state.direction = self.sort_state.direction.toggle();
                        } else {
                            // Different field: set with default direction
                            self.sort_state = SortState::new(field);
                        }
                        self.force_sort_containers();
                    }
                }
                RenderAction::Render
            },
            SelectorCommand::Close => self.close_sort_selector(),
            SelectorCommand::Ignore => RenderAction::Nothing,
        }
    }

    /// Goes back from the sort selector to the container list.
    fn close_sort_selector(&mut self) -> (r: RenderAction)
        ensures
            r == RenderAction::Render,
            *final(self) == (AppState {
                view_state: ViewState::ContainerList,
                sort_selector_state: Selection::nothing(),
                ..*old(self)
            }),
    {
        self.view_state = ViewState::ContainerList;
        self.sort_selector_state.select(None);
        RenderAction::Render
    }

    /// Shows all containers, or the running ones only, and keeps a row selected
    /// while there is one.
    pub fn handle_toggle_show_all(&mut self) -> (r: RenderAction)
        ensures
            if old(self).view_state == ViewState::ContainerList {
                &&& r == RenderAction::Render
                &&& final(self).table_state == selection_within(
                    old(self).table_state,
                    final(self).sorted_container_keys@.len() as int,
                )
                &&& (AppState {
                    show_all_containers: !old(self).show_all_containers,
                    table_state: final(self).table_state,
                    ..*old(self)
                }).relisted(*final(self))
            } else {
                r == RenderAction::Nothing && *final(self) == *old(self)
            },
    {
        match self.view_state {
            ViewState::ContainerList => {},
            _ => {
                return RenderAction::Nothing;
            },
        }
        self.show_all_containers = !self.show_all_containers;
        let ghost toggled = *self;
        self.force_sort_containers();
        let ghost sorted = *self;
        self.ensure_selection();
        proof {
            let target = AppState { table_state: self.table_state, ..toggled };
            let at = choose|at: Seq<usize>| #[trigger]
                toggled.is_listing(at) && sorted.sorted_container_keys@ == keys_at(
                    toggled.containers.entries@,
                    at,
                );
            assert(target.is_listing(at));
        }
        RenderAction::Render
    }

    /// Selects a row that is listed, if there is one: the first where none was
    /// selected, the last where the list has become too short for the selection.
    pub fn ensure_selection(&mut self)
        ensures
            *final(self) == (AppState {
                table_state: selection_within(
                    old(self).table_state,
                    old(self).sorted_container_keys@.len() as int,
                ),
                ..*old(self)
            }),
    {
        let count: usize = self.sorted_container_keys.len();
        if count == 0 {
            self.table_state.select(None);
        } else {
            match self.table_state.selected() {
                Some(i) => {
                    if i >= count {
                        self.table_state.select(Some(count - 1));
                    }
                },
                None => {
                    self.table_state.select(Some(0));
                },
            }
        }
    }
}

/// What a key asks of the sort selector.
#[derive(Clone, Copy, Debug, PartialEq, Eq, Structural)]
pub enum SelectorCommand {
    Up,
    Down,
    Choose,
    Close,
    Ignore,
}

/// What a key asks of the sort selector.
pub open spec fn selector_command(key: Key) -> SelectorCommand {
    if key == Key::Up || key == Key::Char('k') {
        SelectorCommand::Up
    } else if key == Key::Down || key == Key::Char('j') {
        SelectorCommand::Down
    } else if key == Key::Enter || key == Key::Char(' ') {
        SelectorCommand::Choose
    } else if key == Key::Esc || key == Key::Char('s') {
        SelectorCommand::Close
    } else {
        SelectorCommand::Ignore
    }
}

/// What a key asks of the sort selector.
pub fn command_of(key: Key) -> (r: SelectorCommand)
    ensures
        r == selector_command(key),
{
    match key {
        Key::Up => SelectorCommand::Up,
        Key::Down => SelectorCommand::Down,
        Key::Enter => SelectorCommand::Choose,
        Key::Esc => SelectorCommand::Close,
        Key::Char(c) => {
            if c == 'k' {
                SelectorCommand::Up
            } else if c == 'j' {
                SelectorCommand::Down
            } else if c == ' ' {
                SelectorCommand::Choose
            } else if c == 's' {
                SelectorCommand::Close
            } else {
                SelectorCommand::Ignore
            }
        },
        Key::PageUp | Key::PageDown | Key::Home | Key::End | Key::Other => SelectorCommand::Ignore,
    }
}

/// A selection moved by one row within `count` rows. No selection counts as the
/// first row; at the end of the list nothing moves.
pub open spec fn moved(selection: Selection, command: SelectorCommand, count: int) -> Selection {
    let current = match selection.selected {
        Some(i) => i as int,
        None => 0,
    };
    if command is Up && current > 0 {
        selection.selecting(Some((current - 1) as usize))
    } else if command is Down && current < count - 1 {
        selection.selecting(Some((current + 1) as usize))
    } else {
        selection
    }
}

/// The sort state after a column was chosen: the opposite direction where it is
/// the sort field already, else the column in its default direction.
pub open spec fn choosing(sort: SortState, field: Column) -> SortState {
    if sort.field == field {
        SortState { field, direction: sort.direction.opposite() }
    } else {
        SortState::of(field)
    }
}

/// A selection brought into a list of `count` rows.
pub open spec fn selection_within(selection: Selection, count: int) -> Selection {
    if count == 0 {
        Selection::nothing()
    } else {
        match selection.selected {
            Some(i) => if i < count {
                selection
            } else {
                selection.selecting(Some((count - 1) as usize))
            },
            None => selection.selecting(Some(0usize)),
        }
    }
}

/// Where a column first stands in a list of columns.
pub fn position_of(list: &Vec<Column>, column: Column) -> (r: Option<usize>)
    ensures
        match r {
            Some(i) => list@.index_of_first(column) == Some(i as int),
            None => list@.index_of_first(column) is None,
        },
{
    proof {
        list@.index_of_first_ensures(column);
    }
    let mut i: usize = 0;
    while i < list.len()
        invariant
            i <= list@.len(),
            forall|j: int| 0 <= j < i ==> #[trigger] list@[j] != column,
        decreases list@.len() - i,
    {
        if list[i] == column {
            proof {
                list@.index_of_first_ensures(column);
            }
            return Some(i);
        }
        i = i + 1;
    }
    None
}

/// Two ascending lists of the same rows are the same list.
proof fn lemma_ascending_is_unique(
    rows: Seq<(ContainerKey, Container)>,
    sort: SortState,
    a: Seq<usize>,
    b: Seq<usize>,
)
    requires
        ascending(rows, sort, a),
        ascending(rows, sort, b),
        forall|i: usize| #[trigger] a.contains(i) == b.contains(i),
    ensures
        a == b,
    decreases a.len(),
{
    if a.len() == 0 {
        if b.len() > 0 {
            assert(b.contains(b[0]));
            assert(a.contains(b[0]));
        }
    } else {
        assert(a.contains(a[0]));
        assert(b.len() > 0);
        let x = a.last();
        let y = b.last();
        assert(a.contains(x) && b.contains(y));
        assert(b.contains(x) && a.contains(y));
        let i = a.index_of(y);
        let j = b.index_of(x);
        lemma_row_before(rows, sort, x, y, x);
        assert(x == y) by {
            if i < a.len() - 1 && j < b.len() - 1 {
                assert(row_before(rows, sort, a[i], a[a.len() - 1]));
                assert(row_before(rows, sort, b[j], b[b.len() - 1]));
            }
        }
        let c = a.drop_last();
        let d = b.drop_last();
        assert forall|k: usize| #[trigger] c.contains(k) == d.contains(k) by {
            lemma_row_before(rows, sort, x, x, x);
            if c.contains(k) {
                let m = c.index_of(k);
                assert(a[m] == k);
                assert(a.contains(k));
                assert(b.contains(k));
                assert(row_before(rows, sort, a[m], a[a.len() - 1]));
                let n = b.index_of(k);
                assert(d[n] == k);
            }
            if d.contains(k) {
                let m = d.index_of(k);
                assert(b[m] == k);
                assert(b.contains(k));
                assert(a.contains(k));
                assert(row_before(rows, sort, b[m], b[b.len() - 1]));
                let n = a.index_of(k);
                assert(c[n] == k);
            }
        }
        assert(ascending(rows, sort, c)) by {
            assert forall|m: int, n: int| 0 <= m < n < c.len() implies row_before(
                rows,
                sort,
                #[trigger] c[m],
                #[trigger] c[n],
            ) by {
                assert(row_before(rows, sort, a[m], a[n]));
            }
        }
        assert(ascending(rows, sort, d)) by {
            assert forall|m: int, n: int| 0 <= m < n < d.len() implies row_before(
                rows,
                sort,
                #[trigger] d[m],
                #[trigger] d[n],
            ) by {
                assert(row_before(rows, sort, b[m], b[n]));
            }
        }
        lemma_ascending_is_unique(rows, sort, c, d);
        assert(a =~= c.push(x));
        assert(b =~= d.push(y));
    }
}

/// The list is a function of the state: the containers, the sort state, the
/// search and whether all are shown leave one list only.
pub proof fn law_listing_is_unique(
    state: AppState,
    keys: Seq<ContainerKey>,
    others: Seq<ContainerKey>,
)
    requires
        state.lists(keys),
        state.lists(others),
    ensures
        keys == others,
{
    let rows = state.containers.entries@;
    let a = choose|at: Seq<usize>| #[trigger] state.is_listing(at) && keys == keys_at(rows, at);
    let b = choose|at: Seq<usize>| #[trigger] state.is_listing(at) && others == keys_at(rows, at);
    lemma_ascending_is_unique(rows, state.sort_state, a, b);
}

/// Sorting again changes nothing but the time of the last sort.
pub proof fn law_sorting_is_idempotent(state: AppState, once: AppState, twice: AppState)
    requires
        state.relisted(once),
        once.relisted(twice),
    ensures
        twice.sorted_container_keys@ == once.sorted_container_keys@,
{
    let rows = state.containers.entries@;
    let at = choose|at: Seq<usize>| #[trigger]
        state.is_listing(at) && once.sorted_container_keys@ == keys_at(rows, at);
    assert(once.is_listing(at));
    law_listing_is_unique(once, once.sorted_container_keys@, twice.sorted_container_keys@);
}

/// A sort that is not forced, less than the throttle after one that took place,
/// changes nothing, whatever changed in between; the time since is counted from the
/// moment of that sort.
pub proof fn law_sorting_is_throttled(
    state: AppState,
    sorted: AppState,
    changed: AppState,
    again: AppState,
    elapsed: u128,
    moment: Instant,
    force: bool,
    since: u128,
    later: Instant,
)
    requires
        force || elapsed >= SORT_THROTTLE_NANOS,
        state.sorted_at(elapsed, moment, force, sorted),
        changed.last_sort_time == sorted.last_sort_time,
        since < SORT_THROTTLE_NANOS,
        changed.sorted_at(since, later, false, again),
    ensures
        changed.last_sort_time == moment,
        again == changed,
{
}

/// Every listed key is that of a container that belongs in the list, every such
/// container is listed, and none is listed twice.
pub proof fn law_exactly_the_admitted_are_listed(state: AppState, keys: Seq<ContainerKey>)
    requires
        state.containers.wf(),
        state.lists(keys),
    ensures
        forall|i: int|
            0 <= i < keys.len() ==> {
                &&& state.containers@.contains_key(#[trigger] keys[i]@)
                &&& state.admits(state.containers@[keys[i]@])
            },
        forall|k: (Seq<char>, Seq<char>)| #[trigger]
            state.containers@.contains_key(k) && state.admits(state.containers@[k])
                ==> exists|i: int| 0 <= i < keys.len() && #[trigger] keys[i]@ == k,
        forall|i: int, j: int|
            0 <= i < j < keys.len() ==> #[trigger] keys[i]@ != #[trigger] keys[j]@,
{
    let rows = state.containers.entries@;
    let at = choose|at: Seq<usize>| #[trigger] state.is_listing(at) && keys == keys_at(rows, at);
    assert forall|i: int| 0 <= i < keys.len() implies {
        &&& state.containers@.contains_key(#[trigger] keys[i]@)
        &&& state.admits(state.containers@[keys[i]@])
    } by {
        assert(at.contains(at[i]));
        state.containers.lemma_entry(at[i] as int);
    }
    assert forall|k: (Seq<char>, Seq<char>)| #[trigger]
        state.containers@.contains_key(k) && state.admits(
            state.containers@[k],
        ) implies exists|i: int| 0 <= i < keys.len() && #[trigger] keys[i]@ == k by {
        let row = state.containers.keys().index_of(k);
        state.containers.lemma_entry(row);
        assert(row < state.containers.entries.len());
        assert(at.contains(row as usize));
        let i = at.index_of(row as usize);
        assert(keys[i]@ == k);
    }
    assert forall|i: int, j: int| 0 <= i < j < keys.len() implies #[trigger] keys[i]@
        != #[trigger] keys[j]@ by {
        assert(at.contains(at[i]) && at.contains(at[j]));
        assert(row_before(rows, state.sort_state, at[i], at[j]));
        lemma_row_before(rows, state.sort_state, at[i], at[i], at[i]);
        assert(state.containers.keys()[at[i] as int] == keys[i]@);
        assert(state.containers.keys()[at[j] as int] == keys[j]@);
    }
}

/// No listed container comes, by the sort state, before one that is listed above
/// it.
pub proof fn law_list_is_in_order(state: AppState, keys: Seq<ContainerKey>)
    requires
        state.containers.wf(),
        state.lists(keys),
    ensures
        forall|i: int, j: int|
            0 <= i < j < keys.len() ==> compare_containers(
                state.containers@[#[trigger] keys[i]@],
                state.containers@[#[trigger] keys[j]@],
                state.sort_state,
            ) <= 0,
{
    let rows = state.containers.entries@;
    let at = choose|at: Seq<usize>| #[trigger] state.is_listing(at) && keys == keys_at(rows, at);
    assert forall|i: int, j: int| 0 <= i < j < keys.len() implies compare_containers(
        state.containers@[#[trigger] keys[i]@],
        state.containers@[#[trigger] keys[j]@],
        state.sort_state,
    ) <= 0 by {
        assert(at.contains(at[i]) && at.contains(at[j]));
        assert(row_before(rows, state.sort_state, at[i], at[j]));
        state.containers.lemma_entry(at[i] as int);
        state.containers.lemma_entry(at[j] as int);
    }
}

/// Whatever is listed while only running containers are shown is also listed
/// while all are shown, and without the latter only running containers are.
pub proof fn law_showing_all_lists_more(
    state: AppState,
    running: Seq<ContainerKey>,
    all: Seq<ContainerKey>,
)
    requires
        state.containers.wf(),
        (AppState { show_all_containers: false, ..state }).lists(running),
        (AppState { show_all_containers: true, ..state }).lists(all),
    ensures
        forall|i: int|
            0 <= i < running.len() ==> state.containers@[#[trigger] running[i]@].state
                == ContainerState::Running && exists|j: int|
                0 <= j < all.len() && #[trigger] all[j]@ == running[i]@,
{
    let fewer = AppState { show_all_containers: false, ..state };
    let more = AppState { show_all_containers: true, ..state };
    law_exactly_the_admitted_are_listed(fewer, running);
    law_exactly_the_admitted_are_listed(more, all);
    assert forall|i: int| 0 <= i < running.len() implies state.containers@[#[trigger] running[i]@].state
        == ContainerState::Running && exists|j: int|
        0 <= j < all.len() && #[trigger] all[j]@ == running[i]@ by {
        assert(fewer.containers@.contains_key(running[i]@));
        assert(fewer.admits(fewer.containers@[running[i]@]));
        assert(more.containers@.contains_key(running[i]@));
        assert(more.admits(more.containers@[running[i]@]));
    }
}

/// Showing all containers and showing the running ones again, or the other way
/// round, gives the list back.
pub proof fn law_toggling_twice_gives_the_list_back(
    state: AppState,
    once: AppState,
    twice: AppState,
    keys: Seq<ContainerKey>,
)
    requires
        state.lists(keys),
        (AppState {
            show_all_containers: !state.show_all_containers,
            table_state: once.table_state,
            ..state
        }).relisted(once),
        (AppState {
            show_all_containers: !once.show_all_containers,
            table_state: twice.table_state,
            ..once
        }).relisted(twice),
    ensures
        twice.sorted_container_keys@ == keys,
        twice.show_all_containers == state.show_all_containers,
{
    let rows = state.containers.entries@;
    let a = choose|at: Seq<usize>| #[trigger] state.is_listing(at) && keys == keys_at(rows, at);
    let target = AppState {
        show_all_containers: !once.show_all_containers,
        table_state: twice.table_state,
        ..once
    };
    assert(target.is_listing(a)) by {
        assert forall|c: Container| #[trigger] target.admits(c) == state.admits(c) by {}
    }
    law_listing_is_unique(target, keys, twice.sorted_container_keys@);
}

/// A search in ASCII disregards case: what is listed does not depend on it.
pub proof fn law_search_ignores_case(
    state: AppState,
    other: AppState,
    keys: Seq<ContainerKey>,
)
    requires
        text::same_letters(state.search_input@, other.search_input@),
        other == (AppState { search_input: other.search_input, ..state }),
        state.lists(keys),
    ensures
        other.lists(keys),
{
    text::lemma_same_letters(state.search_input@, other.search_input@);
    let rows = state.containers.entries@;
    let at = choose|at: Seq<usize>| #[trigger] state.is_listing(at) && keys == keys_at(rows, at);
    assert forall|i: usize| #[trigger]
        at.contains(i) <==> i < rows.len() && other.admits(rows[i as int].1) by {
        assert(state.admits(rows[i as int].1) == other.admits(rows[i as int].1));
    }
    assert(other.is_listing(at));
}

/// Reversing the sort direction reverses the order of two containers that differ
/// in the sort field. Where they do not, their hosts decide in either direction.
pub proof fn law_direction_reverses_the_order(a: Container, b: Container, field: Column)
    ensures
        ({
            let up = compare_containers(
                a,
                b,
                SortState { field, direction: SortDirection::Ascending },
            );
            let down = compare_containers(
                a,
                b,
                SortState { field, direction: SortDirection::Descending },
            );
            if order::compare_values(sort_value(a, field), sort_value(b, field)) != 0 {
                down == -up && up != 0
            } else {
                down == up && up == order::compare_texts(a.host_id@, b.host_id@)
            }
        }),
{
}

/// In ascending order a container without a value in the sort field comes before
/// one that has a value; in descending order it comes after.
pub proof fn law_missing_values_come_first(a: Container, b: Container, sort: SortState)
    requires
        sort.field == Column::Uptime ==> a.created is None && b.created is Some,
        sort.field == Column::Compose ==> a.compose_project is None && b.compose_project is Some,
        sort.field == Column::Image ==> a.image is None && b.image is Some,
        sort.field == Column::Restarts ==> a.restart_count is None && b.restart_count is Some,
        sort.field == Column::Uptime || sort.field == Column::Compose || sort.field == Column::Image
            || sort.field == Column::Restarts,
    ensures
        sort.direction == SortDirection::Ascending ==> compare_containers(a, b, sort) < 0,
        sort.direction == SortDirection::Descending ==> compare_containers(a, b, sort) > 0,
{
}

/// A row is selected exactly where there is one, it is one of the list, and
/// bringing the selection into the list again changes nothing.
pub proof fn law_selection_is_in_the_list(selection: Selection, count: int)
    requires
        0 <= count <= usize::MAX,
    ensures
        match selection_within(selection, count).selected {
            Some(i) => i < count,
            None => count == 0,
        },
        selection_within(selection_within(selection, count), count) == selection_within(
            selection,
            count,
        ),
{
}

/// A selection inside the list stays there when it moves, and a move down that
/// moved is undone by a move up.
pub proof fn law_selector_moves(selection: Selection, command: SelectorCommand, count: int)
    requires
        count <= usize::MAX,
        selection.selected matches Some(i) && i < count,
    ensures
        moved(selection, command, count).selected matches Some(i) && i < count,
        moved(selection, SelectorCommand::Down, count) != selection ==> moved(
            moved(selection, SelectorCommand::Down, count),
            SelectorCommand::Up,
            count,
        ) == selection,
{
}

/// Choosing the sort field again turns the direction round, and choosing it twice
/// more gives the sort state back.
pub proof fn law_choosing_again_turns_the_direction(sort: SortState, field: Column)
    ensures
        choosing(sort, field).field == field,
        choosing(choosing(sort, field), field) == (SortState {
            field,
            direction: choosing(sort, field).direction.opposite(),
        }),
        choosing(choosing(choosing(sort, field), field), field) == choosing(sort, field),
{
}

/// A container is listed exactly where it runs or all are shown, and where the
/// search text stands somewhere in its name, its ID or its host, without regard to
/// case. An empty search finds all.
pub proof fn law_search_finds_what_contains_it(state: AppState, c: Container)
    ensures
        ({
            let sought = outside::lowercase(state.search_input@);
            let name = outside::lowercase(c.name@);
            let id = outside::lowercase(c.id@);
            let host = outside::lowercase(c.host_id@);
            state.admits(c) <==> {
                &&& state.show_all_containers || c.state == ContainerState::Running
                &&& {
                    ||| sought.len() == 0
                    ||| exists|before: Seq<char>, after: Seq<char>|
                        name == #[trigger] before.add(sought).add(after)
                    ||| exists|before: Seq<char>, after: Seq<char>|
                        id == #[trigger] before.add(sought).add(after)
                    ||| exists|before: Seq<char>, after: Seq<char>|
                        host == #[trigger] before.add(sought).add(after)
                }
            }
        }),
{
    let sought = outside::lowercase(state.search_input@);
    text::law_occurs_is_containment(outside::lowercase(c.name@), sought);
    text::law_occurs_is_containment(outside::lowercase(c.id@), sought);
    text::law_occurs_is_containment(outside::lowercase(c.host_id@), sought);
}

/// Sorted by a figure, the container with the smaller figure comes first in
/// ascending order and last in descending order.
pub proof fn law_figures_are_sorted_by_size(a: Container, b: Container, sort: SortState)
    requires
        sort.field == Column::Cpu ==> a.stats.cpu.order() < b.stats.cpu.order(),
        sort.field == Column::Memory ==> a.stats.memory.order() < b.stats.memory.order(),
        sort.field == Column::Pids ==> a.stats.pids_current < b.stats.pids_current,
        sort.field == Column::NetTx ==> a.stats.network_tx_bytes_per_sec.order()
            < b.stats.network_tx_bytes_per_sec.order(),
        sort.field == Column::NetRx ==> a.stats.network_rx_bytes_per_sec.order()
            < b.stats.network_rx_bytes_per_sec.order(),
        sort.field == Column::DiskRead ==> a.stats.disk_read_bytes_per_sec.order()
            < b.stats.disk_read_bytes_per_sec.order(),
        sort.field == Column::DiskWrite ==> a.stats.disk_write_bytes_per_sec.order()
            < b.stats.disk_write_bytes_per_sec.order(),
        sort.field == Column::Uptime ==> a.created is Some && b.created is Some && (
        a.created->0.secs < b.created->0.secs || (a.created->0.secs == b.created->0.secs
            && a.created->0.nanos < b.created->0.nanos)),
        sort.field == Column::Restarts ==> a.restart_count is Some && b.restart_count is Some
            && a.restart_count->0 < b.restart_count->0,
        sort.field != Column::Name && sort.field != Column::Id && sort.field != Column::Host
            && sort.field != Column::Compose && sort.field != Column::Image && sort.field
            != Column::Status,
    ensures
        sort.direction == SortDirection::Ascending ==> compare_containers(a, b, sort) < 0
            && compare_containers(b, a, sort) > 0,
        sort.direction == SortDirection::Descending ==> compare_containers(a, b, sort) > 0
            && compare_containers(b, a, sort) < 0,
{
}

/// Sorted by a measurement that is not negative, the container with fewer bits,
/// and so with the smaller value, comes first in ascending order and last in
/// descending order.
pub proof fn law_measurements_are_sorted_by_value(a: Container, b: Container, sort: SortState)
    requires
        sort.field == Column::Cpu ==> a.stats.cpu.bits < b.stats.cpu.bits < 0x8000_0000_0000_0000,
        sort.field == Column::Memory ==> a.stats.memory.bits < b.stats.memory.bits
            < 0x8000_0000_0000_0000,
        sort.field == Column::NetTx ==> a.stats.network_tx_bytes_per_sec.bits
            < b.stats.network_tx_bytes_per_sec.bits < 0x8000_0000_0000_0000,
        sort.field == Column::NetRx ==> a.stats.network_rx_bytes_per_sec.bits
            < b.stats.network_rx_bytes_per_sec.bits < 0x8000_0000_0000_0000,
        sort.field == Column::DiskRead ==> a.stats.disk_read_bytes_per_sec.bits
            < b.stats.disk_read_bytes_per_sec.bits < 0x8000_0000_0000_0000,
        sort.field == Column::DiskWrite ==> a.stats.disk_write_bytes_per_sec.bits
            < b.stats.disk_write_bytes_per_sec.bits < 0x8000_0000_0000_0000,
        sort.field == Column::Cpu || sort.field == Column::Memory || sort.field == Column::NetTx
            || sort.field == Column::NetRx || sort.field == Column::DiskRead || sort.field
            == Column::DiskWrite,
    ensures
        sort.direction == SortDirection::Ascending ==> compare_containers(a, b, sort) < 0,
        sort.direction == SortDirection::Descending ==> compare_containers(a, b, sort) > 0,
{
    law_figures_are_sorted_by_size(a, b, sort);
}

/// Sorted by a text, the container whose text comes first, by the first difference
/// or because the other goes on after it, comes first in ascending order and last
/// in descending order.
pub proof fn law_texts_are_sorted_by_their_first_difference(
    a: Container,
    b: Container,
    sort: SortState,
    x: Seq<char>,
    y: Seq<char>,
    common: Seq<char>,
    c: char,
    d: char,
    s: Seq<char>,
    t: Seq<char>,
)
    requires
        (x == common + seq![c] + s && y == common + seq![d] + t && (c as int) < d as int) || (x
            == common && y == common + seq![d] + t),
        sort.field == Column::Name ==> a.name@ == x && b.name@ == y,
        sort.field == Column::Id ==> a.id@ == x && b.id@ == y,
        sort.field == Column::Host ==> a.host_id@ == x && b.host_id@ == y,
        sort.field == Column::Compose ==> text::text_of(a.compose_project) == Some(x)
            && text::text_of(b.compose_project) == Some(y),
        sort.field == Column::Image ==> text::text_of(a.image) == Some(x) && text::text_of(b.image)
            == Some(y),
        sort.field == Column::Status ==> a.state.name_text() == x && b.state.name_text() == y,
        sort.field == Column::Name || sort.field == Column::Id || sort.field == Column::Host
            || sort.field == Column::Compose || sort.field == Column::Image || sort.field
            == Column::Status,
    ensures
        sort.direction == SortDirection::Ascending ==> compare_containers(a, b, sort) < 0,
        sort.direction == SortDirection::Descending ==> compare_containers(a, b, sort) > 0,
{
    order::law_texts_are_ordered_by_their_first_difference(common, c, d, s, t);
    order::law_texts_are_ordered_by_their_first_difference(common, d, d, t, t);
}

/// Containers that do not differ in the sort field are sorted by their hosts, the
/// host that comes first as a text first, in either direction.
pub proof fn law_hosts_break_ties(a: Container, b: Container, sort: SortState)
    requires
        sort.field == Column::Status ==> a.state == b.state,
        sort.field == Column::Name ==> a.name@ == b.name@,
        sort.field == Column::Id ==> a.id@ == b.id@,
        sort.field == Column::Host ==> a.host_id@ == b.host_id@,
        sort.field == Column::Compose ==> text::text_of(a.compose_project) == text::text_of(
            b.compose_project,
        ),
        sort.field == Column::Image ==> text::text_of(a.image) == text::text_of(b.image),
        sort.field == Column::Cpu ==> a.stats.cpu == b.stats.cpu,
        sort.field == Column::Memory ==> a.stats.memory == b.stats.memory,
        sort.field == Column::Pids ==> a.stats.pids_current == b.stats.pids_current,
        sort.field == Column::NetTx ==> a.stats.network_tx_bytes_per_sec
            == b.stats.network_tx_bytes_per_sec,
        sort.field == Column::NetRx ==> a.stats.network_rx_bytes_per_sec
            == b.stats.network_rx_bytes_per_sec,
        sort.field == Column::DiskRead ==> a.stats.disk_read_bytes_per_sec
            == b.stats.disk_read_bytes_per_sec,
        sort.field == Column::DiskWrite ==> a.stats.disk_write_bytes_per_sec
            == b.stats.disk_write_bytes_per_sec,
        sort.field == Column::Uptime ==> a.created == b.created,
        sort.field == Column::Restarts ==> a.restart_count == b.restart_count,
    ensures
        compare_containers(a, b, sort) == order::compare_texts(a.host_id@, b.host_id@),
        a.host_id@ == b.host_id@ ==> compare_containers(a, b, sort) == 0,
{
    order::lemma_compare_texts_antisymmetric(a.name@, b.name@);
    order::lemma_compare_texts_antisymmetric(a.id@, b.id@);
    order::lemma_compare_texts_antisymmetric(a.host_id@, b.host_id@);
    order::lemma_compare_values_antisymmetric(
        sort_value(a, sort.field),
        sort_value(b, sort.field),
    );
}

/// Columns whose values are texts sort upwards unless the user says otherwise, and
/// columns of figures sort downwards.
pub proof fn law_texts_sort_upwards_and_figures_downwards(c: Container, field: Column)
    ensures
        sort_value(c, field) is Text <==> SortState::of(field).direction
            == SortDirection::Ascending,
        SortState::of(field).field == field,
{
}

/// A sort changes the list and the time of the last sort, and leaves everything
/// else as it was.
pub proof fn law_sorting_changes_only_the_list(state: AppState, after: AppState)
    requires
        state.relisted(after),
    ensures
        after.containers == state.containers,
        after.view_state == state.view_state,
        after.column_config == state.column_config,
        after.visible_columns_cache == state.visible_columns_cache,
        after.sort_state == state.sort_state,
        after.sort_selector_state == state.sort_selector_state,
        after.table_state == state.table_state,
        after.show_all_containers == state.show_all_containers,
        after.search_input == state.search_input,
        after.last_list_viewport_height == state.last_list_viewport_height,
        state.lists(after.sorted_container_keys@),
{
}

/// Three seconds after the last sort, or when forced, the containers are listed
/// anew as of the moment of the sort; before that nothing changes.
pub proof fn law_sorts_are_three_seconds_apart(
    state: AppState,
    elapsed: u128,
    moment: Instant,
    force: bool,
    after: AppState,
)
    requires
        state.sorted_at(elapsed, moment, force, after),
    ensures
        force || elapsed >= 3_000_000_000 ==> state.lists(after.sorted_container_keys@)
            && after.last_sort_time == moment,
        !force && elapsed < 3_000_000_000 ==> after == state,
{
}

/// Containers that the sort state leaves in either order are listed as they stand
/// in the map: the one that was there first comes first.
pub proof fn law_ties_keep_the_order_of_the_map(
    state: AppState,
    keys: Seq<ContainerKey>,
    i: int,
    j: int,
)
    requires
        state.containers.wf(),
        state.lists(keys),
        0 <= i < j < keys.len(),
        compare_containers(
            state.containers@[keys[i]@],
            state.containers@[keys[j]@],
            state.sort_state,
        ) == 0,
    ensures
        state.containers.keys().index_of(keys[i]@) < state.containers.keys().index_of(keys[j]@),
{
    let rows = state.containers.entries@;
    let at = choose|at: Seq<usize>| #[trigger] state.is_listing(at) && keys == keys_at(rows, at);
    assert(at.contains(at[i]) && at.contains(at[j]));
    assert(row_before(rows, state.sort_state, at[i], at[j]));
    state.containers.lemma_entry(at[i] as int);
    state.containers.lemma_entry(at[j] as int);
    let all = state.containers.keys();
    assert(all[at[i] as int] == keys[i]@);
    assert(all[at[j] as int] == keys[j]@);
}

/// A selection that is on a row stays there with its scroll position; without one
/// the first row is selected, beyond the list the last, and in an empty list none.
pub proof fn law_selection_stays_where_it_can(selection: Selection, count: int, row: usize)
    requires
        0 <= count <= usize::MAX,
    ensures
        selection.selected == Some(row) && row < count ==> selection_within(selection, count)
            == selection,
        selection.selected == Some(row) && 0 < count <= row ==> selection_within(
            selection,
            count,
        ).selected == Some((count - 1) as usize),
        selection.selected is None && count > 0 ==> selection_within(selection, count).selected
            == Some(0usize),
        count > 0 ==> selection_within(selection, count).offset == selection.offset,
        count == 0 ==> selection_within(selection, count).selected is None && selection_within(
            selection,
            count,
        ).offset == 0,
{
}

/// The keys of the sort selector: the arrows and `k` and `j` move, Enter and the
/// space bar choose, Escape and `s` close, and nothing else does anything.
pub proof fn law_selector_keys(key: Key)
    ensures
        selector_command(key) == SelectorCommand::Up <==> key == Key::Up || key == Key::Char('k'),
        selector_command(key) == SelectorCommand::Down <==> key == Key::Down || key == Key::Char(
            'j',
        ),
        selector_command(key) == SelectorCommand::Choose <==> key == Key::Enter || key
            == Key::Char(' '),
        selector_command(key) == SelectorCommand::Close <==> key == Key::Esc || key == Key::Char(
            's',
        ),
{
}

/// A move goes one row up or down and keeps the scroll position; at the ends of the
/// list it goes nowhere. Without a selection it starts from the first row.
pub proof fn law_selector_moves_by_one_row(selection: Selection, row: usize, count: int)
    requires
        count <= usize::MAX,
        selection.selected == Some(row) || (selection.selected is None && row == 0),
    ensures
        row + 1 < count ==> moved(selection, SelectorCommand::Down, count) == (Selection {
            selected: Some((row + 1) as usize),
            offset: selection.offset,
        }),
        row + 1 >= count ==> moved(selection, SelectorCommand::Down, count) == selection,
        row > 0 ==> moved(selection, SelectorCommand::Up, count) == (Selection {
            selected: Some((row - 1) as usize),
            offset: selection.offset,
        }),
        row == 0 ==> moved(selection, SelectorCommand::Up, count) == selection,
        moved(selection, SelectorCommand::Ignore, count) == selection,
{
}

/// The sort selector opens on the row that shows the sort field, the first if there
/// are several, and on the first row if none does. What is chosen there is what the
/// selected row shows.
pub proof fn law_selector_opens_on_the_sort_field(state: AppState, row: usize)
    ensures
        ({
            let shown = state.shown_columns();
            let at = state.sort_field_row();
            &&& shown.contains(state.sort_state.field) ==> {
                &&& 0 <= at < shown.len()
                &&& shown[at] == state.sort_state.field
                &&& forall|j: int| 0 <= j < at ==> #[trigger] shown[j] != state.sort_state.field
            }
            &&& !shown.contains(state.sort_state.field) ==> at == 0
            &&& state.sort_selector_state.selected == Some(row) && row < shown.len()
                ==> state.chosen_column() == Some(shown[row as int])
            &&& state.sort_selector_state.selected == Some(row) && row >= shown.len()
                ==> state.chosen_column() is None
            &&& state.sort_selector_state.selected is None ==> state.chosen_column() is None
        }),
{
    state.shown_columns().index_of_first_ensures(state.sort_state.field);
}

/// Choosing another column than the sort field sorts by it in its own direction.
pub proof fn law_choosing_another_column_takes_its_direction(sort: SortState, field: Column)
    requires
        field != sort.field,
    ensures
        choosing(sort, field) == SortState::of(field),
        choosing(sort, sort.field).field == sort.field,
        choosing(sort, sort.field).direction != sort.direction,
{
}

/// Sorted by status, the states come in alphabetical order: created, dead, exited,
/// paused, removing, restarting, running, unknown.
pub proof fn law_states_are_sorted_alphabetically(a: Container, b: Container, sort: SortState)
    requires
        sort.field == Column::Status,
    ensures
        ({
            let place = |state: ContainerState|
                match state {
                    ContainerState::Created => 0int,
                    ContainerState::Dead => 1,
                    ContainerState::Exited => 2,
                    ContainerState::Paused => 3,
                    ContainerState::Removing => 4,
                    ContainerState::Restarting => 5,
                    ContainerState::Running => 6,
                    ContainerState::Unknown => 7,
                };
            place(a.state) < place(b.state) ==> if sort.direction == SortDirection::Ascending {
                compare_containers(a, b, sort) < 0
            } else {
                compare_containers(a, b, sort) > 0
            }
        }),
{
    reveal_strlit("Running");
    reveal_strlit("Paused");
    reveal_strlit("Restarting");
    reveal_strlit("Removing");
    reveal_strlit("Exited");
    reveal_strlit("Dead");
    reveal_strlit("Created");
    reveal_strlit("Unknown");
    reveal_with_fuel(order::compare_texts, 4);
    let x = a.state.name_text();
    let y = b.state.name_text();
    assert(x.len() >= 4 && y.len() >= 4);
    assert(x.skip(1)[0] == x[1] && y.skip(1)[0] == y[1]);
    assert(x.skip(1).skip(1)[0] == x[2] && y.skip(1).skip(1)[0] == y[2]);
}

} // verus!
