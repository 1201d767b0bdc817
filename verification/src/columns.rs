//! The columns of the container list: their names, the direction they sort in,
//! and the user's choice and order of columns.
use crate::outside;
use crate::text;
use crate::text::same_text;
use vstd::prelude::*;

verus! {

/// Sort direction
#[derive(Clone, Copy, Debug, PartialEq, Eq, Structural)]
pub enum SortDirection {
    Ascending,
    Descending,
}

impl SortDirection {
    /// The opposite direction.
    pub open spec fn opposite(self) -> SortDirection {
        match self {
            SortDirection::Ascending => SortDirection::Descending,
            SortDirection::Descending => SortDirection::Ascending,
        }
    }

    /// The text of the direction's symbol.
    pub open spec fn symbol_text(self) -> Seq<char> {
        match self {
            SortDirection::Ascending => "▲"@,
            SortDirection::Descending => "▼"@,
        }
    }

    /// Toggles the sort direction
    pub fn toggle(self) -> (r: Self)
        ensures
            r == self.opposite(),
    {
        match self {
            SortDirection::Ascending => SortDirection::Descending,
            SortDirection::Descending => SortDirection::Ascending,
        }
    }

    /// Returns the display symbol for this direction
    pub fn symbol(self) -> (r: &'static str)
        ensures
            r@ == self.symbol_text(),
    {
        match self {
            SortDirection::Ascending => "▲",
            SortDirection::Descending => "▼",
        }
    }
}

/// Toggling a direction twice gives it back.
pub proof fn law_direction_toggle_is_an_involution(d: SortDirection)
    ensures
        d.opposite() != d,
        d.opposite().opposite() == d,
{
}

/// Combined sort state (field + direction)
#[derive(Clone, Copy, Debug, PartialEq, Eq, Structural)]
pub struct SortState {
    pub field: Column,
    pub direction: SortDirection,
}

impl SortState {
    /// The sort state of a field in its default direction.
    pub open spec fn of(field: Column) -> SortState {
        SortState { field, direction: field.default_direction() }
    }

    /// Creates a new SortState with the default direction for the field
    pub fn new(field: Column) -> (r: Self)
        ensures
            r == SortState::of(field),
    {
        SortState { field, direction: field.default_sort_direction() }
    }

    /// Creates a new SortState with an optional explicit direction.
    /// If direction is None, uses the field's default direction.
    pub fn new_with_direction(field: Column, direction: Option<SortDirection>) -> (r: Self)
        ensures
            r == match direction {
                Some(d) => SortState { field, direction: d },
                None => SortState::of(field),
            },
    {
        match direction {
            Some(direction) => SortState { field, direction },
            None => SortState::new(field),
        }
    }
}

impl Default for SortState {
    fn default() -> (r: Self)
        ensures
            r == SortState::of(Column::Uptime),
    {
        SortState::new(Column::Uptime)
    }
}

/// Available columns in the container list
#[derive(Clone, Copy, Debug, PartialEq, Eq, Hash, Structural)]
pub enum Column {
    Status,
    Name,
    Id,
    Host,
    Compose,
    Image,
    Cpu,
    Memory,
    Pids,
    NetTx,
    NetRx,
    DiskRead,
    DiskWrite,
    Uptime,
    Restarts,
}

/// The columns in their default order.
pub open spec fn default_order() -> Seq<Column> {
    seq![
        Column::Id,
        Column::Status,
        Column::Name,
        Column::Host,
        Column::Compose,
        Column::Image,
        Column::Cpu,
        Column::Memory,
        Column::Pids,
        Column::NetTx,
        Column::NetRx,
        Column::DiskRead,
        Column::DiskWrite,
        Column::Uptime,
        Column::Restarts,
    ]
}

/// The column whose identifier is the given text.
pub open spec fn column_with_id(s: Seq<char>) -> Option<Column> {
    if exists|c: Column| #[trigger] c.id_text() == s {
        Some(choose|c: Column| #[trigger] c.id_text() == s)
    } else {
        None
    }
}

/// The column that a sort field names once it is in lower case: one of the short
/// aliases or a column identifier.
pub open spec fn column_with_sort_name(s: Seq<char>) -> Option<Column> {
    if s == "u"@ {
        Some(Column::Uptime)
    } else if s == "n"@ {
        Some(Column::Name)
    } else if s == "c"@ {
        Some(Column::Cpu)
    } else if s == "m"@ || s == "mem"@ {
        Some(Column::Memory)
    } else {
        column_with_id(s)
    }
}

impl Column {
    /// The text of the column's label.
    pub open spec fn label_text(self) -> Seq<char> {
        match self {
            Column::Status => "Status Icon"@,
            Column::Name => "Name"@,
            Column::Id => "ID"@,
            Column::Host => "Host"@,
            Column::Compose => "Compose"@,
            Column::Image => "Image"@,
            Column::Cpu => "CPU %"@,
            Column::Memory => "Memory %"@,
            Column::Pids => "PIDs"@,
            Column::NetTx => "Net TX"@,
            Column::NetRx => "Net RX"@,
            Column::DiskRead => "Disk R"@,
            Column::DiskWrite => "Disk W"@,
            Column::Uptime => "Uptime"@,
            Column::Restarts => "Restarts"@,
        }
    }

    /// The text of the column's identifier.
    pub open spec fn id_text(self) -> Seq<char> {
        match self {
            Column::Status => "status"@,
            Column::Name => "name"@,
            Column::Id => "id"@,
            Column::Host => "host"@,
            Column::Compose => "compose"@,
            Column::Image => "image"@,
            Column::Cpu => "cpu"@,
            Column::Memory => "memory"@,
            Column::Pids => "pids"@,
            Column::NetTx => "net_tx"@,
            Column::NetRx => "net_rx"@,
            Column::DiskRead => "disk_read"@,
            Column::DiskWrite => "disk_write"@,
            Column::Uptime => "uptime"@,
            Column::Restarts => "restarts"@,
        }
    }

    /// The text of the column's label in the sort selector.
    pub open spec fn sort_label_text(self) -> Seq<char> {
        match self {
            Column::Status => "Status"@,
            Column::Name => "Name"@,
            Column::Id => "ID"@,
            Column::Host => "Host"@,
            Column::Compose => "Compose"@,
            Column::Image => "Image"@,
            Column::Cpu => "CPU"@,
            Column::Memory => "Memory"@,
            Column::Pids => "PIDs"@,
            Column::NetTx => "Net TX"@,
            Column::NetRx => "Net RX"@,
            Column::DiskRead => "Disk Read"@,
            Column::DiskWrite => "Disk Write"@,
            Column::Uptime => "Uptime"@,
            Column::Restarts => "Restarts"@,
        }
    }

    /// Whether the column is shown unless the user says otherwise.
    pub open spec fn shown_by_default(self) -> bool {
        match self {
            Column::Restarts
            | Column::Compose
            | Column::Image
            | Column::DiskRead
            | Column::DiskWrite
            | Column::Pids => false,
            _ => true,
        }
    }

    /// The direction in which the column sorts unless the user says otherwise:
    /// upwards for texts, downwards for figures.
    pub open spec fn default_direction(self) -> SortDirection {
        match self {
            Column::Name
            | Column::Id
            | Column::Host
            | Column::Compose
            | Column::Image
            | Column::Status => SortDirection::Ascending,
            _ => SortDirection::Descending,
        }
    }

    pub fn label(self) -> (r: &'static str)
        ensures
            r@ == self.label_text(),
    {
        match self {
            Column::Status => "Status Icon",
            Column::Name => "Name",
            Column::Id => "ID",
            Column::Host => "Host",
            Column::Compose => "Compose",
            Column::Image => "Image",
            Column::Cpu => "CPU %",
            Column::Memory => "Memory %",
            Column::Pids => "PIDs",
            Column::NetTx => "Net TX",
            Column::NetRx => "Net RX",
            Column::DiskRead => "Disk R",
            Column::DiskWrite => "Disk W",
            Column::Uptime => "Uptime",
            Column::Restarts => "Restarts",
        }
    }

    pub fn id(self) -> (r: &'static str)
        ensures
            r@ == self.id_text(),
    {
        match self {
            Column::Status => "status",
            Column::Name => "name",
            Column::Id => "id",
            Column::Host => "host",
            Column::Compose => "compose",
            Column::Image => "image",
            Column::Cpu => "cpu",
            Column::Memory => "memory",
            Column::Pids => "pids",
            Column::NetTx => "net_tx",
            Column::NetRx => "net_rx",
            Column::DiskRead => "disk_read",
            Column::DiskWrite => "disk_write",
            Column::Uptime => "uptime",
            Column::Restarts => "restarts",
        }
    }

    pub fn from_id(id: &str) -> (r: Option<Column>)
        ensures
            r == column_with_id(id@),
            match r {
                Some(c) => c.id_text() == id@,
                None => forall|c: Column| #[trigger] c.id_text() != id@,
            },
    {
        let all = Column::all_default();
        let mut i: usize = 0;
        while i < all.len()
            invariant
                all@ == default_order(),
                i <= all@.len(),
                forall|j: int| 0 <= j < i ==> (#[trigger] all@[j]).id_text() != id@,
            decreases all@.len() - i,
        {
            let c = all[i];
            if same_text(c.id(), id) {
                proof {
                    law_ids_are_distinct(c, column_with_id(id@).unwrap());
                }
                return Some(c);
            }
            i = i + 1;
        }
        proof {
            assert forall|c: Column| #[trigger] c.id_text() != id@ by {
                law_default_order_is_complete(c);
                let j = default_order().index_of(c);
                assert(all@[j].id_text() != id@);
            }
        }
        None
    }

    pub fn all_default() -> (r: Vec<Column>)
        ensures
            r@ == default_order(),
    {
        vec![
            Column::Id,
            Column::Status,
            Column::Name,
            Column::Host,
            Column::Compose,
            Column::Image,
            Column::Cpu,
            Column::Memory,
            Column::Pids,
            Column::NetTx,
            Column::NetRx,
            Column::DiskRead,
            Column::DiskWrite,
            Column::Uptime,
            Column::Restarts,
        ]
    }

    /// Returns whether this column is visible by default
    pub fn default_visible(self) -> (r: bool)
        ensures
            r == self.shown_by_default(),
    {
        match self {
            Column::Restarts
            | Column::Compose
            | Column::Image
            | Column::DiskRead
            | Column::DiskWrite
            | Column::Pids => false,
            _ => true,
        }
    }

    /// Returns the default sort direction when sorting by this column
    pub fn default_sort_direction(self) -> (r: SortDirection)
        ensures
            r == self.default_direction(),
    {
        match self {
            Column::Name
            | Column::Id
            | Column::Host
            | Column::Compose
            | Column::Image
            | Column::Status => SortDirection::Ascending,
            Column::Uptime
            | Column::Cpu
            | Column::Memory
            | Column::Pids
            | Column::NetTx
            | Column::NetRx
            | Column::DiskRead
            | Column::DiskWrite
            | Column::Restarts => SortDirection::Descending,
        }
    }

    /// Parses a sort field string (case-insensitive, with short aliases for backwards compat)
    pub fn from_sort_str(s: &str) -> (r: Option<Column>)
        ensures
            r == column_with_sort_name(outside::lowercase(s@)),
    {
        let lower = s.to_lowercase();
        Column::from_lowercase_sort_str(lower.as_str())
    }

    /// Parses a sort field string that is in lower case.
    pub fn from_lowercase_sort_str(s: &str) -> (r: Option<Column>)
        ensures
            r == column_with_sort_name(s@),
    {
        if same_text(s, "u") {
            Some(Column::Uptime)
        } else if same_text(s, "n") {
            Some(Column::Name)
        } else if same_text(s, "c") {
            Some(Column::Cpu)
        } else if same_text(s, "m") || same_text(s, "mem") {
            Some(Column::Memory)
        } else {
            Column::from_id(s)
        }
    }

    /// Sort-friendly label for the sort selector popup
    pub fn sort_label(self) -> (r: &'static str)
        ensures
            r@ == self.sort_label_text(),
    {
        match self {
            Column::Status => "Status",
            Column::Name => "Name",
            Column::Id => "ID",
            Column::Host => "Host",
            Column::Compose => "Compose",
            Column::Image => "Image",
            Column::Cpu => "CPU",
            Column::Memory => "Memory",
            Column::Pids => "PIDs",
            Column::NetTx => "Net TX",
            Column::NetRx => "Net RX",
            Column::DiskRead => "Disk Read",
            Column::DiskWrite => "Disk Write",
            Column::Uptime => "Uptime",
            Column::Restarts => "Restarts",
        }
    }
}

/// What the column identifiers hold.
proof fn reveal_ids()
    ensures
        Column::Status.id_text() =~= seq!['s', 't', 'a', 't', 'u', 's'],
        Column::Name.id_text() =~= seq!['n', 'a', 'm', 'e'],
        Column::Id.id_text() =~= seq!['i', 'd'],
        Column::Host.id_text() =~= seq!['h', 'o', 's', 't'],
        Column::Compose.id_text() =~= seq!['c', 'o', 'm', 'p', 'o', 's', 'e'],
        Column::Image.id_text() =~= seq!['i', 'm', 'a', 'g', 'e'],
        Column::Cpu.id_text() =~= seq!['c', 'p', 'u'],
        Column::Memory.id_text() =~= seq!['m', 'e', 'm', 'o', 'r', 'y'],
        Column::Pids.id_text() =~= seq!['p', 'i', 'd', 's'],
        Column::NetTx.id_text() =~= seq!['n', 'e', 't', '_', 't', 'x'],
        Column::NetRx.id_text() =~= seq!['n', 'e', 't', '_', 'r', 'x'],
        Column::DiskRead.id_text() =~= seq!['d', 'i', 's', 'k', '_', 'r', 'e', 'a', 'd'],
        Column::DiskWrite.id_text() =~= seq!['d', 'i', 's', 'k', '_', 'w', 'r', 'i', 't', 'e'],
        Column::Uptime.id_text() =~= seq!['u', 'p', 't', 'i', 'm', 'e'],
        Column::Restarts.id_text() =~= seq!['r', 'e', 's', 't', 'a', 'r', 't', 's'],
{
    reveal_strlit("status");
    reveal_strlit("name");
    reveal_strlit("id");
    reveal_strlit("host");
    reveal_strlit("compose");
    reveal_strlit("image");
    reveal_strlit("cpu");
    reveal_strlit("memory");
    reveal_strlit("pids");
    reveal_strlit("net_tx");
    reveal_strlit("net_rx");
    reveal_strlit("disk_read");
    reveal_strlit("disk_write");
    reveal_strlit("uptime");
    reveal_strlit("restarts");
}

/// Two columns with the same identifier are the same column.
pub proof fn law_ids_are_distinct(c: Column, d: Column)
    requires
        c.id_text() == d.id_text(),
    ensures
        c == d,
{
    reveal_ids();
    let s = c.id_text();
    let t = d.id_text();
    assert(s.len() == t.len());
    assert(s[0] == t[0]);
    assert(s[1] == t[1]);
    if s.len() > 4 {
        assert(s[4] == t[4]);
    }
}

/// Every column stands in the default order, once.
pub proof fn law_default_order_is_complete(c: Column)
    ensures
        default_order().contains(c),
        default_order().no_duplicates(),
        default_order().len() == 15,
{
    let s = default_order();
    let i: int = match c {
        Column::Id => 0,
        Column::Status => 1,
        Column::Name => 2,
        Column::Host => 3,
        Column::Compose => 4,
        Column::Image => 5,
        Column::Cpu => 6,
        Column::Memory => 7,
        Column::Pids => 8,
        Column::NetTx => 9,
        Column::NetRx => 10,
        Column::DiskRead => 11,
        Column::DiskWrite => 12,
        Column::Uptime => 13,
        Column::Restarts => 14,
    };
    assert(s[i] == c);
}

/// Reading a column's identifier gives the column back.
pub proof fn law_id_reads_back(c: Column)
    ensures
        column_with_id(c.id_text()) == Some(c),
{
    assert(exists|d: Column| #[trigger] d.id_text() == c.id_text());
    law_ids_are_distinct(column_with_id(c.id_text()).unwrap(), c);
}

/// Reading a column's identifier as a sort field gives the column back: no
/// identifier is one of the short aliases, and all are in lower case.
pub proof fn law_id_is_a_sort_name(c: Column)
    ensures
        column_with_sort_name(outside::lowercase(c.id_text())) == Some(c),
{
    reveal_ids();
    law_id_reads_back(c);
    reveal_strlit("u");
    reveal_strlit("n");
    reveal_strlit("c");
    reveal_strlit("m");
    reveal_strlit("mem");
    assert(outside::ascii(c.id_text()));
    assert(outside::lowercase(c.id_text()) =~= c.id_text());
}

/// A sort field in ASCII is read without regard to case.
pub proof fn law_sort_names_ignore_case(s: Seq<char>, t: Seq<char>)
    requires
        text::same_letters(s, t),
    ensures
        column_with_sort_name(outside::lowercase(s)) == column_with_sort_name(
            outside::lowercase(t),
        ),
{
    text::lemma_same_letters(s, t);
}

/// The user's choice and order of columns: each with whether it is shown.
#[derive(Clone, Debug, PartialEq)]
pub struct ColumnConfig {
    pub columns: Vec<(Column, bool)>,
}

/// The columns of a list that are shown, in order.
pub open spec fn shown(columns: Seq<(Column, bool)>) -> Seq<Column>
    decreases columns.len(),
{
    if columns.len() == 0 {
        Seq::empty()
    } else if columns.last().1 {
        shown(columns.drop_last()).push(columns.last().0)
    } else {
        shown(columns.drop_last())
    }
}

/// The identifiers of a list of columns.
pub open spec fn ids_of(columns: Seq<Column>) -> Seq<Seq<char>> {
    columns.map_values(|c: Column| c.id_text())
}

/// The columns that a list of identifiers names, in order. A text that names no
/// column is passed over, and so is one whose column came before.
pub open spec fn named_columns(ids: Seq<Seq<char>>) -> Seq<Column>
    decreases ids.len(),
{
    if ids.len() == 0 {
        Seq::empty()
    } else {
        let before = named_columns(ids.drop_last());
        match column_with_id(ids.last()) {
            Some(c) => if before.contains(c) {
                before
            } else {
                before.push(c)
            },
            None => before,
        }
    }
}

/// The columns of a list that are not in `named`, in order and hidden.
pub open spec fn unnamed_columns(columns: Seq<Column>, named: Seq<Column>) -> Seq<(Column, bool)>
    decreases columns.len(),
{
    if columns.len() == 0 {
        Seq::empty()
    } else if named.contains(columns.last()) {
        unnamed_columns(columns.drop_last(), named)
    } else {
        unnamed_columns(columns.drop_last(), named).push((columns.last(), false))
    }
}

/// The configuration that shows the named columns first, in that order, and has
/// all others after them, hidden and in the default order.
pub open spec fn config_showing(named: Seq<Column>) -> Seq<(Column, bool)> {
    named.map_values(|c: Column| (c, true)) + unnamed_columns(default_order(), named)
}

/// A sequence with two of its elements exchanged.
pub open spec fn exchanged<T>(s: Seq<T>, i: int, j: int) -> Seq<T> {
    s.update(i, s[j]).update(j, s[i])
}

/// The columns of a configuration, shown or not, in order.
pub open spec fn columns_of(columns: Seq<(Column, bool)>) -> Seq<Column> {
    columns.map_values(|e: (Column, bool)| e.0)
}

impl ColumnConfig {
    /// Every column stands in the configuration, once.
    pub open spec fn complete(self) -> bool {
        &&& columns_of(self.columns@).no_duplicates()
        &&& forall|c: Column| #[trigger] columns_of(self.columns@).contains(c)
    }

    /// The columns after the entry at `index` has been toggled.
    pub open spec fn toggled(self, index: int) -> Seq<(Column, bool)> {
        let s = self.columns@;
        if 0 <= index < s.len() && s[index].0 != Column::Name {
            s.update(index, (s[index].0, !s[index].1))
        } else {
            s
        }
    }

    /// The columns after the entry at `index` has changed places with the one
    /// before it.
    pub open spec fn moved_up(self, index: int) -> Seq<(Column, bool)> {
        if 0 < index < self.columns@.len() {
            exchanged(self.columns@, index, index - 1)
        } else {
            self.columns@
        }
    }

    /// The columns after the entry at `index` has changed places with the one
    /// after it.
    pub open spec fn moved_down(self, index: int) -> Seq<(Column, bool)> {
        if 0 <= index && index + 1 < self.columns@.len() {
            exchanged(self.columns@, index, index + 1)
        } else {
            self.columns@
        }
    }

    /// The columns that are shown, in order.
    pub fn visible_columns(&self) -> (r: Vec<Column>)
        ensures
            r@ == shown(self.columns@),
    {
        let mut r: Vec<Column> = Vec::new();
        let mut i: usize = 0;
        while i < self.columns.len()
            invariant
                i <= self.columns@.len(),
                r@ == shown(self.columns@.take(i as int)),
            decreases self.columns@.len() - i,
        {
            let (column, visible) = self.columns[i];
            if visible {
                r.push(column);
            }
            assert(self.columns@.take(i + 1).drop_last() == self.columns@.take(i as int));
            i = i + 1;
        }
        assert(self.columns@.take(i as int) == self.columns@);
        r
    }

    /// Shows or hides the entry at `index`. The name column cannot be toggled.
    pub fn toggle(&mut self, index: usize)
        ensures
            final(self).columns@ == old(self).toggled(index as int),
    {
        if index < self.columns.len() {
            let (column, visible) = self.columns[index];
            if column != Column::Name {
                self.columns.set(index, (column, !visible));
            }
        }
    }

    /// Exchanges the entry at `index` with the one before it.
    pub fn move_up(&mut self, index: usize)
        ensures
            final(self).columns@ == old(self).moved_up(index as int),
    {
        if index > 0 && index < self.columns.len() {
            let entry = self.columns[index];
            let above = self.columns[index - 1];
            self.columns.set(index, above);
            self.columns.set(index - 1, entry);
        }
    }

    /// Exchanges the entry at `index` with the one after it.
    pub fn move_down(&mut self, index: usize)
        requires
            index < usize::MAX,
        ensures
            final(self).columns@ == old(self).moved_down(index as int),
    {
        if index + 1 < self.columns.len() {
            let entry = self.columns[index];
            let below = self.columns[index + 1];
            self.columns.set(index, below);
            self.columns.set(index + 1, entry);
        }
    }

    /// The configuration that a list of column identifiers describes: the listed
    /// columns are shown, in that order, and all others are hidden.
    pub fn from_config_strings(strings: &[String]) -> (r: Self)
        ensures
            r.columns@ == config_showing(named_columns(text::texts_of(strings@))),
            r.complete(),
    {
        let ghost ids = text::texts_of(strings@);
        let mut named: Vec<Column> = Vec::new();
        let mut i: usize = 0;
        while i < strings.len()
            invariant
                i <= strings@.len(),
                ids == text::texts_of(strings@),
                named@ == named_columns(ids.take(i as int)),
            decreases strings@.len() - i,
        {
            assert(ids.take(i + 1).drop_last() == ids.take(i as int));
            if let Some(column) = Column::from_id(strings[i].as_str()) {
                if !has_column(&named, column) {
                    named.push(column);
                }
            }
            i = i + 1;
        }
        assert(ids.take(i as int) == ids);
        let mut columns: Vec<(Column, bool)> = Vec::new();
        let mut j: usize = 0;
        while j < named.len()
            invariant
                j <= named@.len(),
                columns@ == named@.take(j as int).map_values(|c: Column| (c, true)),
            decreases named@.len() - j,
        {
            columns.push((named[j], true));
            j = j + 1;
            assert(columns@ =~= named@.take(j as int).map_values(|c: Column| (c, true)));
        }
        assert(named@.take(j as int) == named@);
        let ghost listed = columns@;
        let all = Column::all_default();
        let mut k: usize = 0;
        while k < all.len()
            invariant
                all@ == default_order(),
                k <= all@.len(),
                columns@ == listed + unnamed_columns(all@.take(k as int), named@),
            decreases all@.len() - k,
        {
            let column = all[k];
            assert(all@.take(k + 1).drop_last() == all@.take(k as int));
            if !has_column(&named, column) {
                columns.push((column, false));
            }
            k = k + 1;
            assert(columns@ =~= listed + unnamed_columns(all@.take(k as int), named@));
        }
        assert(all@.take(k as int) == all@);
        let r = ColumnConfig { columns };
        proof {
            lemma_named_columns_distinct(ids);
            lemma_config_is_complete(r, named@);
        }
        r
    }

    /// The identifiers of the columns that are shown, in order.
    pub fn to_config_strings(&self) -> (r: Vec<String>)
        ensures
            text::texts_of(r@) == ids_of(shown(self.columns@)),
    {
        let visible = self.visible_columns();
        let mut r: Vec<String> = Vec::new();
        let mut i: usize = 0;
        while i < visible.len()
            invariant
                i <= visible@.len(),
                text::texts_of(r@) == ids_of(visible@.take(i as int)),
            decreases visible@.len() - i,
        {
            let text = visible[i].id().to_owned();
            let ghost before = r@;
            r.push(text);
            i = i + 1;
            assert(text::texts_of(r@) =~= text::texts_of(before).push(text@));
            assert(ids_of(visible@.take(i as int)) =~= ids_of(visible@.take(i - 1)).push(
                visible@[i - 1].id_text(),
            ));
        }
        assert(visible@.take(i as int) == visible@);
        r
    }
}

/// The default columns, each shown or hidden as is its default.
pub open spec fn default_columns() -> Seq<(Column, bool)> {
    default_order().map_values(|c: Column| (c, c.shown_by_default()))
}

impl Default for ColumnConfig {
    fn default() -> (r: Self)
        ensures
            r.columns@ == default_columns(),
            r.complete(),
    {
        let all = Column::all_default();
        let mut columns: Vec<(Column, bool)> = Vec::new();
        let mut i: usize = 0;
        while i < all.len()
            invariant
                all@ == default_order(),
                i <= all@.len(),
                columns@ == default_columns().take(i as int),
            decreases all@.len() - i,
        {
            let column = all[i];
            columns.push((column, column.default_visible()));
            i = i + 1;
            assert(columns@ =~= default_columns().take(i as int));
        }
        assert(columns@ == default_columns());
        let r = ColumnConfig { columns };
        proof {
            assert(columns_of(r.columns@) =~= default_order());
            assert forall|c: Column| #[trigger] columns_of(r.columns@).contains(c) by {
                law_default_order_is_complete(c);
            }
            law_default_order_is_complete(Column::Name);
        }
        r
    }
}

/// Whether a column is in a list.
fn has_column(columns: &Vec<Column>, column: Column) -> (r: bool)
    ensures
        r == columns@.contains(column),
{
    let mut i: usize = 0;
    while i < columns.len()
        invariant
            i <= columns@.len(),
            forall|j: int| 0 <= j < i ==> columns@[j] != column,
        decreases columns@.len() - i,
    {
        if columns[i] == column {
            return true;
        }
        i = i + 1;
    }
    false
}

/// A new element at the end keeps a sequence free of duplicates.
proof fn lemma_push_distinct(s: Seq<Column>, c: Column)
    requires
        s.no_duplicates(),
        !s.contains(c),
    ensures
        s.push(c).no_duplicates(),
{
    let t = s.push(c);
    assert forall|i: int, j: int| 0 <= i < j < t.len() implies t[i] != t[j] by {
        assert(s.contains(s[i]));
    }
}

/// No column is named twice.
proof fn lemma_named_columns_distinct(ids: Seq<Seq<char>>)
    ensures
        named_columns(ids).no_duplicates(),
    decreases ids.len(),
{
    if ids.len() > 0 {
        lemma_named_columns_distinct(ids.drop_last());
    }
}

/// What the hidden part of a configuration holds: the columns of the list that
/// are not named, each once.
proof fn lemma_unnamed_columns(columns: Seq<Column>, named: Seq<Column>)
    requires
        columns.no_duplicates(),
    ensures
        columns_of(unnamed_columns(columns, named)).no_duplicates(),
        forall|c: Column| #[trigger]
            columns_of(unnamed_columns(columns, named)).contains(c) <==> columns.contains(c)
                && !named.contains(c),
        shown(unnamed_columns(columns, named)) == Seq::<Column>::empty(),
    decreases columns.len(),
{
    let all = unnamed_columns(columns, named);
    if columns.len() > 0 {
        let rest = columns.drop_last();
        let last = columns.last();
        let before = unnamed_columns(rest, named);
        lemma_unnamed_columns(rest, named);
        assert forall|c: Column| columns.contains(c) <==> rest.contains(c) || c == last by {
            if columns.contains(c) {
                let i = columns.index_of(c);
                if i < rest.len() {
                    assert(rest[i] == c);
                }
            }
            if rest.contains(c) {
                assert(columns[rest.index_of(c)] == c);
            }
            assert(columns[columns.len() - 1] == last);
        }
        if !named.contains(last) {
            assert(all.drop_last() == before);
            assert(columns_of(all) =~= columns_of(before).push(last));
            assert(!rest.contains(last));
            assert(!columns_of(before).contains(last));
            lemma_push_distinct(columns_of(before), last);
            assert forall|c: Column| #[trigger] columns_of(all).contains(c) <==> columns_of(
                before,
            ).contains(c) || c == last by {
                if columns_of(before).contains(c) {
                    assert(columns_of(all)[columns_of(before).index_of(c)] == c);
                }
                assert(columns_of(all)[before.len() as int] == last);
            }
        }
    } else {
        assert(columns_of(all) =~= Seq::<Column>::empty());
    }
}

/// A configuration that shows distinct columns holds every column once.
proof fn lemma_config_is_complete(config: ColumnConfig, named: Seq<Column>)
    requires
        named.no_duplicates(),
        config.columns@ == config_showing(named),
    ensures
        config.complete(),
{
    law_default_order_is_complete(Column::Name);
    lemma_unnamed_columns(default_order(), named);
    let hidden = columns_of(unnamed_columns(default_order(), named));
    let all = columns_of(config.columns@);
    assert(all =~= named + hidden);
    assert forall|c: Column| #[trigger] all.contains(c) by {
        law_default_order_is_complete(c);
        if named.contains(c) {
            assert(all[named.index_of(c)] == c);
        } else {
            assert(hidden.contains(c));
            assert(all[named.len() + hidden.index_of(c)] == c);
        }
    }
    assert forall|i: int, j: int| 0 <= i < j < all.len() implies all[i] != all[j] by {
        if i < named.len() && j >= named.len() {
            assert(hidden[j - named.len()] == all[j]);
            assert(hidden.contains(all[j]));
            assert(named.contains(all[i]));
        }
    }
}

/// What is shown of two lists in a row is what is shown of either.
proof fn lemma_shown_concat(a: Seq<(Column, bool)>, b: Seq<(Column, bool)>)
    ensures
        shown(a + b) == shown(a) + shown(b),
    decreases b.len(),
{
    if b.len() == 0 {
        assert(a + b =~= a);
    } else {
        lemma_shown_concat(a, b.drop_last());
        assert((a + b).drop_last() =~= a + b.drop_last());
        assert((a + b).last() == b.last());
        assert(shown(a + b) =~= shown(a) + shown(b));
    }
}

/// A list of columns that are all shown is shown as it is.
proof fn lemma_shown_all(named: Seq<Column>)
    ensures
        shown(named.map_values(|c: Column| (c, true))) == named,
    decreases named.len(),
{
    let all = named.map_values(|c: Column| (c, true));
    if named.len() > 0 {
        lemma_shown_all(named.drop_last());
        assert(all.drop_last() =~= named.drop_last().map_values(|c: Column| (c, true)));
        assert(shown(all) =~= named);
    }
}

/// The columns that a list of identifiers names are the ones that its
/// configuration shows, in the same order.
pub proof fn law_named_columns_are_shown(ids: Seq<Seq<char>>)
    ensures
        shown(config_showing(named_columns(ids))) == named_columns(ids),
{
    let named = named_columns(ids);
    law_default_order_is_complete(Column::Name);
    lemma_unnamed_columns(default_order(), named);
    lemma_shown_concat(
        named.map_values(|c: Column| (c, true)),
        unnamed_columns(default_order(), named),
    );
    lemma_shown_all(named);
    assert(named + Seq::<Column>::empty() =~= named);
}

/// The identifiers of distinct columns name those columns.
proof fn lemma_ids_name_columns(columns: Seq<Column>)
    requires
        columns.no_duplicates(),
    ensures
        named_columns(ids_of(columns)) == columns,
    decreases columns.len(),
{
    if columns.len() > 0 {
        let rest = columns.drop_last();
        lemma_ids_name_columns(rest);
        assert(ids_of(columns).drop_last() =~= ids_of(rest));
        law_id_reads_back(columns.last());
        assert(!rest.contains(columns.last()));
        assert(rest.push(columns.last()) =~= columns);
    } else {
        assert(ids_of(columns) =~= Seq::<Seq<char>>::empty());
    }
}

/// What is shown of distinct columns is distinct and comes from among them.
proof fn lemma_shown_distinct(columns: Seq<(Column, bool)>)
    requires
        columns_of(columns).no_duplicates(),
    ensures
        shown(columns).no_duplicates(),
        forall|c: Column| #[trigger] shown(columns).contains(c) ==> columns_of(columns).contains(c),
    decreases columns.len(),
{
    if columns.len() > 0 {
        let rest = columns.drop_last();
        let last = columns.last();
        assert(columns_of(rest) =~= columns_of(columns).drop_last());
        lemma_shown_distinct(rest);
        assert(!columns_of(rest).contains(last.0)) by {
            if columns_of(rest).contains(last.0) {
                let i = columns_of(rest).index_of(last.0);
                assert(columns_of(columns)[i] == columns_of(columns)[columns.len() - 1]);
            }
        }
        if last.1 {
            assert(!shown(rest).contains(last.0));
            lemma_push_distinct(shown(rest), last.0);
        }
        assert forall|c: Column| #[trigger] shown(columns).contains(c) implies columns_of(
            columns,
        ).contains(c) by {
            if shown(rest).contains(c) {
                assert(columns_of(rest).contains(c));
                assert(columns_of(columns)[columns_of(rest).index_of(c)] == c);
            } else {
                let i = shown(columns).index_of(c);
                if i < shown(rest).len() {
                    assert(shown(rest)[i] == c);
                }
                assert(columns_of(columns)[columns.len() - 1] == c);
            }
        }
    }
}

/// Writing a configuration as strings and reading it back shows the same columns
/// in the same order.
pub proof fn law_config_strings_read_back(config: ColumnConfig)
    requires
        config.complete(),
    ensures
        shown(config_showing(named_columns(ids_of(shown(config.columns@))))) == shown(
            config.columns@,
        ),
{
    lemma_shown_distinct(config.columns@);
    lemma_ids_name_columns(shown(config.columns@));
    law_named_columns_are_shown(ids_of(shown(config.columns@)));
}

/// Toggling an entry twice gives the configuration back.
pub proof fn law_toggle_is_an_involution(config: ColumnConfig, after: ColumnConfig, index: int)
    requires
        after.columns@ == config.toggled(index),
    ensures
        after.toggled(index) == config.columns@,
{
    assert(after.toggled(index) =~= config.columns@);
}

/// Moving an entry up and then down again from its new place gives the
/// configuration back, and so does moving it down and then up.
pub proof fn law_moves_undo_each_other(config: ColumnConfig, up: ColumnConfig, down: ColumnConfig, index: int)
    requires
        up.columns@ == config.moved_up(index),
        down.columns@ == config.moved_down(index),
    ensures
        0 < index < config.columns@.len() ==> up.moved_down(index - 1) == config.columns@,
        0 <= index < config.columns@.len() - 1 ==> down.moved_up(index + 1) == config.columns@,
{
    if 0 < index < config.columns@.len() {
        assert(up.moved_down(index - 1) =~= config.columns@);
    }
    if 0 <= index < config.columns@.len() - 1 {
        assert(down.moved_up(index + 1) =~= config.columns@);
    }
}

/// Toggling and moving entries keep every column in the configuration, once.
pub proof fn law_edits_keep_the_columns(config: ColumnConfig, after: ColumnConfig, index: int)
    requires
        config.complete(),
        after.columns@ == config.toggled(index) || after.columns@ == config.moved_up(index)
            || after.columns@ == config.moved_down(index),
    ensures
        after.complete(),
        after.columns@.len() == config.columns@.len(),
{
    let a = columns_of(config.columns@);
    let b = columns_of(after.columns@);
    if after.columns@ == config.toggled(index) {
        assert(b =~= a);
    } else if after.columns@ == config.moved_up(index) {
        if 0 < index < a.len() {
            assert(b =~= exchanged(a, index, index - 1));
        }
    } else if 0 <= index && index + 1 < a.len() {
        assert(b =~= exchanged(a, index, index + 1));
    }
    assert(b.no_duplicates());
    assert forall|c: Column| #[trigger] b.contains(c) by {
        assert(a.contains(c));
        let i = a.index_of(c);
        if after.columns@ == config.toggled(index) {
            assert(b[i] == c);
        } else if after.columns@ == config.moved_up(index) {
            if 0 < index < a.len() {
                let j = if i == index { index - 1 } else if i == index - 1 { index } else { i };
                assert(b[j] == c);
            } else {
                assert(b[i] == c);
            }
        } else {
            if 0 <= index && index + 1 < a.len() {
                let j = if i == index { index + 1 } else if i == index + 1 { index } else { i };
                assert(b[j] == c);
            } else {
                assert(b[i] == c);
            }
        }
    }
}

/// No toggle and no move hides the name column.
pub proof fn law_name_stays_shown(config: ColumnConfig, after: ColumnConfig, index: int)
    requires
        config.columns@.contains((Column::Name, true)),
        after.columns@ == config.toggled(index) || after.columns@ == config.moved_up(index)
            || after.columns@ == config.moved_down(index),
    ensures
        after.columns@.contains((Column::Name, true)),
{
    let s = config.columns@;
    let t = after.columns@;
    let i = s.index_of((Column::Name, true));
    if t == config.toggled(index) {
        assert(t[i] == s[i]);
    } else if t == config.moved_up(index) {
        if 0 < index < s.len() {
            let j = if i == index { index - 1 } else if i == index - 1 { index } else { i };
            assert(t[j] == s[i]);
        }
    } else if 0 <= index && index + 1 < s.len() {
        let j = if i == index { index + 1 } else if i == index + 1 { index } else { i };
        assert(t[j] == s[i]);
    }
}

/// What the labels of the sort selector hold.
proof fn reveal_sort_labels()
    ensures
        Column::Status.sort_label_text() =~= seq!['S', 't', 'a', 't', 'u', 's'],
        Column::Name.sort_label_text() =~= seq!['N', 'a', 'm', 'e'],
        Column::Id.sort_label_text() =~= seq!['I', 'D'],
        Column::Host.sort_label_text() =~= seq!['H', 'o', 's', 't'],
        Column::Compose.sort_label_text() =~= seq!['C', 'o', 'm', 'p', 'o', 's', 'e'],
        Column::Image.sort_label_text() =~= seq!['I', 'm', 'a', 'g', 'e'],
        Column::Cpu.sort_label_text() =~= seq!['C', 'P', 'U'],
        Column::Memory.sort_label_text() =~= seq!['M', 'e', 'm', 'o', 'r', 'y'],
        Column::Pids.sort_label_text() =~= seq!['P', 'I', 'D', 's'],
        Column::NetTx.sort_label_text() =~= seq!['N', 'e', 't', ' ', 'T', 'X'],
        Column::NetRx.sort_label_text() =~= seq!['N', 'e', 't', ' ', 'R', 'X'],
        Column::DiskRead.sort_label_text() =~= seq!['D', 'i', 's', 'k', ' ', 'R', 'e', 'a', 'd'],
        Column::DiskWrite.sort_label_text() =~= seq![
            'D',
            'i',
            's',
            'k',
            ' ',
            'W',
            'r',
            'i',
            't',
            'e',
        ],
        Column::Uptime.sort_label_text() =~= seq!['U', 'p', 't', 'i', 'm', 'e'],
        Column::Restarts.sort_label_text() =~= seq!['R', 'e', 's', 't', 'a', 'r', 't', 's'],
{
    reveal_strlit("Status");
    reveal_strlit("Name");
    reveal_strlit("ID");
    reveal_strlit("Host");
    reveal_strlit("Compose");
    reveal_strlit("Image");
    reveal_strlit("CPU");
    reveal_strlit("Memory");
    reveal_strlit("PIDs");
    reveal_strlit("Net TX");
    reveal_strlit("Net RX");
    reveal_strlit("Disk Read");
    reveal_strlit("Disk Write");
    reveal_strlit("Uptime");
    reveal_strlit("Restarts");
}

/// The identifier of a column is its label in the sort selector in lower case, with
/// underscores for spaces.
pub proof fn law_ids_are_labels_in_lower_case(c: Column)
    ensures
        c.id_text().len() == c.sort_label_text().len(),
        forall|i: int|
            0 <= i < c.id_text().len() ==> #[trigger] c.id_text()[i] == if c.sort_label_text()[i]
                == ' ' {
                '_'
            } else {
                outside::lowercase(c.sort_label_text())[i]
            },
{
    reveal_ids();
    reveal_sort_labels();
    let id = c.id_text();
    let label = c.sort_label_text();
    assert(outside::ascii(label));
    assert forall|i: int| 0 <= i < id.len() implies #[trigger] id[i] == if label[i] == ' ' {
        '_'
    } else {
        outside::lowercase(label)[i]
    } by {
        assert(label[i] == label[i]);
    }
}

/// The label of a column begins with its label in the sort selector, or is short
/// for it.
pub proof fn law_labels_agree(c: Column)
    ensures
        text::begins_with(c.label_text(), c.sort_label_text()) || text::begins_with(
            c.sort_label_text(),
            c.label_text(),
        ),
        c == Column::DiskRead || c == Column::DiskWrite ==> c.label_text()
            == c.sort_label_text().take(6),
        c == Column::Cpu || c == Column::Memory ==> c.label_text() == c.sort_label_text() + seq![
            ' ',
            '%',
        ],
        c == Column::Status ==> c.label_text() == c.sort_label_text() + seq![
            ' ',
            'I',
            'c',
            'o',
            'n',
        ],
        c != Column::DiskRead && c != Column::DiskWrite && c != Column::Cpu && c != Column::Memory
            && c != Column::Status ==> c.label_text() == c.sort_label_text(),
{
    reveal_sort_labels();
    reveal_strlit("Status Icon");
    reveal_strlit("Name");
    reveal_strlit("ID");
    reveal_strlit("Host");
    reveal_strlit("Compose");
    reveal_strlit("Image");
    reveal_strlit("CPU %");
    reveal_strlit("Memory %");
    reveal_strlit("PIDs");
    reveal_strlit("Net TX");
    reveal_strlit("Net RX");
    reveal_strlit("Disk R");
    reveal_strlit("Disk W");
    reveal_strlit("Uptime");
    reveal_strlit("Restarts");
    let label = c.label_text();
    let sort = c.sort_label_text();
    if c == Column::DiskRead || c == Column::DiskWrite {
        assert(sort.subrange(0, label.len() as int) =~= label);
        assert(sort.take(6) =~= label);
    } else {
        if c == Column::Cpu || c == Column::Memory {
            assert(label =~= sort + seq![' ', '%']);
        }
        if c == Column::Status {
            assert(label =~= sort + seq![' ', 'I', 'c', 'o', 'n']);
        }
        assert(label.subrange(0, sort.len() as int) =~= sort);
    }
}

/// A sort field is named by its column's identifier, and the uptime, the name, the
/// CPU and the memory also by the first letter of it, the memory by the first three
/// too. Nothing else names a column.
pub proof fn law_sort_names(s: Seq<char>, c: Column)
    ensures
        column_with_sort_name(s) == Some(c) ==> text::begins_with(c.id_text(), s),
        column_with_sort_name(s) == Some(c) && s.len() < c.id_text().len() ==> c == Column::Uptime
            || c == Column::Name || c == Column::Cpu || c == Column::Memory,
        (c == Column::Uptime || c == Column::Name || c == Column::Cpu || c == Column::Memory) && s
            == c.id_text().take(1) ==> column_with_sort_name(s) == Some(c),
        c == Column::Memory && s == c.id_text().take(3) ==> column_with_sort_name(s) == Some(c),
        s == c.id_text() ==> column_with_sort_name(s) == Some(c),
{
    reveal_ids();
    reveal_strlit("u");
    reveal_strlit("n");
    reveal_strlit("c");
    reveal_strlit("m");
    reveal_strlit("mem");
    assert("u"@ =~= seq!['u']);
    assert("n"@ =~= seq!['n']);
    assert("c"@ =~= seq!['c']);
    assert("m"@ =~= seq!['m']);
    assert("mem"@ =~= seq!['m', 'e', 'm']);
    assert(Column::Uptime.id_text().take(1) =~= "u"@);
    assert(Column::Name.id_text().take(1) =~= "n"@);
    assert(Column::Cpu.id_text().take(1) =~= "c"@);
    assert(Column::Memory.id_text().take(1) =~= "m"@);
    assert(Column::Memory.id_text().take(3) =~= "mem"@);
    assert(seq!['u'][0] == 'u' && seq!['n'][0] == 'n');
    assert(seq!['c'][0] == 'c' && seq!['m'][0] == 'm');
    law_id_reads_back(c);
    if s == c.id_text() {
        assert(s[1] == c.id_text()[1]);
        if s.len() == 3 {
            assert(s[0] == 'c');
            assert("mem"@[0] == 'm');
        }
    }
    if column_with_sort_name(s) == Some(c) {
        let id = c.id_text();
        assert(s.len() <= id.len());
        assert(s =~= id.take(s.len() as int));
        assert(id.subrange(0, s.len() as int) =~= s);
    }
}

/// Unless the user says otherwise, the list shows the ID, the status, the name, the
/// host, the CPU, the memory, what goes over the network and the uptime.
pub proof fn law_columns_shown_by_default()
    ensures
        shown(default_columns()) == seq![
            Column::Id,
            Column::Status,
            Column::Name,
            Column::Host,
            Column::Cpu,
            Column::Memory,
            Column::NetTx,
            Column::NetRx,
            Column::Uptime,
        ],
        columns_of(default_columns()) == default_order(),
{
    let all = default_columns();
    assert(columns_of(all) =~= default_order());
    let a = seq![(Column::Id, true), (Column::Status, true), (Column::Name, true), (
        Column::Host,
        true,
    )];
    let b = seq![(Column::Compose, false), (Column::Image, false)];
    let c = seq![(Column::Cpu, true), (Column::Memory, true)];
    let d = seq![(Column::Pids, false)];
    let e = seq![(Column::NetTx, true), (Column::NetRx, true)];
    let f = seq![(Column::DiskRead, false), (Column::DiskWrite, false)];
    let g = seq![(Column::Uptime, true)];
    let h = seq![(Column::Restarts, false)];
    assert(all =~= a + b + c + d + e + f + g + h);
    lemma_shown_concat(a + b + c + d + e + f + g, h);
    lemma_shown_concat(a + b + c + d + e + f, g);
    lemma_shown_concat(a + b + c + d + e, f);
    lemma_shown_concat(a + b + c + d, e);
    lemma_shown_concat(a + b + c, d);
    lemma_shown_concat(a + b, c);
    lemma_shown_concat(a, b);
    lemma_shown_all(seq![Column::Id, Column::Status, Column::Name, Column::Host]);
    lemma_shown_all(seq![Column::Cpu, Column::Memory]);
    lemma_shown_all(seq![Column::NetTx, Column::NetRx]);
    lemma_shown_all(seq![Column::Uptime]);
    assert(a =~= seq![Column::Id, Column::Status, Column::Name, Column::Host].map_values(
        |c: Column| (c, true),
    ));
    assert(c =~= seq![Column::Cpu, Column::Memory].map_values(|c: Column| (c, true)));
    assert(e =~= seq![Column::NetTx, Column::NetRx].map_values(|c: Column| (c, true)));
    assert(g =~= seq![Column::Uptime].map_values(|c: Column| (c, true)));
    lemma_shown_none(b);
    lemma_shown_none(d);
    lemma_shown_none(f);
    lemma_shown_none(h);
    assert(shown(all) =~= seq![
        Column::Id,
        Column::Status,
        Column::Name,
        Column::Host,
        Column::Cpu,
        Column::Memory,
        Column::NetTx,
        Column::NetRx,
        Column::Uptime,
    ]);
}

/// Nothing is shown of a list whose columns are all hidden.
proof fn lemma_shown_none(columns: Seq<(Column, bool)>)
    requires
        forall|i: int| 0 <= i < columns.len() ==> !(#[trigger] columns[i]).1,
    ensures
        shown(columns) == Seq::<Column>::empty(),
    decreases columns.len(),
{
    if columns.len() > 0 {
        assert(!columns[columns.len() - 1].1);
        lemma_shown_none(columns.drop_last());
    }
}

/// Of a list in two parts the shown columns are those of the first and then those
/// of the second. A column that is shown is among them, one that is hidden is not.
pub proof fn law_shown_columns_keep_their_order(
    first: Seq<(Column, bool)>,
    second: Seq<(Column, bool)>,
    c: Column,
)
    ensures
        shown(first + second) == shown(first) + shown(second),
        shown(seq![(c, true)]) == seq![c],
        shown(seq![(c, false)]).len() == 0,
{
    lemma_shown_concat(first, second);
    lemma_shown_all(seq![c]);
    assert(seq![(c, true)] =~= seq![c].map_values(|c: Column| (c, true)));
    lemma_shown_none(seq![(c, false)]);
}

/// A toggle shows or hides the column of its entry, unless that is the name, and
/// leaves every other entry and the order as they were.
pub proof fn law_toggle_changes_one_entry(config: ColumnConfig, index: int, j: int)
    requires
        0 <= j < config.columns@.len(),
    ensures
        config.toggled(index).len() == config.columns@.len(),
        config.toggled(index)[j].0 == config.columns@[j].0,
        j != index ==> config.toggled(index)[j].1 == config.columns@[j].1,
        j == index && config.columns@[j].0 != Column::Name ==> config.toggled(index)[j].1
            != config.columns@[j].1,
        config.columns@[j].0 == Column::Name ==> config.toggled(index)[j].1 == config.columns@[j].1,
{
}

/// A move exchanges an entry with its neighbour above or below, if it has one, and
/// leaves all others in their places.
pub proof fn law_moves_exchange_neighbours(config: ColumnConfig, index: int, j: int)
    requires
        0 <= j < config.columns@.len(),
    ensures
        ({
            let s = config.columns@;
            let up = config.moved_up(index);
            let down = config.moved_down(index);
            &&& up.len() == s.len()
            &&& down.len() == s.len()
            &&& 0 < index < s.len() ==> up[index - 1] == s[index] && up[index] == s[index - 1]
            &&& 0 <= index < s.len() - 1 ==> down[index + 1] == s[index] && down[index] == s[index
                + 1]
            &&& j != index && j != index - 1 ==> up[j] == s[j]
            &&& j != index && j != index + 1 ==> down[j] == s[j]
            &&& index <= 0 || index >= s.len() ==> up == s
            &&& index < 0 || index >= s.len() - 1 ==> down == s
        }),
{
}

/// Exactly the columns whose identifiers are in a list are named by it, each once.
pub proof fn law_lists_of_ids_name_columns(ids: Seq<Seq<char>>)
    ensures
        named_columns(ids).no_duplicates(),
        forall|c: Column| #[trigger]
            named_columns(ids).contains(c) <==> ids.contains(c.id_text()),
    decreases ids.len(),
{
    if ids.len() > 0 {
        let rest = ids.drop_last();
        let last = ids.last();
        let before = named_columns(rest);
        let named = named_columns(ids);
        law_lists_of_ids_name_columns(rest);
        lemma_named_columns_distinct(ids);
        assert(ids =~= rest.push(last));
        assert forall|c: Column| #[trigger] named.contains(c) <==> ids.contains(c.id_text()) by {
            law_id_reads_back(c);
            if before.contains(c) {
                let k = rest.index_of(c.id_text());
                assert(ids[k] == c.id_text());
                assert(named[before.index_of(c)] == c);
            }
            if c.id_text() == last {
                assert(ids[ids.len() - 1] == last);
                assert(column_with_id(last) == Some(c));
                if !before.contains(c) {
                    assert(named[named.len() - 1] == c);
                }
            }
            if ids.contains(c.id_text()) && c.id_text() != last {
                assert(rest[ids.index_of(c.id_text())] == c.id_text());
            }
            if named.contains(c) && !before.contains(c) {
                let k = named.index_of(c);
                if k < before.len() {
                    assert(before[k] == c);
                }
                assert(column_with_id(last) == Some(c));
                assert(c.id_text() == last);
            }
        }
    }
}

/// Of two columns that a list of identifiers names, the first has its identifier in
/// the list before any of the second's.
pub proof fn law_named_columns_come_in_order(ids: Seq<Seq<char>>, i: int, j: int, q: int)
    requires
        0 <= i < j < named_columns(ids).len(),
        0 <= q < ids.len(),
        ids[q] == named_columns(ids)[j].id_text(),
    ensures
        exists|p: int| 0 <= p < q && #[trigger] ids[p] == named_columns(ids)[i].id_text(),
    decreases ids.len(),
{
    let rest = ids.drop_last();
    let before = named_columns(rest);
    let named = named_columns(ids);
    law_lists_of_ids_name_columns(rest);
    assert(i < before.len());
    assert(named[i] == before[i]);
    assert(before.contains(before[i]));
    if q < rest.len() {
        assert(rest[q] == ids[q]);
        assert(rest.contains(named[j].id_text()));
        assert(before.contains(named[j]));
        assert(j < before.len());
        assert(before[j] == named[j]);
        law_named_columns_come_in_order(rest, i, j, q);
        let p = choose|p: int| 0 <= p < q && #[trigger] rest[p] == before[i].id_text();
        assert(ids[p] == rest[p]);
    } else {
        let p = rest.index_of(before[i].id_text());
        assert(ids[p] == before[i].id_text());
    }
}

/// A configuration that a list of identifiers describes begins with the named
/// columns, shown; then come all others, hidden and in their default order.
pub proof fn law_other_columns_follow_hidden(named: Seq<Column>, i: int, j: int)
    requires
        named.no_duplicates(),
        0 <= i < j < config_showing(named).len(),
    ensures
        config_showing(named).len() == default_order().len(),
        i < named.len() ==> config_showing(named)[i] == (named[i], true),
        i >= named.len() ==> {
            &&& !config_showing(named)[i].1
            &&& !named.contains(config_showing(named)[i].0)
            &&& default_order().index_of(config_showing(named)[i].0) < default_order().index_of(
                config_showing(named)[j].0,
            )
        },
{
    law_default_order_is_complete(Column::Name);
    lemma_unnamed_columns(default_order(), named);
    lemma_unnamed_columns_in_order(default_order(), named);
    let hidden = unnamed_columns(default_order(), named);
    let all = config_showing(named);
    let list = columns_of(all);
    assert(list =~= named + columns_of(hidden));
    lemma_showing_is_complete(named);
    if i >= named.len() {
        assert(all[i] == hidden[i - named.len()]);
        assert(all[j] == hidden[j - named.len()]);
        assert(columns_of(hidden)[i - named.len()] == all[i].0);
        assert(columns_of(hidden).contains(all[i].0));
    }
}

/// A configuration that shows distinct columns is as long as the default order.
proof fn lemma_showing_is_complete(named: Seq<Column>)
    requires
        named.no_duplicates(),
    ensures
        config_showing(named).len() == default_order().len(),
{
    law_default_order_is_complete(Column::Name);
    lemma_unnamed_columns(default_order(), named);
    let hidden = columns_of(unnamed_columns(default_order(), named));
    let list = named + hidden;
    let all = default_order();
    assert forall|i: int, j: int| 0 <= i < j < list.len() implies list[i] != list[j] by {
        if i < named.len() && j >= named.len() {
            assert(hidden[j - named.len()] == list[j]);
            assert(hidden.contains(list[j]));
            assert(named.contains(list[i]));
        }
    }
    assert(list.no_duplicates());
    list.unique_seq_to_set();
    all.unique_seq_to_set();
    assert forall|c: Column| list.to_set().contains(c) == all.to_set().contains(c) by {
        law_default_order_is_complete(c);
        if named.contains(c) {
            assert(list[named.index_of(c)] == c);
        } else {
            assert(hidden.contains(c));
            assert(list[named.len() + hidden.index_of(c)] == c);
        }
    }
    assert(list.to_set() =~= all.to_set());
}

/// The hidden part of a configuration keeps the order of the list, and hides.
proof fn lemma_unnamed_columns_in_order(columns: Seq<Column>, named: Seq<Column>)
    requires
        columns.no_duplicates(),
    ensures
        forall|i: int|
            0 <= i < unnamed_columns(columns, named).len() ==> {
                &&& !(#[trigger] unnamed_columns(columns, named)[i]).1
                &&& columns.contains(unnamed_columns(columns, named)[i].0)
            },
        forall|i: int, j: int|
            0 <= i < j < unnamed_columns(columns, named).len() ==> columns.index_of(
                (#[trigger] unnamed_columns(columns, named)[i]).0,
            ) < columns.index_of((#[trigger] unnamed_columns(columns, named)[j]).0),
    decreases columns.len(),
{
    if columns.len() > 0 {
        let rest = columns.drop_last();
        let last = columns.last();
        let before = unnamed_columns(rest, named);
        let all = unnamed_columns(columns, named);
        lemma_unnamed_columns_in_order(rest, named);
        assert(columns[columns.len() - 1] == last);
        assert forall|i: int| 0 <= i < before.len() implies {
            &&& columns.contains((#[trigger] before[i]).0)
            &&& columns.index_of(before[i].0) == rest.index_of(before[i].0)
            &&& columns.index_of(before[i].0) < columns.len() - 1
        } by {
            let k = rest.index_of(before[i].0);
            assert(rest[k] == before[i].0);
            assert(columns[k] == before[i].0);
            let m = columns.index_of(before[i].0);
            assert(columns[m] == columns[k]);
        }
        assert(columns.index_of(last) == columns.len() - 1) by {
            let m = columns.index_of(last);
            assert(columns[m] == columns[columns.len() - 1]);
        }
        assert forall|i: int| 0 <= i < all.len() implies {
            &&& !(#[trigger] all[i]).1
            &&& columns.contains(all[i].0)
        } by {
            if i < before.len() {
                assert(all[i] == before[i]);
            }
        }
        assert forall|i: int, j: int| 0 <= i < j < all.len() implies columns.index_of(
            (#[trigger] all[i]).0,
        ) < columns.index_of((#[trigger] all[j]).0) by {
            assert(all[i] == before[i]);
            if j < before.len() {
                assert(all[j] == before[j]);
            }
        }
    }
}

/// The two directions have symbols of their own: a triangle that points up, and one
/// that points down.
pub proof fn law_symbols_point_the_way(d: SortDirection)
    ensures
        d.symbol_text().len() == 1,
        d == SortDirection::Ascending <==> d.symbol_text()[0] as int == 0x25b2,
        d == SortDirection::Descending <==> d.symbol_text()[0] as int == 0x25bc,
{
    reveal_strlit("▲");
    reveal_strlit("▼");
}

} // verus!
