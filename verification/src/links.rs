//! The links to Dozzle, laid over the names in the container list.
use crate::app_state::{position_of, AppState, ContainerMap};
use crate::clip;
use crate::clip::clip_to_width;
use crate::columns;
use crate::columns::Column;
use crate::containers::{Container, ContainerKey};
use crate::list;
use crate::list::table_columns;
use crate::outside;
use crate::outside::{split_row, Area, ColumnSpan, ColumnWidth};
use crate::text;
use crate::text::trim_end_of;
use vstd::prelude::*;
use vstd::string::*;

verus! {

/// `Table`'s default `column_spacing`. Mirrored here so hyperlink overlays land
/// on the same x-offsets the table computed.
pub const COLUMN_SPACING: u16 = 1;

/// Rows the table's vertical layout consumes before the first data row: the
/// header row plus its bottom margin.
pub const HEADER_ROWS: u16 = 2;

/// A link over the name of a container.
#[derive(Debug)]
pub struct Link {
    pub label: String,
    pub url: String,
    pub x: u16,
    pub y: u16,
    /// The columns that the label takes
    pub width: u16,
}

/// What a link is.
pub struct LinkText {
    pub label: Seq<char>,
    pub url: Seq<char>,
    pub x: int,
    pub y: int,
    pub width: int,
}

impl View for Link {
    type V = LinkText;

    open spec fn view(&self) -> LinkText {
        LinkText {
            label: self.label@,
            url: self.url@,
            x: self.x as int,
            y: self.y as int,
            width: self.width as int,
        }
    }
}

/// The address of a container in Dozzle.
pub open spec fn dozzle_address(dozzle_url: Seq<char>, container_id: Seq<char>) -> Seq<char> {
    text::without_trailing(dozzle_url, '/') + "/container/"@ + container_id
}

/// The link over the name in a row of the table, if the container is known, its
/// host has a Dozzle URL, and something of the name is on screen.
pub open spec fn link_in_row(
    containers: Map<(Seq<char>, Seq<char>), Container>,
    key: ContainerKey,
    table_area: Area,
    name_span: ColumnSpan,
    row: int,
) -> Option<LinkText> {
    if !containers.contains_key(key@) {
        None
    } else {
        let container = containers[key@];
        match container.dozzle_url {
            Some(dozzle_url) => {
                let label = clip::clipped(container.name@, name_span.width as int);
                let width = clip::total(clip::widths_of(label));
                if width == 0 {
                    None
                } else {
                    Some(
                        LinkText {
                            label,
                            url: dozzle_address(dozzle_url@, key.container_id@),
                            x: table_area.x + name_span.x,
                            y: table_area.y + HEADER_ROWS + row,
                            width: width as int,
                        },
                    )
                }
            },
            None => None,
        }
    }
}

/// The links over the names in the first rows of the table, from the container at
/// `offset` on.
pub open spec fn links_in_rows(
    containers: Map<(Seq<char>, Seq<char>), Container>,
    keys: Seq<ContainerKey>,
    offset: int,
    table_area: Area,
    name_span: ColumnSpan,
    rows: int,
) -> Seq<LinkText>
    decreases rows,
{
    if rows <= 0 {
        Seq::empty()
    } else {
        let front = links_in_rows(containers, keys, offset, table_area, name_span, rows - 1);
        match link_in_row(containers, keys[offset + rows - 1], table_area, name_span, rows - 1) {
            Some(link) => front.push(link),
            None => front,
        }
    }
}

/// How many rows of the table hold a container.
pub open spec fn rows_in_use(count: int, offset: int, table_area: Area) -> int {
    let room = table_area.height - HEADER_ROWS;
    if offset >= count || room <= 0 {
        0
    } else if count - offset <= room {
        count - offset
    } else {
        room
    }
}

/// The links over the names, given where the name column is.
pub open spec fn links_over(
    containers: Map<(Seq<char>, Seq<char>), Container>,
    keys: Seq<ContainerKey>,
    offset: int,
    table_area: Area,
    name_span: ColumnSpan,
) -> Seq<LinkText> {
    if table_area.width == 0 || name_span.width == 0 {
        Seq::empty()
    } else {
        links_in_rows(
            containers,
            keys,
            offset,
            table_area,
            name_span,
            rows_in_use(keys.len() as int, offset, table_area),
        )
    }
}

/// What some links are.
pub open spec fn link_texts(links: Seq<Link>) -> Seq<LinkText> {
    links.map_values(|link: Link| link@)
}

/// The link over the name in a row of the table.
fn link_for(
    containers: &ContainerMap,
    key: &ContainerKey,
    table_area: Area,
    name_span: ColumnSpan,
    row: u16,
) -> (r: Option<Link>)
    requires
        containers.wf(),
        table_area.x + name_span.x <= u16::MAX,
        table_area.y + HEADER_ROWS + row <= u16::MAX,
    ensures
        match r {
            Some(link) => link_in_row(containers@, *key, table_area, name_span, row as int) == Some(
                link@,
            ),
            None => link_in_row(containers@, *key, table_area, name_span, row as int) is None,
        },
{
    match containers.get(key) {
        Some(container) => match &container.dozzle_url {
            Some(dozzle_url) => {
                // Clip exactly like a cell does, so a linked name truncates the
                // same way an unlinked one does.
                let (label, width) = clip_to_width(container.name.as_str(), name_span.width);
                if width == 0 {
                    None
                } else {
                    let mut url = trim_end_of(dozzle_url.as_str(), '/').to_owned();
                    url.append("/container/");
                    url.append(key.container_id.as_str());
                    Some(
                        Link {
                            label: label.to_owned(),
                            url,
                            x: table_area.x + name_span.x,
                            y: table_area.y + HEADER_ROWS + row,
                            width,
                        },
                    )
                }
            },
            None => None,
        },
        None => None,
    }
}

/// The links over the names of the containers whose host has a Dozzle URL, given
/// where the name column is.
pub fn place_links(
    containers: &ContainerMap,
    sorted_keys: &Vec<ContainerKey>,
    offset: usize,
    table_area: Area,
    name_span: ColumnSpan,
) -> (r: Vec<Link>)
    requires
        containers.wf(),
        table_area.fits(),
        name_span.x + name_span.width <= table_area.width,
    ensures
        link_texts(r@) == links_over(
            containers@,
            sorted_keys@,
            offset as int,
            table_area,
            name_span,
        ),
{
    let mut links: Vec<Link> = Vec::new();
    assert(link_texts(links@) =~= Seq::<LinkText>::empty());
    if table_area.height <= HEADER_ROWS || table_area.width == 0 || name_span.width == 0 {
        return links;
    }
    let count: usize = sorted_keys.len();
    let room: u16 = table_area.height - HEADER_ROWS;
    let mut row: u16 = 0;
    while row < room && offset < count && (row as usize) < count - offset
        invariant
            containers.wf(),
            table_area.fits(),
            name_span.x + name_span.width <= table_area.width,
            count == sorted_keys@.len(),
            room == table_area.height - HEADER_ROWS,
            row <= rows_in_use(count as int, offset as int, table_area),
            link_texts(links@) == links_in_rows(
                containers@,
                sorted_keys@,
                offset as int,
                table_area,
                name_span,
                row as int,
            ),
        decreases room - row,
    {
        let key = &sorted_keys[offset + row as usize];
        let link = link_for(containers, key, table_area, name_span, row);
        if let Some(link) = link {
            let ghost before = links@;
            links.push(link);
            assert(link_texts(links@) =~= link_texts(before).push(link@));
        }
        row = row + 1;
    }
    links
}

impl AppState {
    /// Where the name column stands among the columns of the table.
    pub open spec fn name_index(self, show_host_column: bool) -> Option<int> {
        list::table_columns_of(self.visible_columns_cache@, show_host_column).index_of_first(Column::Name)
    }

    /// The links over the names, given the spans of the table's columns. Without a
    /// name column, or without a span for it, there are none.
    pub open spec fn links_for(
        self,
        table_area: Area,
        spans: Seq<ColumnSpan>,
        show_host_column: bool,
    ) -> Seq<LinkText> {
        match self.name_index(show_host_column) {
            Some(i) => if i < spans.len() {
                links_over(
                    self.containers@,
                    self.sorted_container_keys@,
                    self.table_state.offset as int,
                    table_area,
                    spans[i],
                )
            } else {
                Seq::empty()
            },
            None => Seq::empty(),
        }
    }

    /// The links over the names of the containers whose host has a Dozzle URL, given
    /// the spans of the table's columns.
    pub fn links_at(
        &self,
        table_area: Area,
        spans: &Vec<ColumnSpan>,
        show_host_column: bool,
    ) -> (r: Vec<Link>)
        requires
            self.containers.wf(),
            table_area.fits(),
            forall|i: int|
                0 <= i < spans@.len() ==> (#[trigger] spans@[i]).x + spans@[i].width
                    <= table_area.width,
        ensures
            link_texts(r@) == self.links_for(table_area, spans@, show_host_column),
    {
        let columns = table_columns(&self.visible_columns_cache, show_host_column);
        if let Some(index) = position_of(&columns, Column::Name) {
            if index < spans.len() {
                return place_links(
                    &self.containers,
                    &self.sorted_container_keys,
                    self.table_state.offset,
                    table_area,
                    spans[index],
                );
            }
        }
        let links: Vec<Link> = Vec::new();
        assert(link_texts(links@) =~= Seq::<LinkText>::empty());
        links
    }

    /// The links over the names of the containers whose host has a Dozzle URL, laid
    /// over the table that was drawn last, if the terminal shows hyperlinks. They
    /// are where the layout of the table has the name column.
    pub fn dozzle_links(
        &self,
        table_area: Area,
        widths: &Vec<ColumnWidth>,
        show_host_column: bool,
        hyperlinks: bool,
    ) -> (r: Vec<Link>)
        requires
            self.containers.wf(),
            table_area.fits(),
        ensures
            !hyperlinks ==> r@.len() == 0,
            hyperlinks ==> exists|spans: Seq<ColumnSpan>| #[trigger]
                outside::laid_out(
                    spans,
                    widths@,
                    COLUMN_SPACING as int,
                    table_area.width as int,
                ) && link_texts(r@) == self.links_for(table_area, spans, show_host_column),
    {
        if !hyperlinks {
            return Vec::new();
        }
        let spans = split_row(widths, COLUMN_SPACING, table_area.width);
        self.links_at(table_area, &spans, show_host_column)
    }
}

/// Where the columns of a row have room, there is one way to lay them out, so the
/// links over the names are fixed too.
pub proof fn law_layout_is_unique(
    widths: Seq<ColumnWidth>,
    spacing: int,
    total: int,
    spans: Seq<ColumnSpan>,
    others: Seq<ColumnSpan>,
)
    requires
        outside::has_room(widths, spacing, total),
        outside::laid_out(spans, widths, spacing, total),
        outside::laid_out(others, widths, spacing, total),
    ensures
        spans == others,
{
    assert forall|i: int| 0 <= i < spans.len() implies spans[i] == others[i] by {
        lemma_same_span(widths, spacing, total, spans, others, i);
    }
    assert(spans =~= others);
}

/// Two layouts of a row with room agree on every column.
proof fn lemma_same_span(
    widths: Seq<ColumnWidth>,
    spacing: int,
    total: int,
    spans: Seq<ColumnSpan>,
    others: Seq<ColumnSpan>,
    i: int,
)
    requires
        outside::has_room(widths, spacing, total),
        outside::laid_out(spans, widths, spacing, total),
        outside::laid_out(others, widths, spacing, total),
        0 <= i < spans.len(),
    ensures
        spans[i] == others[i],
    decreases i,
{
    assert(outside::follows(spans, spacing, i));
    assert(outside::follows(others, spacing, i));
    assert(spans[i].width == others[i].width);
    if i > 0 {
        lemma_same_span(widths, spacing, total, spans, others, i - 1);
    }
}

/// Up to the column that asks for what is left, the columns of a row with room
/// begin where those before them end with what they ask for.
proof fn lemma_columns_before_the_minimum(
    spans: Seq<ColumnSpan>,
    widths: Seq<ColumnWidth>,
    spacing: int,
    total: int,
    min: int,
    i: int,
)
    requires
        outside::laid_out(spans, widths, spacing, total),
        outside::has_room(widths, spacing, total),
        0 <= i <= min < widths.len(),
        widths[min] is Min,
    ensures
        spans[i].x == outside::asked_before(widths, spacing, i),
    decreases i,
{
    assert(outside::follows(spans, spacing, i));
    if i > 0 {
        lemma_columns_before_the_minimum(spans, widths, spacing, total, min, i - 1);
        assert(!(widths[i - 1] is Min && widths[min] is Min));
        assert(spans[i - 1].width == outside::asked(widths[i - 1]));
    }
}

/// Columns without duplicates are no more than there are.
proof fn lemma_distinct_columns_are_few(list: Seq<Column>)
    requires
        list.no_duplicates(),
    ensures
        list.len() <= outside::MAX_ROW_COLUMNS,
{
    let all = columns::default_order();
    list.unique_seq_to_set();
    assert forall|c: Column| #[trigger] list.to_set().contains(c) implies all.to_set().contains(
        c,
    ) by {
        columns::law_default_order_is_complete(c);
    }
    all.lemma_cardinality_of_set();
    vstd::set_lib::lemma_len_subset(list.to_set(), all.to_set());
}

/// The widths that the columns of a table ask for.
pub open spec fn widths_asked(columns: Seq<Column>, show_progress_bars: bool) -> Seq<ColumnWidth> {
    columns.map_values(|column: Column| list::width_of(column, show_progress_bars))
}

/// Only the name column of a table asks for what is left, and there are no more
/// columns than a row shares out in a stated way.
proof fn lemma_only_names_take_what_is_left(columns: Seq<Column>, show_progress_bars: bool)
    requires
        columns.no_duplicates(),
    ensures
        columns.len() <= outside::MAX_ROW_COLUMNS,
        forall|a: int, b: int|
            0 <= a < b < columns.len() ==> !((#[trigger] widths_asked(
                columns,
                show_progress_bars,
            )[a]) is Min && (#[trigger] widths_asked(columns, show_progress_bars)[b]) is Min),
        forall|a: int|
            0 <= a < columns.len() ==> ((#[trigger] widths_asked(columns, show_progress_bars)[a])
                matches ColumnWidth::Min(n) ==> n == 8),
{
    lemma_distinct_columns_are_few(columns);
    let widths = widths_asked(columns, show_progress_bars);
    assert forall|a: int, b: int| 0 <= a < b < widths.len() implies !((
    #[trigger] widths[a]) is Min && (#[trigger] widths[b]) is Min) by {
        assert(columns[a] != columns[b]);
    }
}

/// Where the columns of the table have room, the name column begins right after
/// what the columns before it ask for and the spacing between them, and it gets
/// what the others leave. A link over a name begins there, and is as wide as what
/// of the name fits.
pub proof fn law_links_begin_where_names_do(
    columns: Seq<Column>,
    show_progress_bars: bool,
    table_area: Area,
    spans: Seq<ColumnSpan>,
    containers: Map<(Seq<char>, Seq<char>), Container>,
    key: ContainerKey,
    row: int,
    i: int,
)
    requires
        columns.no_duplicates(),
        0 <= i < columns.len(),
        columns[i] == Column::Name,
        outside::left_over(
            widths_asked(columns, show_progress_bars),
            COLUMN_SPACING as int,
            table_area.width as int,
        ) >= 0,
        outside::laid_out(
            spans,
            widths_asked(columns, show_progress_bars),
            COLUMN_SPACING as int,
            table_area.width as int,
        ),
    ensures
        ({
            let widths = widths_asked(columns, show_progress_bars);
            let left = outside::asked_before(widths, COLUMN_SPACING as int, i);
            let width = 8 + outside::left_over(
                widths,
                COLUMN_SPACING as int,
                table_area.width as int,
            );
            &&& spans[i].x == left
            &&& spans[i].width == width
            &&& link_in_row(containers, key, table_area, spans[i], row) matches Some(link) ==> {
                &&& link.x == table_area.x + left
                &&& link.label == clip::clipped(containers[key@].name@, width)
            }
        }),
{
    let widths = widths_asked(columns, show_progress_bars);
    let spacing = COLUMN_SPACING as int;
    let total = table_area.width as int;
    lemma_only_names_take_what_is_left(columns, show_progress_bars);
    assert(outside::has_room(widths, spacing, total));
    assert(widths[i] == ColumnWidth::Min(8));
    lemma_columns_before_the_minimum(spans, widths, spacing, total, i, i);
}

/// Whether the rows of a table are too narrow for its name column and the spacing.
pub open spec fn too_narrow_for_names(columns: Seq<Column>, table_area: Area) -> bool {
    table_area.width < 8 + COLUMN_SPACING * (columns.len() - 1)
}

/// Whether the links over the names in the first rows of the table are among
/// `links`, and these hold no others.
pub open spec fn links_are_those_of_rows(
    links: Seq<LinkText>,
    containers: Map<(Seq<char>, Seq<char>), Container>,
    keys: Seq<ContainerKey>,
    offset: int,
    table_area: Area,
    name_span: ColumnSpan,
    rows: int,
) -> bool {
    &&& forall|row: int| #[trigger]
        link_in_row(containers, keys[offset + row], table_area, name_span, row) is Some && 0 <= row
            < rows ==> links.contains(
            link_in_row(containers, keys[offset + row], table_area, name_span, row)->0,
        )
    &&& forall|link: LinkText| #[trigger]
        links.contains(link) ==> exists|row: int|
            0 <= row < rows && #[trigger] link_in_row(
                containers,
                keys[offset + row],
                table_area,
                name_span,
                row,
            ) == Some(link)
}

/// Unless the table is too narrow for its name column, that column keeps its 8
/// terminal columns, however little is left for the others, and gets what they
/// leave. Every container in view whose host has a Dozzle URL, and of whose name
/// something fits there, has a link with what fits; there are no other links.
pub proof fn law_every_name_in_view_is_linked(
    columns: Seq<Column>,
    show_progress_bars: bool,
    table_area: Area,
    spans: Seq<ColumnSpan>,
    containers: Map<(Seq<char>, Seq<char>), Container>,
    keys: Seq<ContainerKey>,
    offset: int,
    i: int,
)
    requires
        columns.no_duplicates(),
        0 <= i < columns.len(),
        columns[i] == Column::Name,
        !too_narrow_for_names(columns, table_area),
        outside::laid_out(
            spans,
            widths_asked(columns, show_progress_bars),
            COLUMN_SPACING as int,
            table_area.width as int,
        ),
    ensures
        spans[i].width == 8 + outside::floored(
            outside::left_over(
                widths_asked(columns, show_progress_bars),
                COLUMN_SPACING as int,
                table_area.width as int,
            ),
        ),
        links_are_those_of_rows(
            links_over(containers, keys, offset, table_area, spans[i]),
            containers,
            keys,
            offset,
            table_area,
            spans[i],
            rows_in_use(keys.len() as int, offset, table_area),
        ),
        forall|key: ContainerKey, row: int|
            (#[trigger] link_in_row(containers, key, table_area, spans[i], row)) is Some <==> {
                &&& containers.contains_key(key@)
                &&& containers[key@].dozzle_url is Some
                &&& clip::total(
                    clip::widths_of(
                        clip::clipped(containers[key@].name@, spans[i].width as int),
                    ),
                ) > 0
            },
{
    let widths = widths_asked(columns, show_progress_bars);
    let spacing = COLUMN_SPACING as int;
    let total = table_area.width as int;
    lemma_only_names_take_what_is_left(columns, show_progress_bars);
    assert(widths[i] == ColumnWidth::Min(8));
    assert(outside::has_room_for_minimum(widths, spacing, total));
    assert(spans[i].width == 8 + outside::floored(outside::left_over(widths, spacing, total)));
    let rows = rows_in_use(keys.len() as int, offset, table_area);
    lemma_links_of_rows(containers, keys, offset, table_area, spans[i], rows);
}

/// The links in some rows of the table are those of the rows, and no others.
proof fn lemma_links_of_rows(
    containers: Map<(Seq<char>, Seq<char>), Container>,
    keys: Seq<ContainerKey>,
    offset: int,
    table_area: Area,
    name_span: ColumnSpan,
    rows: int,
)
    ensures
        links_are_those_of_rows(
            links_in_rows(containers, keys, offset, table_area, name_span, rows),
            containers,
            keys,
            offset,
            table_area,
            name_span,
            rows,
        ),
    decreases rows,
{
    if rows > 0 {
        lemma_links_of_rows(containers, keys, offset, table_area, name_span, rows - 1);
        let front = links_in_rows(containers, keys, offset, table_area, name_span, rows - 1);
        let links = links_in_rows(containers, keys, offset, table_area, name_span, rows);
        let last = link_in_row(
            containers,
            keys[offset + (rows - 1)],
            table_area,
            name_span,
            rows - 1,
        );
        assert(links == match last {
            Some(link) => front.push(link),
            None => front,
        });
        assert forall|row: int| #[trigger]
            link_in_row(containers, keys[offset + row], table_area, name_span, row) is Some && 0
                <= row < rows implies links.contains(
            link_in_row(containers, keys[offset + row], table_area, name_span, row)->0,
        ) by {
            let link = link_in_row(containers, keys[offset + row], table_area, name_span, row)->0;
            if row < rows - 1 {
                assert(front.contains(link));
                assert(links[front.index_of(link)] == link);
            } else {
                assert(links[front.len() as int] == link);
            }
        }
        assert forall|link: LinkText| #[trigger] links.contains(link) implies exists|row: int|
            0 <= row < rows && #[trigger] link_in_row(
                containers,
                keys[offset + row],
                table_area,
                name_span,
                row,
            ) == Some(link) by {
            let k = links.index_of(link);
            if k < front.len() {
                assert(front[k] == link);
                assert(front.contains(link));
            } else {
                assert(last == Some(link));
            }
        }
    }
}

/// A slash more or less at the end of a Dozzle URL makes no difference.
pub proof fn law_trailing_slashes_do_not_matter(dozzle_url: Seq<char>, container_id: Seq<char>)
    ensures
        dozzle_address(dozzle_url.push('/'), container_id) == dozzle_address(
            dozzle_url,
            container_id,
        ),
{
    assert(dozzle_url.push('/').drop_last() =~= dozzle_url);
}

/// Every link is over the name column, on a row of the table below the header,
/// and no wider than the column. The links are on rows of their own, from the top
/// down.
pub proof fn law_links_are_over_names(
    containers: Map<(Seq<char>, Seq<char>), Container>,
    keys: Seq<ContainerKey>,
    offset: int,
    table_area: Area,
    name_span: ColumnSpan,
    rows: int,
)
    requires
        0 <= rows,
    ensures
        forall|i: int|
            0 <= i < links_in_rows(
                containers,
                keys,
                offset,
                table_area,
                name_span,
                rows,
            ).len() ==> {
                let link = #[trigger] links_in_rows(
                    containers,
                    keys,
                    offset,
                    table_area,
                    name_span,
                    rows,
                )[i];
                &&& link.x == table_area.x + name_span.x
                &&& 0 < link.width <= name_span.width
                &&& table_area.y + HEADER_ROWS <= link.y < table_area.y + HEADER_ROWS + rows
            },
        ({
            let links = links_in_rows(containers, keys, offset, table_area, name_span, rows);
            forall|i: int, j: int|
                0 <= i < j < links.len() ==> (#[trigger] links[i]).y < (#[trigger] links[j]).y
        }),
    decreases rows,
{
    if rows > 0 {
        law_links_are_over_names(containers, keys, offset, table_area, name_span, rows - 1);
        let key = keys[offset + rows - 1];
        let name = containers[key@].name@;
        let widths = clip::widths_of(name);
        clip::law_clipped_text_fits(widths, name_span.width as int);
        assert(clip::widths_of(clip::clipped(name, name_span.width as int)) =~= widths.take(
            clip::fitting(widths, name_span.width as int) as int,
        ));
        let front = links_in_rows(containers, keys, offset, table_area, name_span, rows - 1);
        let links = links_in_rows(containers, keys, offset, table_area, name_span, rows);
        assert forall|i: int| 0 <= i < links.len() implies {
            let link = #[trigger] links[i];
            &&& link.x == table_area.x + name_span.x
            &&& 0 < link.width <= name_span.width
            &&& table_area.y + HEADER_ROWS <= link.y < table_area.y + HEADER_ROWS + rows
        } by {
            if i < front.len() {
                assert(links[i] == front[i]);
            }
        }
        assert forall|i: int, j: int| 0 <= i < j < links.len() implies (#[trigger] links[i]).y < (
        #[trigger] links[j]).y by {
            assert(links[i] == front[i]);
            if j < front.len() {
                assert(links[j] == front[j]);
            }
        }
    }
}

/// The address of a container in Dozzle is the URL without slashes at its end, the
/// word for containers between slashes, and the container's ID.
pub proof fn law_dozzle_addresses(base: Seq<char>, slashes: Seq<char>, container_id: Seq<char>)
    requires
        base.len() > 0 ==> base.last() != '/',
        forall|i: int| 0 <= i < slashes.len() ==> #[trigger] slashes[i] == '/',
    ensures
        dozzle_address(base + slashes, container_id) == base + "/container/"@ + container_id,
{
    let url = base + slashes;
    let rest = text::without_trailing(url, '/');
    text::law_trailing_run_is_taken_away(url, '/');
    assert(rest.len() == base.len()) by {
        if rest.len() > base.len() {
            assert(slashes[rest.len() - base.len() - 1] == '/');
            assert(rest.last() == url[rest.len() - 1]);
        }
        if rest.len() < base.len() {
            assert(url[base.len() - 1] == '/');
        }
    }
    assert(rest =~= base);
}

/// Every row below the header that is on screen, and for which there is a
/// container in the list, has a link if the container is known, its host has a
/// Dozzle URL and something of its name fits: the first row has the container at
/// `offset`, and each row the one after that of the row above. The link is over
/// the name column, says as much of the name as fits and leads to the container in
/// Dozzle.
pub proof fn law_rows_on_screen_are_linked(
    containers: Map<(Seq<char>, Seq<char>), Container>,
    keys: Seq<ContainerKey>,
    offset: int,
    table_area: Area,
    name_span: ColumnSpan,
    row: int,
    n: int,
    base: Seq<char>,
    slashes: Seq<char>,
)
    requires
        0 <= offset,
        0 <= row,
        offset + row < keys.len(),
        table_area.y + 2 + row < table_area.y + table_area.height,
        0 < table_area.width,
        containers.contains_key(keys[offset + row]@),
        text::text_of(containers[keys[offset + row]@].dozzle_url) == Some(base + slashes),
        base.len() > 0 ==> base.last() != '/',
        forall|i: int| 0 <= i < slashes.len() ==> #[trigger] slashes[i] == '/',
        ({
            let name = containers[keys[offset + row]@].name@;
            &&& 0 <= n <= name.len()
            &&& 0 < clip::total(clip::widths_of(name.take(n))) <= name_span.width
            &&& n < name.len() ==> clip::total(clip::widths_of(name.take(n + 1))) > name_span.width
        }),
    ensures
        links_over(containers, keys, offset, table_area, name_span).contains(
            (LinkText {
                label: containers[keys[offset + row]@].name@.take(n),
                url: base + "/container/"@ + keys[offset + row].container_id@,
                x: table_area.x + name_span.x,
                y: table_area.y + 2 + row,
                width: clip::total(
                    clip::widths_of(containers[keys[offset + row]@].name@.take(n)),
                ) as int,
            }),
        ),
{
    let key = keys[offset + row];
    let name = containers[key@].name@;
    let rows = rows_in_use(keys.len() as int, offset, table_area);
    clip::law_text_is_cut_where_it_ceases_to_fit(name, n, name_span.width as int);
    law_dozzle_addresses(base, slashes, key.container_id@);
    lemma_links_of_rows(containers, keys, offset, table_area, name_span, rows);
    assert(row < rows);
    assert(link_in_row(containers, keys[offset + row], table_area, name_span, row) is Some);
}

/// There is no link but over the name of a container that is known, has a Dozzle
/// URL and stands in a row on screen. The links go from the top down, one to a row.
pub proof fn law_only_rows_on_screen_are_linked(
    containers: Map<(Seq<char>, Seq<char>), Container>,
    keys: Seq<ContainerKey>,
    offset: int,
    table_area: Area,
    name_span: ColumnSpan,
)
    requires
        0 <= offset,
    ensures
        forall|link: LinkText| #[trigger]
            links_over(containers, keys, offset, table_area, name_span).contains(link) ==> {
                let row = link.y - table_area.y - 2;
                &&& 0 <= row
                &&& offset + row < keys.len()
                &&& link.y < table_area.y + table_area.height
                &&& containers.contains_key(keys[offset + row]@)
                &&& containers[keys[offset + row]@].dozzle_url is Some
                &&& text::begins_with(containers[keys[offset + row]@].name@, link.label)
                &&& link.x == table_area.x + name_span.x
                &&& 0 < link.width <= name_span.width
            },
        ({
            let links = links_over(containers, keys, offset, table_area, name_span);
            forall|i: int, j: int|
                0 <= i < j < links.len() ==> (#[trigger] links[i]).y < (#[trigger] links[j]).y
        }),
        table_area.width == 0 || name_span.width == 0 ==> links_over(
            containers,
            keys,
            offset,
            table_area,
            name_span,
        ).len() == 0,
{
    let rows = rows_in_use(keys.len() as int, offset, table_area);
    let links = links_over(containers, keys, offset, table_area, name_span);
    lemma_links_of_rows(containers, keys, offset, table_area, name_span, rows);
    law_links_are_over_names(containers, keys, offset, table_area, name_span, rows);
    assert forall|link: LinkText| #[trigger] links.contains(link) implies {
        let row = link.y - table_area.y - 2;
        &&& 0 <= row
        &&& offset + row < keys.len()
        &&& link.y < table_area.y + table_area.height
        &&& containers.contains_key(keys[offset + row]@)
        &&& containers[keys[offset + row]@].dozzle_url is Some
        &&& text::begins_with(containers[keys[offset + row]@].name@, link.label)
        &&& link.x == table_area.x + name_span.x
        &&& 0 < link.width <= name_span.width
    } by {
        let row = choose|row: int|
            0 <= row < rows && #[trigger] link_in_row(
                containers,
                keys[offset + row],
                table_area,
                name_span,
                row,
            ) == Some(link);
        assert(link.y - table_area.y - 2 == row);
        let k = links.index_of(link);
        assert(links[k] == link);
        let name = containers[keys[offset + row]@].name@;
        clip::law_clipped_text_fits(clip::widths_of(name), name_span.width as int);
        assert(name.subrange(0, link.label.len() as int) =~= link.label);
    }
}

/// The links are over the first of the table's columns that shows names, from the
/// first row on screen on; without such a column there are none.
pub proof fn law_links_follow_the_name_column(
    state: AppState,
    table_area: Area,
    spans: Seq<ColumnSpan>,
    show_host_column: bool,
    i: int,
)
    ensures
        ({
            let shown = list::table_columns_of(state.visible_columns_cache@, show_host_column);
            let links = state.links_for(table_area, spans, show_host_column);
            &&& !shown.contains(Column::Name) ==> links.len() == 0
            &&& 0 <= i < shown.len() && i < spans.len() && shown[i] == Column::Name && (forall|j: int|
                0 <= j < i ==> #[trigger] shown[j] != Column::Name) ==> links == links_over(
                state.containers@,
                state.sorted_container_keys@,
                state.table_state.offset as int,
                table_area,
                spans[i],
            )
        }),
{
    let shown = list::table_columns_of(state.visible_columns_cache@, show_host_column);
    shown.index_of_first_ensures(Column::Name);
    if 0 <= i < shown.len() && shown[i] == Column::Name {
        assert(shown.contains(shown[i]));
    }
}

/// Where there is room for the columns of a row, or for the minimum and the
/// spacing, one terminal column is left free between a column and the next.
pub proof fn law_columns_are_one_apart(
    spans: Seq<ColumnSpan>,
    widths: Seq<ColumnWidth>,
    total: int,
    i: int,
)
    requires
        outside::laid_out(spans, widths, COLUMN_SPACING as int, total),
        outside::has_room(widths, COLUMN_SPACING as int, total) || outside::has_room_for_minimum(
            widths,
            COLUMN_SPACING as int,
            total,
        ),
        0 < i < spans.len(),
    ensures
        spans[0].x == 0,
        spans[i].x == spans[i - 1].x + spans[i - 1].width + 1,
{
    assert(outside::follows(spans, COLUMN_SPACING as int, 0));
    assert(outside::follows(spans, COLUMN_SPACING as int, i));
}

/// What some links are told to be is what each of them is.
pub proof fn law_links_are_told_by_their_fields(links: Seq<Link>, i: int)
    ensures
        link_texts(links).len() == links.len(),
        0 <= i < links.len() ==> {
            &&& link_texts(links)[i].label == links[i].label@
            &&& link_texts(links)[i].url == links[i].url@
            &&& link_texts(links)[i].x == links[i].x
            &&& link_texts(links)[i].y == links[i].y
            &&& link_texts(links)[i].width == links[i].width
        },
{
}

} // verus!
