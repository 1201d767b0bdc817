//! The calls into other crates and into parts of std, each with the contract
//! that the rest of the library relies on.
use vstd::prelude::*;
use ratatui::layout::{Constraint, Flex, Layout, Rect};
use ratatui::widgets::{Block, Borders, Padding};
use unicode_width::UnicodeWidthChar;

verus! {

/// A point in time on the UTC time line: whole seconds since 1970 and the
/// nanoseconds within that second. A leap second is written as second 59 of its
/// minute with a billion or more nanoseconds.
#[derive(Clone, Copy, Debug, PartialEq, Eq, Structural)]
pub struct Timestamp {
    pub secs: i64,
    pub nanos: u32,
}

/// The first second that a date can hold: January 1, 262144 BCE, 00:00:00.
pub const MIN_UNIX_SECOND: i64 = -8_334_601_228_800;

/// The last second that a date can hold: December 31, 262142 CE, 23:59:59.
pub const MAX_UNIX_SECOND: i64 = 8_210_266_876_799;

impl Timestamp {
    /// Whether the fields denote a point in time that a date can hold.
    pub open spec fn valid(self) -> bool {
        &&& MIN_UNIX_SECOND <= self.secs <= MAX_UNIX_SECOND
        &&& self.nanos < 1_000_000_000 || (self.nanos < 2_000_000_000 && (self.secs as int) % 60
            == 59)
    }
}

/// A width that a table column asks for.
#[derive(Clone, Copy, Debug, PartialEq, Eq, Structural)]
pub enum ColumnWidth {
    /// Exactly this many columns.
    Length(u16),
    /// At least this many columns.
    Min(u16),
}

/// The columns that a table column was given: its left edge and its width.
#[derive(Clone, Copy, Debug, PartialEq, Eq, Structural)]
pub struct ColumnSpan {
    pub x: u16,
    pub width: u16,
}

/// A rectangle of terminal cells.
#[derive(Clone, Copy, Debug, PartialEq, Eq, Structural)]
pub struct Area {
    pub x: u16,
    pub y: u16,
    pub width: u16,
    pub height: u16,
}

impl Area {
    /// Whether the right and the bottom edge are on a terminal.
    pub open spec fn fits(self) -> bool {
        &&& self.x + self.width <= u16::MAX
        &&& self.y + self.height <= u16::MAX
    }
}

/// Whether a text is ASCII only.
pub open spec fn ascii(s: Seq<char>) -> bool {
    forall|i: int| 0 <= i < s.len() ==> (#[trigger] s[i] as int) < 128
}

/// The letters `A` to `Z` mapped to `a` to `z`, all else unchanged.
pub open spec fn ascii_lowercase(s: Seq<char>) -> Seq<char> {
    Seq::new(
        s.len(),
        |i: int|
            if 'A' as int <= s[i] as int <= 'Z' as int {
                (s[i] as int + 32) as char
            } else {
                s[i]
            },
    )
}

/// What `str::to_lowercase` makes of a text that is not ASCII only.
pub uninterp spec fn unicode_lowercase(s: Seq<char>) -> Seq<char>;

/// A text in lower case.
pub open spec fn lowercase(s: Seq<char>) -> Seq<char> {
    if ascii(s) {
        ascii_lowercase(s)
    } else {
        unicode_lowercase(s)
    }
}

/// `str::to_lowercase`: an ASCII text has its letters mapped one by one, and of
/// any other text the result is a function of the text.
pub assume_specification[ str::to_lowercase ](s: &str) -> (r: String)
    ensures
        ascii(s@) ==> r@ == ascii_lowercase(s@),
        !ascii(s@) ==> r@ == unicode_lowercase(s@),
;

/// Whether a character is printable ASCII.
pub open spec fn printable_ascii(c: char) -> bool {
    0x20 <= c as int && (c as int) < 0x7f
}

/// Whether a character is a control character.
pub open spec fn control(c: char) -> bool {
    (c as int) < 0x20 || 0x7f <= c as int && (c as int) < 0xa0
}

/// The number of terminal columns that `UnicodeWidthChar::width` gives a character
/// beyond ASCII and the control characters.
pub uninterp spec fn unicode_columns(c: char) -> usize;

/// `UnicodeWidthChar::width`: one column for printable ASCII, none to tell for a
/// control character, and for any other a number that is a function of the
/// character.
#[verifier::external_body]
pub(crate) fn char_columns(c: char) -> (r: Option<usize>)
    ensures
        r == if control(c) {
            None
        } else if printable_ascii(c) {
            Some(1usize)
        } else {
            Some(unicode_columns(c))
        },
{
    c.width()
}

/// What `DateTime::parse_from_rfc3339` reads from a text, on the UTC time line,
/// as the seconds and nanoseconds of a [`Timestamp`]; `None` where it reports an
/// error.
pub uninterp spec fn rfc3339_instant(s: Seq<char>) -> Option<(i64, u32)>;

/// `DateTime::parse_from_rfc3339`, moved to UTC: the result is a function of the
/// text and denotes a point in time that a date can hold.
#[verifier::external_body]
pub(crate) fn parse_rfc3339(s: &str) -> (r: Option<Timestamp>)
    ensures
        match r {
            Some(t) => rfc3339_instant(s@) == Some((t.secs, t.nanos)) && t.valid(),
            None => rfc3339_instant(s@) is None,
        },
{
    chrono::DateTime::parse_from_rfc3339(s).ok().map(
        |t| Timestamp { secs: t.timestamp(), nanos: t.timestamp_subsec_nanos() },
    )
}

/// `DateTime::from_timestamp` with no nanoseconds: a point in time exactly for
/// the seconds that a date can hold.
#[verifier::external_body]
pub(crate) fn from_unix_seconds(secs: i64) -> (r: Option<Timestamp>)
    ensures
        r == if MIN_UNIX_SECOND <= secs <= MAX_UNIX_SECOND {
            Some(Timestamp { secs, nanos: 0u32 })
        } else {
            None
        },
{
    chrono::DateTime::from_timestamp(secs, 0).map(
        |t| Timestamp { secs: t.timestamp(), nanos: t.timestamp_subsec_nanos() },
    )
}

/// `n / d` rounded towards zero.
pub open spec fn quotient(n: int, d: int) -> int {
    if n >= 0 {
        n / d
    } else {
        -((-n) / d)
    }
}

/// The nanoseconds that a leap second adds to the distance between two points in
/// time: one second where the one with the earlier time of day is a leap second.
pub open spec fn leap_nanos(a: Timestamp, b: Timestamp) -> int {
    let a_in_day = (a.secs as int) % 86_400;
    let b_in_day = (b.secs as int) % 86_400;
    if a_in_day > b_in_day && b.nanos >= 1_000_000_000 {
        1_000_000_000
    } else if a_in_day < b_in_day && a.nanos >= 1_000_000_000 {
        -1_000_000_000
    } else {
        0
    }
}

/// The whole seconds from `b` to `a`, rounded towards zero.
pub open spec fn whole_seconds(a: Timestamp, b: Timestamp) -> int {
    quotient(
        (a.secs - b.secs) * 1_000_000_000 + (a.nanos - b.nanos) + leap_nanos(a, b),
        1_000_000_000,
    )
}

/// The difference of two `DateTime`s and its `TimeDelta::num_seconds`: the whole
/// seconds between the two points in time.
#[verifier::external_body]
pub(crate) fn seconds_between(a: Timestamp, b: Timestamp) -> (r: i64)
    requires
        a.valid(),
        b.valid(),
    ensures
        r == whole_seconds(a, b),
{
    let later = chrono::DateTime::from_timestamp(a.secs, a.nanos).unwrap();
    let earlier = chrono::DateTime::from_timestamp(b.secs, b.nanos).unwrap();
    (later - earlier).num_seconds()
}

/// The number of columns up to which it is stated how a row is shared out.
pub const MAX_ROW_COLUMNS: usize = 15;

/// The columns that a table column asks for, at least.
pub open spec fn asked(width: ColumnWidth) -> int {
    match width {
        ColumnWidth::Length(n) => n as int,
        ColumnWidth::Min(n) => n as int,
    }
}

/// Where the table column `i` begins if those before it get what they ask for,
/// with the spacing after each.
pub open spec fn asked_before(widths: Seq<ColumnWidth>, spacing: int, i: int) -> int
    decreases i,
{
    if i <= 0 {
        0
    } else {
        asked_before(widths, spacing, i - 1) + asked(widths[i - 1]) + spacing
    }
}

/// What a row has left when every table column got what it asks for, with the
/// spacing between them.
pub open spec fn left_over(widths: Seq<ColumnWidth>, spacing: int, total: int) -> int {
    if widths.len() == 0 {
        total
    } else {
        total + spacing - asked_before(widths, spacing, widths.len() as int)
    }
}

/// Whether a row has room for what its table columns ask for, and at most one of
/// them asks for what is left.
pub open spec fn has_room(widths: Seq<ColumnWidth>, spacing: int, total: int) -> bool {
    &&& widths.len() <= MAX_ROW_COLUMNS
    &&& forall|i: int, j: int|
        0 <= i < j < widths.len() ==> !((#[trigger] widths[i]) is Min && (
        #[trigger] widths[j]) is Min)
    &&& left_over(widths, spacing, total) >= 0
}

/// Whether a row has room for the spacing and for the one minimum among its table
/// columns, if there is one, whatever the others ask for.
pub open spec fn has_room_for_minimum(
    widths: Seq<ColumnWidth>,
    spacing: int,
    total: int,
) -> bool {
    let gaps = if widths.len() == 0 {
        0
    } else {
        spacing * (widths.len() - 1)
    };
    &&& widths.len() <= MAX_ROW_COLUMNS
    &&& forall|i: int, j: int|
        0 <= i < j < widths.len() ==> !((#[trigger] widths[i]) is Min && (
        #[trigger] widths[j]) is Min)
    &&& forall|i: int|
        0 <= i < widths.len() ==> ((#[trigger] widths[i]) matches ColumnWidth::Min(n) ==> n
            <= 0x7fff && n + gaps <= total)
    &&& gaps <= total
}

/// Whether the span `i` begins right after the spacing behind the one before it,
/// or at the left edge where it is the first.
pub open spec fn follows(spans: Seq<ColumnSpan>, spacing: int, i: int) -> bool {
    spans[i].x == if i == 0 {
        0
    } else {
        spans[i - 1].x + spans[i - 1].width + spacing
    }
}

/// Whether spans are what a row shares out to its table columns: one for each,
/// inside the row. Where there is room, they stand side by side from the left
/// edge on, each as wide as it asks for; the one that asks for a minimum also gets
/// what is left. Where there is room for the spacing and the minimum only, they
/// still stand side by side and the minimum is kept; the others get no more than
/// they ask for, and all together fill the row.
pub open spec fn laid_out(
    spans: Seq<ColumnSpan>,
    widths: Seq<ColumnWidth>,
    spacing: int,
    total: int,
) -> bool {
    &&& spans.len() == widths.len()
    &&& forall|i: int| 0 <= i < spans.len() ==> (#[trigger] spans[i]).x + spans[i].width <= total
    &&& has_room(widths, spacing, total) ==> {
        &&& forall|i: int| 0 <= i < spans.len() ==> #[trigger] follows(spans, spacing, i)
        &&& forall|i: int|
            0 <= i < spans.len() ==> (#[trigger] spans[i]).width == match widths[i] {
                ColumnWidth::Length(n) => n as int,
                ColumnWidth::Min(n) => n + left_over(widths, spacing, total),
            }
    }
    &&& has_room_for_minimum(widths, spacing, total) ==> {
        &&& forall|i: int| 0 <= i < spans.len() ==> #[trigger] follows(spans, spacing, i)
        &&& forall|i: int|
            0 <= i < spans.len() ==> match widths[i] {
                ColumnWidth::Length(n) => (#[trigger] spans[i]).width <= n,
                ColumnWidth::Min(n) => spans[i].width == n + floored(
                    left_over(widths, spacing, total),
                ),
            }
        &&& left_over(widths, spacing, total) < 0 ==> spans.last().x + spans.last().width == total
    }
}

/// `Layout::split` of a row of the given width, with `Flex::Start`: one span for
/// each width that was asked for, each inside the row. Where there is room for all
/// of them and at most one is a minimum, a single layout is the best: the spacing
/// and the widths outweigh all else, and a minimum outweighs the empty space behind
/// the last column. Where there is no room, the spacing and the minimum outweigh the
/// exact widths, so only these give way, and together by no more than they have to.
/// Which of them does is not stated, nor what becomes of a row in which several
/// minimums share what is left or not even the minimum fits: the solver walks hash
/// maps that every process seeds anew, and its documentation calls the result
/// indeterminate where several would do.
#[verifier::external_body]
pub(crate) fn split_row(widths: &Vec<ColumnWidth>, spacing: u16, total: u16) -> (r: Vec<ColumnSpan>)
    requires
        spacing <= 0x7fff,
    ensures
        laid_out(r@, widths@, spacing as int, total as int),
{
    let constraints = widths.iter().map(
        |w| match w {
            ColumnWidth::Length(n) => Constraint::Length(*n),
            ColumnWidth::Min(n) => Constraint::Min(*n),
        },
    );
    let layout = Layout::horizontal(constraints).flex(Flex::Start).spacing(spacing);
    let spans = layout.split(Rect::new(0, 0, total, 1));
    spans.iter().map(|r| ColumnSpan { x: r.x, width: r.width }).collect()
}

/// The smaller of `n` and the largest `u16`.
pub open spec fn capped(n: int) -> int {
    if n > u16::MAX {
        u16::MAX as int
    } else {
        n
    }
}

/// `n`, or zero where it is negative.
pub open spec fn floored(n: int) -> int {
    if n < 0 {
        0
    } else {
        n
    }
}

/// What is left of an area inside a block without borders that has a title at
/// its top and proportional padding: the title takes one row, the padding `n`
/// rows above and below and `2 * n` columns on either side.
pub open spec fn inside_titled_block(area: Area, n: u16, inner: Area) -> bool {
    let below_title = if area.height == 0 || area.y == u16::MAX {
        area.y as int
    } else {
        area.y + 1
    };
    &&& inner.x == capped(area.x + 2 * n)
    &&& inner.y == capped(below_title + n)
    &&& inner.width == floored(area.width - capped(4 * n as int))
    &&& inner.height == floored(floored(area.height - 1) - 2 * n)
}

/// `Block::inner` of a block without borders that has the given title and
/// `Padding::proportional`.
#[verifier::external_body]
pub(crate) fn titled_block_inner(area: Area, padding: u16, title: &str) -> (r: Area)
    requires
        padding <= 0x7fff,
    ensures
        inside_titled_block(area, padding, r),
{
    let block = Block::default().borders(Borders::NONE).padding(
        Padding::proportional(padding),
    ).title(title);
    let r = block.inner(Rect { x: area.x, y: area.y, width: area.width, height: area.height });
    Area { x: r.x, y: r.y, width: r.width, height: r.height }
}

/// A moment of the machine's monotonic clock.
#[verifier::external_type_specification]
#[verifier::external_body]
pub struct ExInstant(std::time::Instant);

/// `Instant::now`: nothing is stated of the moment it gives.
#[verifier::external_body]
pub(crate) fn now() -> (r: std::time::Instant) {
    std::time::Instant::now()
}

/// `Instant::elapsed`, in nanoseconds: nothing is stated of how much time it
/// reports.
#[verifier::external_body]
pub(crate) fn elapsed_nanos(since: &std::time::Instant) -> (r: u128) {
    since.elapsed().as_nanos()
}

/// A connection to a Docker daemon.
#[verifier::external_type_specification]
#[verifier::external_body]
pub struct ExDocker(bollard::Docker);

/// `Docker::clone`: another handle on the same connection. A connection is
/// opaque here, so nothing is stated of it.
#[verifier::external_body]
pub(crate) fn copy_connection(docker: &bollard::Docker) -> (r: bollard::Docker) {
    docker.clone()
}

} // verus!
