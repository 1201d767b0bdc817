//! Cutting texts to a number of terminal columns.
use crate::outside;
use crate::outside::char_columns;
use crate::text::chars_of;
use vstd::prelude::*;
use vstd::string::*;

verus! {

/// The number of terminal columns that a character takes: one for printable
/// ASCII, none for control characters, and what Unicode has it for all else.
pub open spec fn char_width(c: char) -> nat {
    if outside::control(c) {
        0
    } else if outside::printable_ascii(c) {
        1
    } else {
        outside::unicode_columns(c) as nat
    }
}

/// The number of terminal columns that each character of a text takes.
pub open spec fn widths_of(s: Seq<char>) -> Seq<nat> {
    s.map_values(|c: char| char_width(c))
}

/// The sum of some widths.
pub open spec fn total(widths: Seq<nat>) -> nat
    decreases widths.len(),
{
    if widths.len() == 0 {
        0
    } else {
        total(widths.drop_last()) + widths.last()
    }
}

/// How many characters fit into `max` columns, from the front and up to the first
/// that does not.
pub open spec fn fitting(widths: Seq<nat>, max: int) -> nat
    decreases widths.len(),
{
    if widths.len() == 0 || widths[0] > max {
        0
    } else {
        1 + fitting(widths.skip(1), max - widths[0])
    }
}

/// A text cut to at most `max` columns.
pub open spec fn clipped(s: Seq<char>, max: int) -> Seq<char> {
    s.take(fitting(widths_of(s), max) as int)
}

/// The widths of a text cut to at most `max` columns add up to no more than that,
/// and no longer front of the text would do.
pub proof fn law_clipped_text_fits(widths: Seq<nat>, max: int)
    requires
        0 <= max,
    ensures
        fitting(widths, max) <= widths.len(),
        total(widths.take(fitting(widths, max) as int)) <= max,
        forall|n: int|
            fitting(widths, max) < n <= widths.len() ==> #[trigger] total(widths.take(n)) > max,
    decreases widths.len(),
{
    if widths.len() == 0 {
    } else if widths[0] > max {
        assert forall|n: int|
            fitting(widths, max) < n <= widths.len() implies #[trigger] total(widths.take(n))
            > max by {
            lemma_total_of_front(widths, n);
        }
    } else {
        let rest = widths.skip(1);
        let k = fitting(rest, max - widths[0]);
        law_clipped_text_fits(rest, max - widths[0]);
        lemma_total_of_front(widths, (k + 1) as int);
        assert forall|n: int|
            fitting(widths, max) < n <= widths.len() implies #[trigger] total(widths.take(n))
            > max by {
            lemma_total_of_front(widths, n);
            assert(total(rest.take(n - 1)) > max - widths[0]);
        }
    }
}

/// The sum of some widths from the front is the first width and the sum of the
/// others.
proof fn lemma_total_of_front(widths: Seq<nat>, n: int)
    requires
        1 <= n <= widths.len(),
    ensures
        total(widths.take(n)) == widths[0] + total(widths.skip(1).take(n - 1)),
    decreases n,
{
    if n == 1 {
        assert(widths.take(1).drop_last() =~= Seq::<nat>::empty());
        assert(widths.skip(1).take(0) =~= Seq::<nat>::empty());
    } else {
        lemma_total_of_front(widths, n - 1);
        assert(widths.take(n).drop_last() =~= widths.take(n - 1));
        assert(widths.skip(1).take(n - 1).drop_last() =~= widths.skip(1).take(n - 2));
    }
}

/// Some widths as numbers.
pub open spec fn naturals(widths: Seq<usize>) -> Seq<nat> {
    widths.map_values(|n: usize| n as nat)
}

/// How many characters of the given widths fit into `max` columns, and how many
/// columns these take.
pub fn clip_widths(widths: &Vec<usize>, max: u16) -> (r: (usize, u16))
    ensures
        r.0 == fitting(naturals(widths@), max as int),
        r.1 == total(naturals(widths@).take(r.0 as int)),
{
    let ghost all = naturals(widths@);
    let mut n: usize = 0;
    let mut width: u16 = 0;
    assert(all.skip(0) == all);
    while n < widths.len() && widths[n] <= (max - width) as usize
        invariant
            all == naturals(widths@),
            n <= widths@.len(),
            width <= max,
            width == total(all.take(n as int)),
            fitting(all, max as int) == n + fitting(all.skip(n as int), max - width),
        decreases widths@.len() - n,
    {
        assert(all.skip(n as int).skip(1) =~= all.skip(n + 1));
        assert(all.take(n + 1).drop_last() =~= all.take(n as int));
        width = width + (widths[n] as u16);
        n = n + 1;
    }
    (n, width)
}

/// Truncates `text` to at most `max_width` display columns, returning the
/// clipped text and its width.
pub fn clip_to_width(text: &str, max_width: u16) -> (r: (&str, u16))
    ensures
        r.0@ == clipped(text@, max_width as int),
        r.1 == total(widths_of(clipped(text@, max_width as int))),
{
    let chars = chars_of(text);
    let mut widths: Vec<usize> = Vec::new();
    let mut i: usize = 0;
    while i < chars.len()
        invariant
            chars@ == text@,
            i <= chars@.len(),
            naturals(widths@) == widths_of(text@.take(i as int)),
            widths@.len() == i,
        decreases chars@.len() - i,
    {
        let width: usize = match char_columns(chars[i]) {
            Some(n) => n,
            None => 0,
        };
        let ghost before = widths@;
        widths.push(width);
        proof {
            assert(text@.take(i + 1) =~= text@.take(i as int).push(text@[i as int]));
            assert(naturals(widths@) =~= naturals(before).push(width as nat));
            assert(widths_of(text@.take(i + 1)) =~= widths_of(text@.take(i as int)).push(
                char_width(text@[i as int]),
            ));
        }
        i = i + 1;
    }
    assert(text@.take(i as int) == text@);
    let (n, width) = clip_widths(&widths, max_width);
    proof {
        law_clipped_text_fits(widths_of(text@), max_width as int);
        assert(text@.subrange(0, n as int) =~= text@.take(n as int));
        assert(widths_of(text@.take(n as int)) =~= widths_of(text@).take(n as int));
    }
    (text.substring_char(0, n), width)
}

/// A text in printable ASCII is cut after so many characters as there are
/// columns.
pub proof fn law_ascii_is_cut_by_length(s: Seq<char>, max: int)
    requires
        0 <= max,
        forall|i: int| 0 <= i < s.len() ==> outside::printable_ascii(#[trigger] s[i]),
    ensures
        clipped(s, max) == if s.len() <= max {
            s
        } else {
            s.take(max)
        },
{
    lemma_ones_fit(widths_of(s), max);
    assert(s.take(s.len() as int) =~= s);
}

/// Of characters that take one column each, so many fit as there are columns.
proof fn lemma_ones_fit(widths: Seq<nat>, max: int)
    requires
        0 <= max,
        forall|i: int| 0 <= i < widths.len() ==> #[trigger] widths[i] == 1,
    ensures
        fitting(widths, max) == if widths.len() <= max {
            widths.len() as int
        } else {
            max
        },
    decreases widths.len(),
{
    if widths.len() > 0 && max > 0 {
        lemma_ones_fit(widths.skip(1), max - 1);
    }
}

/// Cutting a text that was cut already changes nothing.
pub proof fn law_clipping_is_idempotent(s: Seq<char>, max: int)
    requires
        0 <= max,
    ensures
        clipped(clipped(s, max), max) == clipped(s, max),
{
    let widths = widths_of(s);
    let n = fitting(widths, max) as int;
    law_clipped_text_fits(widths, max);
    assert(widths_of(clipped(s, max)) =~= widths.take(n));
    law_clipped_text_fits(widths.take(n), max);
    let m = fitting(widths.take(n), max) as int;
    assert(widths.take(n).take(n) =~= widths.take(n));
    assert(m == n) by {
        if m < n {
            assert(total(widths.take(n).take(n)) > max);
        }
    }
    assert(clipped(s, max).take(n) =~= clipped(s, max));
}

/// The sum of the widths of two texts one after the other is the sum of both, and
/// that of one width is the width.
pub proof fn law_widths_add_up(a: Seq<nat>, b: Seq<nat>, n: nat)
    ensures
        total(Seq::<nat>::empty()) == 0,
        total(seq![n]) == n,
        total(a + b) == total(a) + total(b),
    decreases b.len(),
{
    assert(seq![n].drop_last() =~= Seq::<nat>::empty());
    reveal_with_fuel(total, 2);
    if b.len() == 0 {
        assert(a + b =~= a);
    } else {
        law_widths_add_up(a, b.drop_last(), n);
        assert((a + b).drop_last() =~= a + b.drop_last());
    }
}

/// A printable ASCII character takes one terminal column and a control character
/// none; the widths of a text are those of its characters.
pub proof fn law_widths_of_characters(s: Seq<char>, c: char)
    ensures
        0x20 <= c as int <= 0x7e ==> char_width(c) == 1,
        (c as int) < 0x20 || 0x7f <= c as int <= 0x9f ==> char_width(c) == 0,
        c as int >= 0xa0 ==> char_width(c) == outside::unicode_columns(c),
        widths_of(s).len() == s.len(),
        widths_of(s + seq![c]) == widths_of(s) + seq![char_width(c)],
{
    assert(widths_of(s + seq![c]) =~= widths_of(s) + seq![char_width(c)]);
}

/// A text is cut at the point up to which it fits and after which the next
/// character does not.
pub proof fn law_text_is_cut_where_it_ceases_to_fit(s: Seq<char>, n: int, max: int)
    requires
        0 <= max,
        0 <= n <= s.len(),
        total(widths_of(s.take(n))) <= max,
        n < s.len() ==> total(widths_of(s.take(n + 1))) > max,
    ensures
        clipped(s, max) == s.take(n),
{
    let widths = widths_of(s);
    let fit = fitting(widths, max) as int;
    law_clipped_text_fits(widths, max);
    assert(widths_of(s.take(n)) =~= widths.take(n));
    if n < fit {
        assert(widths_of(s.take(n + 1)) =~= widths.take(n + 1));
        let more = widths.subrange(n + 1, fit);
        law_widths_add_up(widths.take(n + 1), more, 0);
        assert(widths.take(n + 1) + more =~= widths.take(fit));
    }
}

/// Widths as numbers are the widths, in order.
pub proof fn law_widths_as_numbers(widths: Seq<usize>, i: int)
    ensures
        naturals(widths).len() == widths.len(),
        0 <= i < widths.len() ==> naturals(widths)[i] == widths[i],
{
}

} // verus!
