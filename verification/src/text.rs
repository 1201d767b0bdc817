//! Texts as sequences of characters: equality, search, trimming, replacement
//! and decimal numbers.
use crate::outside;
use vstd::prelude::*;
use vstd::string::*;

verus! {

/// Whether `needle` stands in `hay` at position `i`.
pub open spec fn occurs_at(hay: Seq<char>, needle: Seq<char>, i: int) -> bool {
    &&& 0 <= i
    &&& i + needle.len() <= hay.len()
    &&& hay.subrange(i, i + needle.len()) == needle
}

/// Whether `needle` stands somewhere in `hay`.
pub open spec fn occurs(hay: Seq<char>, needle: Seq<char>) -> bool {
    exists|i: int| #[trigger] occurs_at(hay, needle, i)
}

/// Whether `s` begins with `prefix`.
pub open spec fn begins_with(s: Seq<char>, prefix: Seq<char>) -> bool {
    occurs_at(s, prefix, 0)
}

/// `s` without the run of `c` at its front.
pub open spec fn without_leading(s: Seq<char>, c: char) -> Seq<char>
    decreases s.len(),
{
    if s.len() > 0 && s[0] == c {
        without_leading(s.skip(1), c)
    } else {
        s
    }
}

/// `s` without the run of `c` at its end.
pub open spec fn without_trailing(s: Seq<char>, c: char) -> Seq<char>
    decreases s.len(),
{
    if s.len() > 0 && s.last() == c {
        without_trailing(s.drop_last(), c)
    } else {
        s
    }
}

/// `s` with every occurrence of `from` replaced by `to`, read from the front
/// without overlaps.
pub open spec fn replaced(s: Seq<char>, from: Seq<char>, to: Seq<char>) -> Seq<char>
    decreases s.len(),
{
    if from.len() == 0 || s.len() < from.len() {
        s
    } else if begins_with(s, from) {
        to + replaced(s.skip(from.len() as int), from, to)
    } else {
        seq![s[0]] + replaced(s.skip(1), from, to)
    }
}

/// The code points that carry Unicode's `White_Space` property.
pub open spec fn white_space(c: char) -> bool {
    let n = c as int;
    ||| 0x9 <= n <= 0xd
    ||| n == 0x20
    ||| n == 0x85
    ||| n == 0xa0
    ||| n == 0x1680
    ||| 0x2000 <= n <= 0x200a
    ||| n == 0x2028
    ||| n == 0x2029
    ||| n == 0x202f
    ||| n == 0x205f
    ||| n == 0x3000
}

/// Whether `s` holds white space only. An empty text is blank.
pub open spec fn blank(s: Seq<char>) -> bool {
    forall|i: int| 0 <= i < s.len() ==> white_space(#[trigger] s[i])
}

/// The character that writes the digit `d`.
pub open spec fn digit_char(d: nat) -> char {
    (('0' as int) + d) as char
}

/// `n` in decimal, without leading zeros.
pub open spec fn digits(n: nat) -> Seq<char>
    decreases n,
{
    if n < 10 {
        seq![digit_char(n)]
    } else {
        digits(n / 10).push(digit_char(n % 10))
    }
}

/// `n` in decimal, with a minus sign where it is negative.
pub open spec fn signed_digits(n: int) -> Seq<char> {
    if n < 0 {
        seq!['-'] + digits((-n) as nat)
    } else {
        digits(n as nat)
    }
}

/// Whether two ASCII characters are equal or the same letter in two cases.
pub open spec fn same_letter(c: char, d: char) -> bool {
    ||| c == d
    ||| 'A' as int <= c as int <= 'Z' as int && d as int == c as int + 32
    ||| 'A' as int <= d as int <= 'Z' as int && c as int == d as int + 32
}

/// Whether two ASCII texts differ in the case of letters at most.
pub open spec fn same_letters(s: Seq<char>, t: Seq<char>) -> bool {
    &&& outside::ascii(s)
    &&& outside::ascii(t)
    &&& s.len() == t.len()
    &&& forall|i: int| 0 <= i < s.len() ==> same_letter(#[trigger] s[i], t[i])
}

/// Two ASCII texts that differ in case only are the same in lower case.
pub proof fn lemma_same_letters(s: Seq<char>, t: Seq<char>)
    requires
        same_letters(s, t),
    ensures
        outside::lowercase(s) == outside::lowercase(t),
{
    assert(outside::lowercase(s) =~= outside::lowercase(t)) by {
        assert forall|i: int| 0 <= i < s.len() implies outside::lowercase(s)[i]
            == outside::lowercase(t)[i] by {
            assert(same_letter(s[i], t[i]));
        }
    }
}

/// The characters of a text that may be absent.
pub open spec fn text_of(s: Option<String>) -> Option<Seq<char>> {
    match s {
        Some(t) => Some(t@),
        None => None,
    }
}

/// The texts of a list of strings.
pub open spec fn texts_of(strings: Seq<String>) -> Seq<Seq<char>> {
    strings.map_values(|s: String| s@)
}

/// The characters of a text, in order.
pub fn chars_of(s: &str) -> (r: Vec<char>)
    ensures
        r@ == s@,
{
    let mut r: Vec<char> = Vec::new();
    for c in it: s.chars()
        invariant
            r@ == it.seq().take(it.index()),
            it.seq() == s@,
    {
        r.push(c);
    }
    r
}

/// Whether two texts hold the same characters.
pub fn same_text(a: &str, b: &str) -> (r: bool)
    ensures
        r == (a@ == b@),
{
    let mut x = a.chars();
    let mut y = b.chars();
    let ghost mut i: int = 0;
    loop
        invariant
            0 <= i <= a@.len(),
            i <= b@.len(),
            a@.take(i) == b@.take(i),
            vstd::std_specs::iter::IteratorSpec::remaining(&x) == a@.skip(i),
            vstd::std_specs::iter::IteratorSpec::remaining(&y) == b@.skip(i),
        decreases a@.len() - i,
    {
        let c = x.next();
        let d = y.next();
        if c != d {
            return false;
        }
        if c.is_none() {
            assert(a@.take(i) == a@ && b@.take(i) == b@);
            return true;
        }
        proof {
            assert(a@.take(i + 1) == a@.take(i).push(a@[i]));
            assert(b@.take(i + 1) == b@.take(i).push(b@[i]));
            i = i + 1;
        }
    }
}

/// Whether `needle` stands in `hay` at position `i`.
fn stands_at(hay: &Vec<char>, needle: &Vec<char>, i: usize) -> (r: bool)
    requires
        i + needle@.len() <= hay@.len(),
    ensures
        r == occurs_at(hay@, needle@, i as int),
{
    let end: usize = hay.len();
    let mut k: usize = 0;
    while k < needle.len()
        invariant
            k <= needle@.len(),
            i + needle@.len() <= hay@.len(),
            end == hay@.len(),
            hay@.subrange(i as int, i + k) == needle@.take(k as int),
        decreases needle@.len() - k,
    {
        if hay[i + k] != needle[k] {
            proof {
                if occurs_at(hay@, needle@, i as int) {
                    assert(hay@.subrange(i as int, i + needle@.len())[k as int] == needle@[k as int]);
                }
            }
            return false;
        }
        proof {
            assert(hay@.subrange(i as int, i + k + 1) == hay@.subrange(i as int, i + k).push(
                hay@[i + k],
            ));
            assert(needle@.take(k + 1) == needle@.take(k as int).push(needle@[k as int]));
        }
        k = k + 1;
    }
    assert(needle@.take(k as int) == needle@);
    true
}

/// Whether `needle` stands somewhere in `hay`.
pub fn holds(hay: &Vec<char>, needle: &Vec<char>) -> (r: bool)
    ensures
        r == occurs(hay@, needle@),
{
    if needle.len() > hay.len() {
        return false;
    }
    let last: usize = hay.len() - needle.len();
    let mut i: usize = 0;
    while i <= last
        invariant
            last == hay@.len() - needle@.len(),
            i <= last + 1,
            forall|j: int| 0 <= j < i ==> !#[trigger] occurs_at(hay@, needle@, j),
        decreases last + 1 - i,
    {
        if stands_at(hay, needle, i) {
            return true;
        }
        if i == last {
            return false;
        }
        i = i + 1;
    }
    false
}

/// Whether `needle` stands somewhere in the text `hay`.
pub fn contains_text(hay: &str, needle: &str) -> (r: bool)
    ensures
        r == occurs(hay@, needle@),
{
    holds(&chars_of(hay), &chars_of(needle))
}

/// Whether the text `s` begins with `prefix`.
pub fn starts_with(s: &str, prefix: &str) -> (r: bool)
    ensures
        r == begins_with(s@, prefix@),
{
    let s = chars_of(s);
    let prefix = chars_of(prefix);
    prefix.len() <= s.len() && stands_at(&s, &prefix, 0)
}

/// Whether a character is white space.
pub fn is_white_space(c: char) -> (r: bool)
    ensures
        r == white_space(c),
{
    let n: u32 = c as u32;
    (0x9 <= n && n <= 0xd) || n == 0x20 || n == 0x85 || n == 0xa0 || n == 0x1680 || (0x2000 <= n
        && n <= 0x200a) || n == 0x2028 || n == 0x2029 || n == 0x202f || n == 0x205f || n == 0x3000
}

/// Whether a text holds white space only.
pub fn is_blank(s: &str) -> (r: bool)
    ensures
        r == blank(s@),
{
    let chars = chars_of(s);
    let mut i: usize = 0;
    while i < chars.len()
        invariant
            chars@ == s@,
            i <= chars@.len(),
            forall|j: int| 0 <= j < i ==> white_space(#[trigger] s@[j]),
        decreases chars@.len() - i,
    {
        if !is_white_space(chars[i]) {
            assert(!white_space(s@[i as int]));
            return false;
        }
        i = i + 1;
    }
    true
}

/// The text without the run of `c` at its front.
pub fn trim_start_of(s: &str, c: char) -> (r: &str)
    ensures
        r@ == without_leading(s@, c),
{
    let chars = chars_of(s);
    let mut i: usize = 0;
    assert(s@.skip(0) == s@);
    while i < chars.len() && chars[i] == c
        invariant
            chars@ == s@,
            i <= chars@.len(),
            without_leading(s@, c) == without_leading(s@.skip(i as int), c),
        decreases chars@.len() - i,
    {
        assert(s@.skip(i as int).skip(1) == s@.skip(i + 1));
        i = i + 1;
    }
    assert(s@.skip(i as int) == s@.subrange(i as int, s@.len() as int));
    s.substring_char(i, chars.len())
}

/// The text without the run of `c` at its end.
pub fn trim_end_of(s: &str, c: char) -> (r: &str)
    ensures
        r@ == without_trailing(s@, c),
{
    let chars = chars_of(s);
    let mut n: usize = chars.len();
    assert(s@.take(n as int) == s@);
    while n > 0 && chars[n - 1] == c
        invariant
            chars@ == s@,
            n <= chars@.len(),
            without_trailing(s@, c) == without_trailing(s@.take(n as int), c),
        decreases n,
    {
        assert(s@.take(n as int).drop_last() == s@.take(n - 1));
        n = n - 1;
    }
    assert(s@.take(n as int) == s@.subrange(0, n as int));
    s.substring_char(0, n)
}

/// The text with every occurrence of `from` replaced by `to`.
pub fn replace_all(s: &str, from: &str, to: &str) -> (r: String)
    requires
        from@.len() > 0,
    ensures
        r@ == replaced(s@, from@, to@),
{
    let chars = chars_of(s);
    let pattern = chars_of(from);
    let mut r = String::new();
    let mut i: usize = 0;
    assert(s@.skip(0) == s@);
    while i < chars.len() && pattern.len() <= chars.len() - i
        invariant
            chars@ == s@,
            pattern@ == from@,
            from@.len() > 0,
            i <= chars@.len(),
            replaced(s@, from@, to@) == r@ + replaced(s@.skip(i as int), from@, to@),
        decreases chars@.len() - i,
    {
        let ghost rest = s@.skip(i as int);
        assert(rest.subrange(0, from@.len() as int) == s@.subrange(i as int, i + from@.len()));
        if stands_at(&chars, &pattern, i) {
            assert(rest.skip(from@.len() as int) == s@.skip(i + from@.len()));
            r.append(to);
            i = i + pattern.len();
        } else {
            assert(rest.skip(1) == s@.skip(i + 1));
            assert(s@.subrange(i as int, i + 1) == seq![rest[0]]);
            r.append(s.substring_char(i, i + 1));
            i = i + 1;
        }
        assert(replaced(s@, from@, to@) == r@ + replaced(s@.skip(i as int), from@, to@));
    }
    assert(s@.skip(i as int) == s@.subrange(i as int, s@.len() as int));
    r.append(s.substring_char(i, chars.len()));
    r
}

/// The text of one digit.
fn digit(d: u64) -> (r: &'static str)
    requires
        d < 10,
    ensures
        r@ == seq![digit_char(d as nat)],
{
    proof {
        reveal_strlit("0");
        reveal_strlit("1");
        reveal_strlit("2");
        reveal_strlit("3");
        reveal_strlit("4");
        reveal_strlit("5");
        reveal_strlit("6");
        reveal_strlit("7");
        reveal_strlit("8");
        reveal_strlit("9");
    }
    let r = match d {
        0 => "0",
        1 => "1",
        2 => "2",
        3 => "3",
        4 => "4",
        5 => "5",
        6 => "6",
        7 => "7",
        8 => "8",
        _ => "9",
    };
    assert(r@ =~= seq![digit_char(d as nat)]);
    r
}

/// A number in decimal.
pub fn decimal(n: u64) -> (r: String)
    ensures
        r@ == digits(n as nat),
    decreases n,
{
    if n < 10 {
        digit(n).to_owned()
    } else {
        let mut r = decimal(n / 10);
        r.append(digit(n % 10));
        assert(r@ =~= digits((n / 10) as nat).push(digit_char((n % 10) as nat)));
        r
    }
}

/// A signed number in decimal.
pub fn signed_decimal(n: i64) -> (r: String)
    ensures
        r@ == signed_digits(n as int),
{
    if n < 0 {
        let magnitude: u64 = if n == i64::MIN {
            0x8000_0000_0000_0000u64
        } else {
            (-n) as u64
        };
        let mut r = "-".to_owned();
        proof {
            reveal_strlit("-");
            assert("-"@ =~= seq!['-']);
        }
        let text = decimal(magnitude);
        r.append(text.as_str());
        r
    } else {
        decimal(n as u64)
    }
}

/// A text stands in another exactly where the other is the text with something,
/// or nothing, before and after it.
pub proof fn law_occurs_is_containment(hay: Seq<char>, needle: Seq<char>)
    ensures
        occurs(hay, needle) <==> exists|before: Seq<char>, after: Seq<char>|
            hay == #[trigger] before.add(needle).add(after),
{
    if occurs(hay, needle) {
        let i = choose|i: int| #[trigger] occurs_at(hay, needle, i);
        let before = hay.take(i);
        let after = hay.skip(i + needle.len());
        assert(hay.subrange(i, i + needle.len()) == needle);
        assert(hay =~= before.add(needle).add(after));
    }
    if exists|before: Seq<char>, after: Seq<char>|
        hay == #[trigger] before.add(needle).add(after) {
        let (before, after) = choose|before: Seq<char>, after: Seq<char>|
            hay == #[trigger] before.add(needle).add(after);
        let i = before.len() as int;
        assert(hay.subrange(i, i + needle.len()) =~= needle);
        assert(occurs_at(hay, needle, i));
    }
}

/// A text begins with another exactly where it is the other with something, or
/// nothing, after it.
pub proof fn law_begins_with_is_a_prefix(s: Seq<char>, prefix: Seq<char>)
    ensures
        begins_with(s, prefix) <==> exists|after: Seq<char>| s == #[trigger] prefix.add(after),
{
    if begins_with(s, prefix) {
        let after = s.skip(prefix.len() as int);
        assert(s.subrange(0, prefix.len() as int) == prefix);
        assert(s =~= prefix.add(after));
    }
    if exists|after: Seq<char>| s == #[trigger] prefix.add(after) {
        assert(s.subrange(0, prefix.len() as int) =~= prefix);
    }
}

/// What is left of a text without the run of a character at its front does not
/// begin with that character, and what was taken away holds nothing else.
pub proof fn law_leading_run_is_taken_away(s: Seq<char>, c: char)
    ensures
        ({
            let r = without_leading(s, c);
            let n = s.len() - r.len();
            &&& 0 <= n
            &&& r == s.skip(n)
            &&& r.len() > 0 ==> r[0] != c
            &&& forall|i: int| 0 <= i < n ==> #[trigger] s[i] == c
        }),
    decreases s.len(),
{
    if s.len() > 0 && s[0] == c {
        let t = s.skip(1);
        law_leading_run_is_taken_away(t, c);
        let r = without_leading(s, c);
        let n = s.len() - r.len();
        assert(r =~= s.skip(n));
        assert forall|i: int| 0 <= i < n implies #[trigger] s[i] == c by {
            if i > 0 {
                assert(t[i - 1] == c);
            }
        }
    } else {
        assert(s =~= s.skip(0));
    }
}

/// What is left of a text without the run of a character at its end does not end
/// with that character, and what was taken away holds nothing else.
pub proof fn law_trailing_run_is_taken_away(s: Seq<char>, c: char)
    ensures
        ({
            let r = without_trailing(s, c);
            &&& r.len() <= s.len()
            &&& r == s.take(r.len() as int)
            &&& r.len() > 0 ==> r.last() != c
            &&& forall|i: int| r.len() <= i < s.len() ==> #[trigger] s[i] == c
        }),
    decreases s.len(),
{
    if s.len() > 0 && s.last() == c {
        let t = s.drop_last();
        law_trailing_run_is_taken_away(t, c);
        let r = without_trailing(s, c);
        assert(r =~= s.take(r.len() as int));
        assert forall|i: int| r.len() <= i < s.len() implies #[trigger] s[i] == c by {
            if i < t.len() {
                assert(t[i] == c);
            }
        }
    } else {
        assert(s =~= s.take(s.len() as int));
    }
}

/// Replacing starts at the first occurrence: what stands before it is kept, the
/// replacement takes its place, and what follows is replaced in turn. A text
/// without an occurrence stays as it is.
pub proof fn law_replacing_goes_by_first_occurrences(
    s: Seq<char>,
    from: Seq<char>,
    to: Seq<char>,
    i: int,
)
    requires
        from.len() > 0,
    ensures
        !occurs(s, from) ==> replaced(s, from, to) == s,
        occurs_at(s, from, i) && (forall|j: int| 0 <= j < i ==> !#[trigger] occurs_at(s, from, j))
            ==> replaced(s, from, to) == s.take(i) + to + replaced(
            s.skip(i + from.len()),
            from,
            to,
        ),
    decreases s.len(),
{
    if s.len() >= from.len() {
        let t = s.skip(1);
        if !begins_with(s, from) {
            law_replacing_goes_by_first_occurrences(t, from, to, i - 1);
            assert forall|j: int| #[trigger] occurs_at(t, from, j) implies occurs_at(
                s,
                from,
                j + 1,
            ) by {
                assert(s.subrange(j + 1, j + 1 + from.len()) =~= t.subrange(j, j + from.len()));
            }
            assert(seq![s[0]] + t =~= s);
            if occurs_at(s, from, i) && (forall|j: int|
                0 <= j < i ==> !#[trigger] occurs_at(s, from, j)) {
                assert(i > 0);
                assert(t.subrange(i - 1, i - 1 + from.len()) =~= s.subrange(i, i + from.len()));
                assert(occurs_at(t, from, i - 1));
                assert(t.skip(i - 1 + from.len()) =~= s.skip(i + from.len()));
                assert(seq![s[0]] + (t.take(i - 1) + to + replaced(
                    s.skip(i + from.len()),
                    from,
                    to,
                )) =~= s.take(i) + to + replaced(s.skip(i + from.len()), from, to));
            }
        } else if occurs_at(s, from, i) && (forall|j: int|
            0 <= j < i ==> !#[trigger] occurs_at(s, from, j)) {
            assert(occurs_at(s, from, 0));
            assert(i == 0);
            assert(s.take(0) + to =~= to);
        }
    }
}

/// An empty text is blank, a text in two parts is blank where both are, and no
/// text with a visible ASCII character is.
pub proof fn law_blank_texts(a: Seq<char>, b: Seq<char>, c: char)
    ensures
        blank(Seq::<char>::empty()),
        blank(a + b) <==> blank(a) && blank(b),
        blank(seq![' ']) && blank(seq!['\t']) && blank(seq!['\n']) && blank(seq!['\r']),
        0x21 <= c as int <= 0x7e ==> !blank(a + seq![c] + b),
{
    let s = a + b;
    if blank(s) {
        assert forall|i: int| 0 <= i < a.len() implies white_space(#[trigger] a[i]) by {
            assert(s[i] == a[i]);
        }
        assert forall|i: int| 0 <= i < b.len() implies white_space(#[trigger] b[i]) by {
            assert(s[a.len() + i] == b[i]);
        }
    }
    assert((a + seq![c] + b)[a.len() as int] == c);
}

/// The number that a text of decimal digits denotes.
pub open spec fn value_of(s: Seq<char>) -> int
    decreases s.len(),
{
    if s.len() == 0 {
        0
    } else {
        10 * value_of(s.drop_last()) + (s.last() as int - '0' as int)
    }
}

/// A number in decimal reads back as the number, holds digits only, and begins
/// with a zero only if it is zero.
pub proof fn law_digits_read_back(n: nat)
    ensures
        value_of(digits(n)) == n,
        digits(n).len() > 0,
        forall|i: int|
            0 <= i < digits(n).len() ==> '0' as int <= (#[trigger] digits(n)[i]) as int
                <= '9' as int,
        digits(n)[0] == '0' ==> n == 0 && digits(n).len() == 1,
    decreases n,
{
    if n < 10 {
        assert(digits(n).drop_last() =~= Seq::<char>::empty());
        reveal_with_fuel(value_of, 2);
    } else {
        law_digits_read_back(n / 10);
        let d = digits(n / 10).push(digit_char(n % 10));
        assert(d.drop_last() =~= digits(n / 10));
    }
}

/// A negative number is a minus sign and the number without its sign.
pub proof fn law_signed_digits_read_back(n: int)
    ensures
        n >= 0 ==> value_of(signed_digits(n)) == n,
        n < 0 ==> signed_digits(n)[0] == '-' && value_of(signed_digits(n).skip(1)) == -n,
{
    law_digits_read_back(n as nat);
    law_digits_read_back((-n) as nat);
    if n < 0 {
        assert(signed_digits(n).skip(1) =~= digits((-n) as nat));
    }
}

/// The texts of some strings are those of each string, in order, and the text of a
/// string that may be absent is there where the string is.
pub proof fn law_texts_of_strings(strings: Seq<String>, s: String, i: int)
    ensures
        texts_of(strings).len() == strings.len(),
        0 <= i < strings.len() ==> texts_of(strings)[i] == strings[i]@,
        text_of(Some(s)) == Some(s@),
        text_of(None) is None,
{
}

/// A letter and the letter 32 code points after it are the same in two cases; two
/// texts that differ in case only still do with such letters after them.
pub proof fn law_letters_in_two_cases(s: Seq<char>, t: Seq<char>, c: char, d: char)
    requires
        same_letters(s, t),
        (c as int) < 128,
    ensures
        same_letters(Seq::empty(), Seq::empty()),
        same_letters(s.push(c), t.push(c)),
        'A' as int <= c as int <= 'Z' as int && d as int == c as int + 32 ==> same_letters(
            s.push(c),
            t.push(d),
        ) && same_letters(s.push(d), t.push(c)),
{
}

/// ASCII has the tab, the line feed, the vertical tab, the form feed, the carriage
/// return and the space as white space, and Unicode no more than nineteen others.
pub proof fn law_white_space(c: char)
    ensures
        ({
            let n = c as int;
            &&& n < 0x80 ==> (white_space(c) <==> n == 0x20 || n == 0x9 || n == 0xa || n == 0xb || n
                == 0xc || n == 0xd)
            &&& 0x80 <= n < 0x2000 ==> (white_space(c) <==> n == 0x85 || n == 0xa0 || n == 0x1680)
            &&& 0x2000 <= n < 0x2010 ==> (white_space(c) <==> n <= 0x200a)
            &&& 0x2010 <= n ==> (white_space(c) <==> n == 0x2028 || n == 0x2029 || n == 0x202f || n
                == 0x205f || n == 0x3000)
        }),
{
}

} // verus!
