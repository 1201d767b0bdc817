//! Three-way comparison of the values by which rows are sorted, and the proof
//! that it is a total order.
use vstd::prelude::*;

verus! {

/// How one value stands to another in an order.
#[derive(Clone, Copy, Debug, PartialEq, Eq, Structural)]
pub enum Rank {
    Before,
    Same,
    After,
}

impl Rank {
    /// The rank as a sign: negative for `Before`, zero for `Same`.
    pub open spec fn sign(self) -> int {
        match self {
            Rank::Before => -1,
            Rank::Same => 0,
            Rank::After => 1,
        }
    }

    /// The rank in the opposite direction.
    pub fn reversed(self) -> (r: Rank)
        ensures
            r.sign() == -self.sign(),
    {
        match self {
            Rank::Before => Rank::After,
            Rank::Same => Rank::Same,
            Rank::After => Rank::Before,
        }
    }
}

/// A value that rows are sorted by: a number or a text, either of which may be
/// absent.
pub enum SortValue {
    Number(Option<int>),
    Text(Option<Seq<char>>),
}

/// The sign of the comparison of two numbers.
pub open spec fn compare_numbers(a: int, b: int) -> int {
    if a < b {
        -1
    } else if a > b {
        1
    } else {
        0
    }
}

/// The sign of the comparison of two texts, character by character in code
/// point order; a proper prefix comes first.
pub open spec fn compare_texts(a: Seq<char>, b: Seq<char>) -> int
    decreases a.len(),
{
    if a.len() == 0 || b.len() == 0 {
        compare_numbers(a.len() as int, b.len() as int)
    } else if a[0] != b[0] {
        compare_numbers(a[0] as int, b[0] as int)
    } else {
        compare_texts(a.skip(1), b.skip(1))
    }
}

/// The sign of the comparison of two sort values. An absent value comes before
/// a present one, and a number before a text.
pub open spec fn compare_values(a: SortValue, b: SortValue) -> int {
    match (a, b) {
        (SortValue::Number(x), SortValue::Number(y)) => match (x, y) {
            (Some(m), Some(n)) => compare_numbers(m, n),
            (Some(_), None) => 1,
            (None, Some(_)) => -1,
            (None, None) => 0,
        },
        (SortValue::Text(x), SortValue::Text(y)) => match (x, y) {
            (Some(s), Some(t)) => compare_texts(s, t),
            (Some(_), None) => 1,
            (None, Some(_)) => -1,
            (None, None) => 0,
        },
        (SortValue::Number(_), SortValue::Text(_)) => -1,
        (SortValue::Text(_), SortValue::Number(_)) => 1,
    }
}

/// The comparison of texts is antisymmetric, and only equal texts compare as
/// equal.
pub proof fn lemma_compare_texts_antisymmetric(a: Seq<char>, b: Seq<char>)
    ensures
        compare_texts(a, b) == -compare_texts(b, a),
        compare_texts(a, b) == 0 <==> a == b,
        -1 <= compare_texts(a, b) <= 1,
    decreases a.len(),
{
    if a.len() == 0 || b.len() == 0 {
        if a.len() == b.len() {
            assert(a =~= b);
        }
    } else if a[0] == b[0] {
        lemma_compare_texts_antisymmetric(a.skip(1), b.skip(1));
        if a.skip(1) == b.skip(1) {
            assert(a =~= seq![a[0]] + a.skip(1));
            assert(b =~= seq![b[0]] + b.skip(1));
        }
    }
}

/// The comparison of texts is transitive.
pub proof fn lemma_compare_texts_transitive(a: Seq<char>, b: Seq<char>, c: Seq<char>)
    requires
        compare_texts(a, b) <= 0,
        compare_texts(b, c) <= 0,
    ensures
        compare_texts(a, c) <= 0,
    decreases a.len(),
{
    if a.len() > 0 && b.len() > 0 && c.len() > 0 && a[0] == b[0] && b[0] == c[0] {
        lemma_compare_texts_transitive(a.skip(1), b.skip(1), c.skip(1));
    }
}

/// The comparison of sort values is antisymmetric, and only equal values
/// compare as equal.
pub proof fn lemma_compare_values_antisymmetric(a: SortValue, b: SortValue)
    ensures
        compare_values(a, b) == -compare_values(b, a),
        compare_values(a, b) == 0 <==> a == b,
        -1 <= compare_values(a, b) <= 1,
{
    if let (SortValue::Text(Some(s)), SortValue::Text(Some(t))) = (a, b) {
        lemma_compare_texts_antisymmetric(s, t);
    }
}

/// The comparison of sort values is transitive.
pub proof fn lemma_compare_values_transitive(a: SortValue, b: SortValue, c: SortValue)
    requires
        compare_values(a, b) <= 0,
        compare_values(b, c) <= 0,
    ensures
        compare_values(a, c) <= 0,
{
    if let (SortValue::Text(Some(s)), SortValue::Text(Some(t)), SortValue::Text(Some(u))) = (
        a,
        b,
        c,
    ) {
        lemma_compare_texts_transitive(s, t, u);
    }
}

/// Compares two numbers.
pub fn compare_i128(a: i128, b: i128) -> (r: Rank)
    ensures
        r.sign() == compare_numbers(a as int, b as int),
{
    if a < b {
        Rank::Before
    } else if a > b {
        Rank::After
    } else {
        Rank::Same
    }
}

/// Compares two numbers that may be absent.
pub fn compare_number_options(a: Option<i128>, b: Option<i128>) -> (r: Rank)
    ensures
        r.sign() == compare_values(
            SortValue::Number(
                match a {
                    Some(n) => Some(n as int),
                    None => None,
                },
            ),
            SortValue::Number(
                match b {
                    Some(n) => Some(n as int),
                    None => None,
                },
            ),
        ),
{
    match (a, b) {
        (Some(m), Some(n)) => compare_i128(m, n),
        (Some(_), None) => Rank::After,
        (None, Some(_)) => Rank::Before,
        (None, None) => Rank::Same,
    }
}

/// Compares two texts.
pub fn compare_text(a: &str, b: &str) -> (r: Rank)
    ensures
        r.sign() == compare_texts(a@, b@),
{
    let mut x = a.chars();
    let mut y = b.chars();
    let ghost mut i: int = 0;
    assert(a@.skip(0) == a@ && b@.skip(0) == b@);
    loop
        invariant
            0 <= i <= a@.len(),
            i <= b@.len(),
            compare_texts(a@, b@) == compare_texts(a@.skip(i), b@.skip(i)),
            vstd::std_specs::iter::IteratorSpec::remaining(&x) == a@.skip(i),
            vstd::std_specs::iter::IteratorSpec::remaining(&y) == b@.skip(i),
        decreases a@.len() - i,
    {
        match (x.next(), y.next()) {
            (None, None) => {
                return Rank::Same;
            },
            (None, Some(_)) => {
                return Rank::Before;
            },
            (Some(_), None) => {
                return Rank::After;
            },
            (Some(c), Some(d)) => {
                if c < d {
                    return Rank::Before;
                }
                if c > d {
                    return Rank::After;
                }
            },
        }
        proof {
            assert(a@.skip(i).skip(1) == a@.skip(i + 1));
            assert(b@.skip(i).skip(1) == b@.skip(i + 1));
            i = i + 1;
        }
    }
}

/// Compares two texts that may be absent.
pub fn compare_text_options(a: &Option<String>, b: &Option<String>) -> (r: Rank)
    ensures
        r.sign() == compare_values(text_value(a), text_value(b)),
{
    match (a, b) {
        (Some(s), Some(t)) => compare_text(s.as_str(), t.as_str()),
        (Some(_), None) => Rank::After,
        (None, Some(_)) => Rank::Before,
        (None, None) => Rank::Same,
    }
}

/// A text that may be absent, as a sort value.
pub open spec fn text_value(s: &Option<String>) -> SortValue {
    SortValue::Text(
        match s {
            Some(t) => Some(t@),
            None => None,
        },
    )
}

/// Texts are ordered by their first difference, and a text comes before any that
/// goes on after it.
pub proof fn law_texts_are_ordered_by_their_first_difference(
    common: Seq<char>,
    c: char,
    d: char,
    s: Seq<char>,
    t: Seq<char>,
)
    ensures
        (c as int) < d as int ==> compare_texts(common + seq![c] + s, common + seq![d] + t) < 0
            && compare_texts(common + seq![d] + t, common + seq![c] + s) > 0,
        compare_texts(common, common + seq![c] + s) < 0,
        compare_texts(common + seq![c] + s, common) > 0,
        compare_texts(common, common) == 0,
    decreases common.len(),
{
    let a = common + seq![c] + s;
    let b = common + seq![d] + t;
    if common.len() > 0 {
        let rest = common.skip(1);
        law_texts_are_ordered_by_their_first_difference(rest, c, d, s, t);
        assert(a.skip(1) =~= rest + seq![c] + s);
        assert(b.skip(1) =~= rest + seq![d] + t);
    }
}

/// What comes before has a negative sign, what comes after a positive one.
pub proof fn law_signs_tell_ranks(rank: Rank)
    ensures
        rank.sign() < 0 <==> rank == Rank::Before,
        rank.sign() > 0 <==> rank == Rank::After,
        rank.sign() == 0 <==> rank == Rank::Same,
{
}

/// Numbers are compared by size, and what is absent comes first.
pub proof fn law_values_are_compared_by_size(m: int, n: int)
    ensures
        compare_values(SortValue::Number(Some(m)), SortValue::Number(Some(n))) < 0 <==> m < n,
        compare_values(SortValue::Number(Some(m)), SortValue::Number(Some(n))) > 0 <==> m > n,
        compare_values(SortValue::Number(None), SortValue::Number(Some(n))) < 0,
        compare_values(SortValue::Number(None), SortValue::Number(None)) == 0,
{
}

} // verus!
