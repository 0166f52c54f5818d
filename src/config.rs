//! Reading the controller's settings: the namespaces it watches and its poll
//! interval.

use vstd::prelude::*;

verus! {

/// Namespace watched when none are configured.
pub const DEFAULT_NAMESPACES: &'static str = "default";

/// Poll interval, in seconds, when none is configured.
pub const DEFAULT_INTERVAL_SECS: u64 = 60;

/// `s` with every `c` taken out.
pub open spec fn without_char(s: Seq<char>, c: char) -> Seq<char>
    decreases s.len(),
{
    if s.len() == 0 {
        s
    } else if s.last() == c {
        without_char(s.drop_last(), c)
    } else {
        without_char(s.drop_last(), c).push(s.last())
    }
}

/// The pieces of `s` between occurrences of `c`, in order; an empty string
/// gives one empty piece.
pub open spec fn split_on(s: Seq<char>, c: char) -> Seq<Seq<char>>
    decreases s.len(),
{
    if s.len() == 0 {
        seq![Seq::<char>::empty()]
    } else {
        let pieces = split_on(s.drop_last(), c);
        if s.last() == c {
            pieces.push(Seq::<char>::empty())
        } else {
            pieces.update(pieces.len() - 1, pieces.last().push(s.last()))
        }
    }
}

/// The namespaces named by a comma-separated list; spaces are ignored.
pub open spec fn namespaces_spec(list: Seq<char>) -> Seq<Seq<char>> {
    split_on(without_char(list, ' '), ',')
}

/// `s` with its spaces taken out.
fn remove_spaces(s: &str) -> (r: String)
    ensures
        r@ == without_char(s@, ' '),
{
    let n = s.unicode_len();
    let mut out = String::new();
    let mut i: usize = 0;
    while i < n
        invariant
            n == s@.len(),
            i <= n,
            out@ == without_char(s@.take(i as int), ' '),
        decreases n - i,
    {
        let ch = s.get_char(i);
        assert(s@.take(i + 1).drop_last() =~= s@.take(i as int));
        if ch != ' ' {
            let piece = s.substring_char(i, i + 1);
            assert(piece@ =~= seq![ch]);
            out.append(piece);
            assert(out@ =~= without_char(s@.take(i + 1), ' '));
        }
        i = i + 1;
    }
    assert(s@.take(n as int) =~= s@);
    out
}

/// The pieces of `s` between commas.
fn split_commas(s: &str) -> (r: Vec<String>)
    ensures
        r@.map_values(|p: String| p@) == split_on(s@, ','),
{
    let n = s.unicode_len();
    let mut pieces: Vec<String> = Vec::new();
    let mut start: usize = 0;
    let mut i: usize = 0;
    assert(pieces@.map_values(|p: String| p@) =~= Seq::<Seq<char>>::empty());
    assert(s@.subrange(0, 0) =~= Seq::<char>::empty());
    assert(pieces@.map_values(|p: String| p@).push(s@.subrange(0, 0)) =~= seq![Seq::<char>::empty()]);
    assert(s@.take(0) =~= Seq::<char>::empty());
    while i < n
        invariant
            n == s@.len(),
            start <= i <= n,
            pieces@.map_values(|p: String| p@).push(s@.subrange(start as int, i as int))
                == split_on(s@.take(i as int), ','),
        decreases n - i,
    {
        let ch = s.get_char(i);
        let ghost before = pieces@.map_values(|p: String| p@);
        assert(s@.take(i + 1).drop_last() =~= s@.take(i as int));
        if ch == ',' {
            pieces.push(String::from_str(s.substring_char(start, i)));
            assert(pieces@.map_values(|p: String| p@) =~= before.push(s@.subrange(start as int, i as int)));
            start = i + 1;
            assert(s@.subrange(start as int, i + 1) =~= Seq::<char>::empty());
        } else {
            assert(s@.subrange(start as int, i + 1) =~= s@.subrange(start as int, i as int).push(ch));
            assert(before.push(s@.subrange(start as int, i + 1)) =~= before.push(
                s@.subrange(start as int, i as int),
            ).update(before.len() as int, s@.subrange(start as int, i as int).push(ch)));
        }
        i = i + 1;
    }
    let ghost before = pieces@.map_values(|p: String| p@);
    pieces.push(String::from_str(s.substring_char(start, n)));
    assert(pieces@.map_values(|p: String| p@) =~= before.push(s@.subrange(start as int, n as int)));
    assert(s@.take(n as int) =~= s@);
    pieces
}

/// The namespaces named by a comma-separated list, such as
/// `"team-a, team-b"`; spaces are ignored.
pub fn parse_namespaces(list: &str) -> (r: Vec<String>)
    ensures
        r@.map_values(|p: String| p@) == namespaces_spec(list@),
{
    let compact = remove_spaces(list);
    split_commas(compact.as_str())
}

/// Value of a string of decimal digits.
pub open spec fn decimal_value(s: Seq<char>) -> nat
    decreases s.len(),
{
    if s.len() == 0 {
        0
    } else {
        10 * decimal_value(s.drop_last()) + (s.last() as int - '0' as int) as nat
    }
}

pub open spec fn is_digit(c: char) -> bool {
    '0' <= c && c <= '9'
}

/// The digits of an interval setting: the text after an optional leading "+".
pub open spec fn interval_digits(s: Seq<char>) -> Seq<char> {
    if s.len() > 0 && s[0] == '+' {
        s.skip(1)
    } else {
        s
    }
}

pub open spec fn all_digits(d: Seq<char>) -> bool {
    forall|i: int| 0 <= i < d.len() ==> is_digit(#[trigger] d[i])
}

/// The number of seconds an interval setting names, if it is a decimal
/// number, with an optional "+", that fits in 64 bits.
pub open spec fn interval_spec(s: Seq<char>) -> Option<u64> {
    let d = interval_digits(s);
    if d.len() > 0 && all_digits(d) && decimal_value(d) <= u64::MAX {
        Some(decimal_value(d) as u64)
    } else {
        None
    }
}

proof fn lemma_decimal_value_grows(s: Seq<char>, i: int)
    requires
        0 <= i <= s.len(),
        forall|j: int| 0 <= j < s.len() ==> is_digit(#[trigger] s[j]),
    ensures
        decimal_value(s.take(i)) <= decimal_value(s),
    decreases s.len(),
{
    if i < s.len() {
        assert(s.drop_last().take(i) =~= s.take(i));
        assert forall|j: int| 0 <= j < s.drop_last().len() implies is_digit(#[trigger] s.drop_last()[j]) by {
            assert(s.drop_last()[j] == s[j]);
        }
        lemma_decimal_value_grows(s.drop_last(), i);
    } else {
        assert(s.take(i) =~= s);
    }
}

/// The poll interval in seconds that a setting names; `None` where it is not
/// a decimal number that fits in 64 bits.
pub fn parse_interval(s: &str) -> (r: Option<u64>)
    ensures
        r == interval_spec(s@),
{
    let n = s.unicode_len();
    let skip: usize = if n > 0 && s.get_char(0) == '+' { 1 } else { 0 };
    let digits = s.substring_char(skip, n);
    let ghost d = digits@;
    assert(d =~= interval_digits(s@));
    let m = digits.unicode_len();
    if m == 0 {
        return None;
    }
    let mut value: u64 = 0;
    let mut i: usize = 0;
    while i < m
        invariant
            m == d.len(),
            d == digits@,
            d == interval_digits(s@),
            i <= m,
            forall|j: int| 0 <= j < i ==> is_digit(#[trigger] d[j]),
            value == decimal_value(d.take(i as int)),
        decreases m - i,
    {
        let ch = digits.get_char(i);
        let code = ch as u32;
        if code < 48 || code > 57 {
            assert(!is_digit(d[i as int]));
            assert(!all_digits(d));
            return None;
        }
        assert(d.take(i + 1).drop_last() =~= d.take(i as int));
        let digit = (code - 48) as u64;
        assert(decimal_value(d.take(i + 1)) == 10 * value + digit);
        let next = match value.checked_mul(10) {
            Some(v) => v.checked_add(digit),
            None => None,
        };
        match next {
            Some(v) => {
                value = v;
            },
            None => {
                proof {
                    if all_digits(d) {
                        lemma_decimal_value_grows(d, i + 1);
                    }
                }
                return None;
            },
        }
        i = i + 1;
    }
    assert(d.take(m as int) =~= d);
    Some(value)
}

} // verus!
