//! Character-level text helpers over `str`: whitespace, trimming and
//! splitting at the first occurrence of a separator.

use vstd::prelude::*;

verus! {

/// The Unicode `White_Space` property, which `char::is_whitespace` tests.
pub open spec fn is_ws(c: char) -> bool {
    ('\u{9}' <= c && c <= '\u{d}') || c == ' ' || c == '\u{85}' || c == '\u{a0}' || c
        == '\u{1680}' || ('\u{2000}' <= c && c <= '\u{200a}') || c == '\u{2028}' || c == '\u{2029}'
        || c == '\u{202f}' || c == '\u{205f}' || c == '\u{3000}'
}

pub fn is_whitespace(c: char) -> (b: bool)
    ensures
        b == is_ws(c),
{
    ('\u{9}' <= c && c <= '\u{d}') || c == ' ' || c == '\u{85}' || c == '\u{a0}' || c
        == '\u{1680}' || ('\u{2000}' <= c && c <= '\u{200a}') || c == '\u{2028}' || c == '\u{2029}'
        || c == '\u{202f}' || c == '\u{205f}' || c == '\u{3000}'
}

/// `s` without its leading whitespace.
pub open spec fn trim_start(s: Seq<char>) -> Seq<char>
    decreases s.len(),
{
    if s.len() > 0 && is_ws(s[0]) {
        trim_start(s.subrange(1, s.len() as int))
    } else {
        s
    }
}

/// `s` without its trailing whitespace.
pub open spec fn trim_end(s: Seq<char>) -> Seq<char>
    decreases s.len(),
{
    if s.len() > 0 && is_ws(s.last()) {
        trim_end(s.drop_last())
    } else {
        s
    }
}

/// `s` without leading and trailing whitespace.
pub open spec fn trim(s: Seq<char>) -> Seq<char> {
    trim_end(trim_start(s))
}

/// `pat` occurs in `s` at index `i`.
pub open spec fn occurs_at(s: Seq<char>, pat: Seq<char>, i: int) -> bool {
    0 <= i && i + pat.len() <= s.len() && s.subrange(i, i + pat.len()) == pat
}

/// The index of the first occurrence of `pat` in `s`.
pub open spec fn first_occurrence(s: Seq<char>, pat: Seq<char>) -> Option<int> {
    if exists|i: int| occurs_at(s, pat, i) {
        Some(choose|i: int| occurs_at(s, pat, i) && forall|j: int| 0 <= j < i ==> !occurs_at(s, pat, j))
    } else {
        None
    }
}

/// `s` split around the first occurrence of `pat`.
pub open spec fn split_once(s: Seq<char>, pat: Seq<char>) -> Option<(Seq<char>, Seq<char>)> {
    match first_occurrence(s, pat) {
        Some(i) => Some((s.subrange(0, i), s.subrange(i + pat.len(), s.len() as int))),
        None => None,
    }
}

/// Whether `pat` occurs at character index `i` of `s`.
pub fn matches_at(s: &str, n: usize, pat: &str, m: usize, i: usize) -> (b: bool)
    requires
        n == s@.len(),
        m == pat@.len(),
        i + m <= n,
    ensures
        b == occurs_at(s@, pat@, i as int),
{
    let mut k: usize = 0;
    while k < m
        invariant
            n == s@.len(),
            m == pat@.len(),
            i + m <= n,
            k <= m,
            forall|t: int| 0 <= t < k ==> s@[i + t] == pat@[t],
        decreases m - k,
    {
        if s.get_char(i + k) != pat.get_char(k) {
            assert(s@.subrange(i as int, i + m)[k as int] != pat@[k as int]);
            return false;
        }
        k += 1;
    }
    assert(s@.subrange(i as int, i + m) =~= pat@);
    true
}

/// The character index of the first occurrence of `pat` in `s`.
pub fn find(s: &str, pat: &str) -> (r: Option<usize>)
    ensures
        r matches Some(i) ==> first_occurrence(s@, pat@) == Some(i as int) && occurs_at(
            s@,
            pat@,
            i as int,
        ),
        r is None ==> first_occurrence(s@, pat@) is None,
{
    let n = s.unicode_len();
    let m = pat.unicode_len();
    if m > n {
        assert forall|j: int| !occurs_at(s@, pat@, j) by {}
        return None;
    }
    if m == 0 {
        proof {
            assert(s@.subrange(0, 0) =~= pat@);
            assert(occurs_at(s@, pat@, 0));
            let k = choose|k: int|
                occurs_at(s@, pat@, k) && forall|j: int| 0 <= j < k ==> !occurs_at(s@, pat@, j);
            if k > 0 {
                assert(!occurs_at(s@, pat@, 0));
            }
        }
        return Some(0);
    }
    let mut i: usize = 0;
    while i <= n - m
        invariant
            n == s@.len(),
            m == pat@.len(),
            0 < m <= n,
            i <= n - m + 1,
            forall|j: int| 0 <= j < i ==> !occurs_at(s@, pat@, j),
        decreases n - i,
    {
        if matches_at(s, n, pat, m, i) {
            proof {
                let k = choose|k: int|
                    occurs_at(s@, pat@, k) && forall|j: int| 0 <= j < k ==> !occurs_at(s@, pat@, j);
                if k < i {
                } else if k > i {
                    assert(!occurs_at(s@, pat@, i as int));
                }
            }
            return Some(i);
        }
        i += 1;
    }
    assert forall|j: int| !occurs_at(s@, pat@, j) by {
        if 0 <= j && j < i {
        }
    }
    None
}

proof fn lemma_trim_start_step(s: Seq<char>, a: int)
    requires
        0 <= a < s.len(),
        is_ws(s[a]),
    ensures
        trim_start(s.subrange(a, s.len() as int)) == trim_start(s.subrange(a + 1, s.len() as int)),
{
    let t = s.subrange(a, s.len() as int);
    assert(t.subrange(1, t.len() as int) =~= s.subrange(a + 1, s.len() as int));
}

proof fn lemma_trim_end_step(s: Seq<char>, b: int)
    requires
        0 < b <= s.len(),
        is_ws(s[b - 1]),
    ensures
        trim_end(s.subrange(0, b)) == trim_end(s.subrange(0, b - 1)),
{
    let t = s.subrange(0, b);
    assert(t.drop_last() =~= s.subrange(0, b - 1));
}

/// `s` with leading and trailing whitespace removed.
pub fn trim_str(s: &str) -> (r: &str)
    ensures
        r@ == trim(s@),
{
    let n = s.unicode_len();
    let mut a: usize = 0;
    proof {
        assert(s@.subrange(0, n as int) =~= s@);
    }
    while a < n && is_whitespace(s.get_char(a))
        invariant
            n == s@.len(),
            a <= n,
            trim_start(s@) == trim_start(s@.subrange(a as int, n as int)),
        decreases n - a,
    {
        proof {
            lemma_trim_start_step(s@, a as int);
        }
        a += 1;
    }
    let ghost rest = s@.subrange(a as int, n as int);
    assert(trim_start(s@) == rest);
    let mut b: usize = n;
    proof {
        assert(rest.subrange(0, (b - a) as int) =~= rest);
    }
    while b > a && is_whitespace(s.get_char(b - 1))
        invariant
            n == s@.len(),
            a <= b <= n,
            rest == s@.subrange(a as int, n as int),
            trim_end(rest) == trim_end(rest.subrange(0, (b - a) as int)),
        decreases b - a,
    {
        proof {
            assert(rest[(b - a - 1) as int] == s@[b - 1]);
            lemma_trim_end_step(rest, (b - a) as int);
        }
        b -= 1;
    }
    proof {
        assert(rest.subrange(0, (b - a) as int) =~= s@.subrange(a as int, b as int));
    }
    s.substring_char(a, b)
}


pub open spec fn is_digit(c: char) -> bool {
    '0' <= c && c <= '9'
}

pub open spec fn digit_value(c: char) -> int {
    c as int - '0' as int
}

pub open spec fn all_digits(d: Seq<char>) -> bool {
    forall|i: int| 0 <= i < d.len() ==> is_digit(#[trigger] d[i])
}

/// The decimal value of a run of digits.
pub open spec fn decimal_value(s: Seq<char>) -> int
    decreases s.len(),
{
    if s.len() == 0 {
        0
    } else {
        decimal_value(s.drop_last()) * 10 + digit_value(s.last())
    }
}

/// The digits of an unsigned decimal literal: an optional leading `+`
/// followed by at least one digit, and nothing else.
pub open spec fn unsigned_digits(s: Seq<char>) -> Option<Seq<char>> {
    let d = if s.len() > 0 && s[0] == '+' {
        s.subrange(1, s.len() as int)
    } else {
        s
    };
    if d.len() > 0 && all_digits(d) {
        Some(d)
    } else {
        None
    }
}

/// The value of an unsigned decimal literal when it is at most `max`, as
/// the standard unsigned integer parsers accept it (no surrounding
/// whitespace).
pub open spec fn parsed_unsigned(s: Seq<char>, max: int) -> Option<int> {
    match unsigned_digits(s) {
        Some(d) => if decimal_value(d) <= max {
            Some(decimal_value(d))
        } else {
            None
        },
        None => None,
    }
}

proof fn lemma_decimal_value_grows(d: Seq<char>, i: int)
    requires
        0 <= i <= d.len(),
        forall|k: int| 0 <= k < d.len() ==> is_digit(d[k]),
    ensures
        decimal_value(d.subrange(0, i)) <= decimal_value(d),
        decimal_value(d) >= 0,
    decreases d.len(),
{
    if d.len() > 0 {
        lemma_decimal_value_grows(d.drop_last(), if i == d.len() { i - 1 } else { i });
        if i == d.len() {
            assert(d.subrange(0, i) =~= d);
        } else {
            assert(d.drop_last().subrange(0, i) =~= d.subrange(0, i));
        }
    }
}

/// Parses an unsigned decimal literal whose value is at most `max`.
pub fn parse_unsigned(s: &str, max: u64) -> (r: Option<u64>)
    ensures
        match r {
            Some(v) => parsed_unsigned(s@, max as int) == Some(v as int),
            None => parsed_unsigned(s@, max as int) is None,
        },
{
    let n = s.unicode_len();
    let start: usize = if n > 0 && s.get_char(0) == '+' { 1 } else { 0 };
    let ghost d = if s@.len() > 0 && s@[0] == '+' {
        s@.subrange(1, s@.len() as int)
    } else {
        s@
    };
    assert(d =~= s@.subrange(start as int, n as int));
    if start >= n {
        return None;
    }
    let mut acc: u128 = 0;
    let mut i: usize = start;
    while i < n
        invariant
            n == s@.len(),
            start <= i <= n,
            d == s@.subrange(start as int, n as int),
            d == (if s@.len() > 0 && s@[0] == '+' {
                s@.subrange(1, s@.len() as int)
            } else {
                s@
            }),
            forall|k: int| start <= k < i ==> is_digit(s@[k]),
            acc == decimal_value(s@.subrange(start as int, i as int)),
            acc <= max,
        decreases n - i,
    {
        let c = s.get_char(i);
        if c < '0' || c > '9' {
            assert(!is_digit(d[i - start]));
            assert(!all_digits(d));
            assert(unsigned_digits(s@) is None);
            return None;
        }
        let digit = (c as u32 - '0' as u32) as u128;
        let next = acc * 10 + digit;
        proof {
            let p = s@.subrange(start as int, i + 1);
            assert(p.drop_last() =~= s@.subrange(start as int, i as int));
            assert(p.last() == c);
        }
        if next > max as u128 {
            proof {
                if all_digits(d) {
                    lemma_decimal_value_grows(d, i + 1 - start);
                    assert(d.subrange(0, i + 1 - start) =~= s@.subrange(start as int, i + 1));
                    assert(decimal_value(d) > max);
                    assert(unsigned_digits(s@) == Some(d));
                } else {
                    assert(unsigned_digits(s@) is None);
                }
            }
            return None;
        }
        acc = next;
        i += 1;
    }
    assert(s@.subrange(start as int, n as int) =~= d);
    Some(acc as u64)
}

/// The character of a decimal digit.
pub open spec fn digit_char(d: int) -> char {
    if d == 0 {
        '0'
    } else if d == 1 {
        '1'
    } else if d == 2 {
        '2'
    } else if d == 3 {
        '3'
    } else if d == 4 {
        '4'
    } else if d == 5 {
        '5'
    } else if d == 6 {
        '6'
    } else if d == 7 {
        '7'
    } else if d == 8 {
        '8'
    } else {
        '9'
    }
}

/// The decimal representation of `n`, without leading zeros.
pub open spec fn decimal_text(n: nat) -> Seq<char>
    decreases n,
{
    if n < 10 {
        seq![digit_char(n as int)]
    } else {
        decimal_text(n / 10).push(digit_char((n % 10) as int))
    }
}

fn digit_str(d: u128) -> (s: &'static str)
    requires
        d < 10,
    ensures
        s@ == seq![digit_char(d as int)],
{
    proof {
        reveal_strlit("0");
        reveal_strlit("1");
        reveal_strlit("2");
        reveal_strlit("3");
        reveal_strlit("4");
        reveal_strlit("5");
        reveal_strlit("6");
        reveal_strlit("7");
        reveal_strlit("8");
        reveal_strlit("9");
    }
    let s = match d {
        0 => "0",
        1 => "1",
        2 => "2",
        3 => "3",
        4 => "4",
        5 => "5",
        6 => "6",
        7 => "7",
        8 => "8",
        _ => "9",
    };
    assert(s@ =~= seq![digit_char(d as int)]);
    s
}

/// Appends the decimal representation of `n` to `out`.
pub fn push_decimal(out: &mut String, n: u128)
    ensures
        final(out)@ == old(out)@ + decimal_text(n as nat),
    decreases n,
{
    if n >= 10 {
        push_decimal(out, n / 10);
    }
    out.append(digit_str(n % 10));
    proof {
        if n >= 10 {
            assert(old(out)@ + decimal_text((n / 10) as nat) + seq![digit_char((n % 10) as int)]
                =~= old(out)@ + decimal_text(n as nat));
        } else {
            assert(old(out)@ + seq![digit_char((n % 10) as int)] =~= old(out)@ + decimal_text(
                n as nat,
            ));
        }
    }
}
/// `a` comes strictly before `b` in character order: at the first position
/// where they differ `a` has the smaller character, or `a` is a proper
/// prefix of `b`. Characters order as their UTF-8 bytes do, so this is also
/// the byte order of the two texts.
pub open spec fn text_before(a: Seq<char>, b: Seq<char>) -> bool
    decreases a.len(),
{
    if b.len() == 0 {
        false
    } else if a.len() == 0 {
        true
    } else if a[0] != b[0] {
        (a[0] as u32) < (b[0] as u32)
    } else {
        text_before(a.drop_first(), b.drop_first())
    }
}

/// No text comes before itself.
pub proof fn lemma_text_before_irreflexive(a: Seq<char>)
    ensures
        !text_before(a, a),
    decreases a.len(),
{
    if a.len() > 0 {
        lemma_text_before_irreflexive(a.drop_first());
    }
}

/// Character order is transitive.
pub proof fn lemma_text_before_transitive(a: Seq<char>, b: Seq<char>, c: Seq<char>)
    requires
        text_before(a, b),
        text_before(b, c),
    ensures
        text_before(a, c),
    decreases a.len(),
{
    if a.len() > 0 && b.len() > 0 && c.len() > 0 && a[0] == b[0] && b[0] == c[0] {
        lemma_text_before_transitive(a.drop_first(), b.drop_first(), c.drop_first());
    }
}

/// Whether `a` comes strictly before `b` in character order.
pub fn is_text_before(a: &str, b: &str) -> (r: bool)
    ensures
        r == text_before(a@, b@),
{
    let n = a.unicode_len();
    let m = b.unicode_len();
    let mut i: usize = 0;
    assert(a@.skip(0) =~= a@);
    assert(b@.skip(0) =~= b@);
    while i < n && i < m
        invariant
            n == a@.len(),
            m == b@.len(),
            i <= n,
            i <= m,
            text_before(a@, b@) == text_before(a@.skip(i as int), b@.skip(i as int)),
        decreases n - i,
    {
        let x = a.get_char(i);
        let y = b.get_char(i);
        if x != y {
            return (x as u32) < (y as u32);
        }
        proof {
            assert(a@.skip(i as int).drop_first() =~= a@.skip(i + 1));
            assert(b@.skip(i as int).drop_first() =~= b@.skip(i + 1));
        }
        i += 1;
    }
    i < m
}

/// The decimal text of a number is a run of digits whose value is the
/// number, so the unsigned parser reads it back whenever it fits the bound.
pub proof fn lemma_decimal_text_parses(n: nat, max: int)
    ensures
        decimal_text(n).len() > 0,
        all_digits(decimal_text(n)),
        decimal_value(decimal_text(n)) == n,
        n <= max ==> parsed_unsigned(decimal_text(n), max) == Some(n as int),
    decreases n,
{
    let t = decimal_text(n);
    if n < 10 {
        lemma_digit_char_value(n as int);
        assert(t.drop_last() =~= Seq::<char>::empty());
        assert(decimal_value(t) == decimal_value(t.drop_last()) * 10 + digit_value(t.last()));
    } else {
        lemma_decimal_text_parses(n / 10, max);
        lemma_digit_char_value((n % 10) as int);
        let p = decimal_text(n / 10);
        assert(t.drop_last() =~= p);
        assert(decimal_value(t) == decimal_value(p) * 10 + digit_value(t.last()));
        assert((n / 10) * 10 + n % 10 == n);
        assert forall|i: int| 0 <= i < t.len() implies is_digit(#[trigger] t[i]) by {
            if i < p.len() {
                assert(t[i] == p[i]);
            }
        }
    }
    assert(!(t[0] == '+'));
}

proof fn lemma_digit_char_value(d: int)
    requires
        0 <= d < 10,
    ensures
        is_digit(digit_char(d)),
        digit_value(digit_char(d)) == d,
{
}

/// A run of digits is its own trimmed form, also with a trailing newline.
pub proof fn lemma_digits_trim(d: Seq<char>)
    requires
        d.len() > 0,
        all_digits(d),
    ensures
        trim(d) == d,
        trim(d + seq!['\n']) == d,
{
    let e = d + seq!['\n'];
    assert(is_digit(d[0]) && is_digit(d.last()));
    assert(e[0] == d[0]);
    assert(e.drop_last() =~= d);
    assert(trim_start(d) == d);
    assert(trim_end(d) == d);
    assert(trim_start(e) == e);
    assert(e.last() == '\n');
    assert(is_ws(e.last()));
    assert(trim_end(e) == trim_end(e.drop_last()));
}

} // verus!
