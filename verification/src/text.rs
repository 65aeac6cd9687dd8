//! Text as a sequence of characters: trimming, splitting, and decimal numbers.

use vstd::prelude::*;

verus! {

/// Appends one character: `String::push`.
pub assume_specification[ String::push ](s: &mut String, c: char)
    ensures
        final(s)@ == old(s)@.push(c),
;

/// The characters with the Unicode property `White_Space`.
pub open spec fn is_white_space(c: char) -> bool {
    ||| '\u{9}' <= c <= '\u{d}'
    ||| c == ' '
    ||| c == '\u{85}'
    ||| c == '\u{a0}'
    ||| c == '\u{1680}'
    ||| '\u{2000}' <= c <= '\u{200a}'
    ||| c == '\u{2028}'
    ||| c == '\u{2029}'
    ||| c == '\u{202f}'
    ||| c == '\u{205f}'
    ||| c == '\u{3000}'
}

pub fn white_space(c: char) -> (result: bool)
    ensures
        result == is_white_space(c),
{
    ('\u{9}' <= c && c <= '\u{d}') || c == ' ' || c == '\u{85}' || c == '\u{a0}' || c == '\u{1680}'
        || ('\u{2000}' <= c && c <= '\u{200a}') || c == '\u{2028}' || c == '\u{2029}'
        || c == '\u{202f}' || c == '\u{205f}' || c == '\u{3000}'
}

/// `s` without the characters in front that `drop` holds of.
pub open spec fn strip_front(s: Seq<char>, drop: spec_fn(char) -> bool) -> Seq<char>
    decreases s.len(),
{
    if s.len() > 0 && drop(s[0]) {
        strip_front(s.skip(1), drop)
    } else {
        s
    }
}

/// `s` without the characters at its end that `drop` holds of.
pub open spec fn strip_back(s: Seq<char>, drop: spec_fn(char) -> bool) -> Seq<char>
    decreases s.len(),
{
    if s.len() > 0 && drop(s.last()) {
        strip_back(s.drop_last(), drop)
    } else {
        s
    }
}

/// `s` without the characters at either end that `drop` holds of.
pub open spec fn strip(s: Seq<char>, drop: spec_fn(char) -> bool) -> Seq<char> {
    strip_back(strip_front(s, drop), drop)
}

/// `s` without white space at either end.
pub open spec fn trimmed(s: Seq<char>) -> Seq<char> {
    strip(s, |c: char| is_white_space(c))
}

pub proof fn lemma_strip_front(s: Seq<char>, drop: spec_fn(char) -> bool, n: int)
    requires
        0 <= n <= s.len(),
        forall|j: int| 0 <= j < n ==> drop(s[j]),
        n < s.len() ==> !drop(s[n]),
    ensures
        strip_front(s, drop) == s.skip(n),
    decreases n,
{
    if n == 0 {
        assert(s.skip(0) =~= s);
    } else {
        lemma_strip_front(s.skip(1), drop, n - 1);
        assert(s.skip(1).skip(n - 1) =~= s.skip(n));
    }
}

pub proof fn lemma_strip_back(s: Seq<char>, drop: spec_fn(char) -> bool, n: int)
    requires
        0 <= n <= s.len(),
        forall|j: int| n <= j < s.len() ==> drop(s[j]),
        n > 0 ==> !drop(s[n - 1]),
    ensures
        strip_back(s, drop) == s.take(n),
    decreases s.len(),
{
    if n == s.len() {
        assert(s.take(n) =~= s);
    } else {
        lemma_strip_back(s.drop_last(), drop, n);
        assert(s.drop_last().take(n) =~= s.take(n));
    }
}

/// A text whose ends are kept is kept whole.
pub proof fn lemma_strip_keeps(s: Seq<char>, drop: spec_fn(char) -> bool)
    requires
        s.len() > 0 ==> !drop(s[0]) && !drop(s.last()),
    ensures
        strip(s, drop) == s,
{
}

/// The characters of a text.
pub fn chars_of(s: &str) -> (chars: Vec<char>)
    ensures
        chars@ == s@,
{
    let mut chars: Vec<char> = Vec::new();
    for c in it: s.chars()
        invariant
            chars@ == s@.take(it.index() as int),
            it.seq() == s@,
    {
        chars.push(c);
        assert(chars@ =~= s@.take(it.index() as int + 1));
    }
    assert(chars@ =~= s@);
    chars
}

/// The text that the characters from `from` up to `to` form.
pub fn text_of(chars: &Vec<char>, from: usize, to: usize) -> (text: String)
    requires
        from <= to <= chars@.len(),
    ensures
        text@ == chars@.subrange(from as int, to as int),
{
    let mut text = String::new();
    let mut i: usize = from;
    while i < to
        invariant
            from <= i <= to <= chars@.len(),
            text@ == chars@.subrange(from as int, i as int),
        decreases to - i,
    {
        text.push(chars[i]);
        i += 1;
        assert(text@ =~= chars@.subrange(from as int, i as int));
    }
    text
}

/// Where the characters begin and end that stay when those at either end that `drop` holds
/// of are left out.
pub fn stripped_range(
    chars: &Vec<char>,
    drop: impl Fn(char) -> bool,
    Ghost(model): Ghost<spec_fn(char) -> bool>,
) -> (range: (usize, usize))
    requires
        forall|c: char| drop.requires((c,)),
        forall|c: char, b: bool| drop.ensures((c,), b) ==> b == model(c),
    ensures
        range.0 <= range.1 <= chars@.len(),
        strip(chars@, model) == chars@.subrange(range.0 as int, range.1 as int),
{
    let mut from: usize = 0;
    while from < chars.len() && drop(chars[from])
        invariant
            forall|c: char| drop.requires((c,)),
            forall|c: char, b: bool| drop.ensures((c,), b) ==> b == model(c),
            from <= chars@.len(),
            forall|j: int| 0 <= j < from ==> model(chars@[j]),
        ensures
            from <= chars@.len(),
            forall|j: int| 0 <= j < from ==> model(chars@[j]),
            from < chars@.len() ==> !model(chars@[from as int]),
        decreases chars@.len() - from,
    {
        from += 1;
    }
    let mut to: usize = chars.len();
    while to > from && drop(chars[to - 1])
        invariant
            forall|c: char| drop.requires((c,)),
            forall|c: char, b: bool| drop.ensures((c,), b) ==> b == model(c),
            from <= to <= chars@.len(),
            forall|j: int| to <= j < chars@.len() ==> model(chars@[j]),
        ensures
            from <= to <= chars@.len(),
            forall|j: int| to <= j < chars@.len() ==> model(chars@[j]),
            to > from ==> !model(chars@[to - 1]),
        decreases to,
    {
        to -= 1;
    }
    proof {
        lemma_strip_front(chars@, model, from as int);
        let rest = chars@.skip(from as int);
        lemma_strip_back(rest, model, to - from);
        assert(rest.take(to - from) =~= chars@.subrange(from as int, to as int));
    }
    (from, to)
}

/// A text without white space at either end.
pub fn trim(s: &str) -> (result: &str)
    ensures
        result@ == trimmed(s@),
{
    let chars = chars_of(s);
    let ghost model = |c: char| is_white_space(c);
    let range = stripped_range(&chars, white_space, Ghost(model));
    s.substring_char(range.0, range.1)
}

/// Whether two texts have the same characters.
pub fn same(a: &str, b: &str) -> (result: bool)
    ensures
        result == (a@ == b@),
{
    let x = chars_of(a);
    let y = chars_of(b);
    if x.len() != y.len() {
        return false;
    }
    let mut i: usize = 0;
    while i < x.len()
        invariant
            x@ == a@,
            y@ == b@,
            x@.len() == y@.len(),
            i <= x@.len(),
            x@.take(i as int) == y@.take(i as int),
        decreases x@.len() - i,
    {
        if x[i] != y[i] {
            assert(a@[i as int] != b@[i as int]);
            return false;
        }
        i += 1;
        assert(x@.take(i as int) =~= x@.take(i - 1).push(x@[i - 1]));
        assert(y@.take(i as int) =~= y@.take(i - 1).push(y@[i - 1]));
    }
    assert(x@.take(i as int) =~= x@);
    assert(y@.take(i as int) =~= y@);
    true
}

/// The two parts of `s` around the first `c`, if there is one.
pub open spec fn split_once(s: Seq<char>, c: char) -> Option<(Seq<char>, Seq<char>)> {
    match s.index_of_first(c) {
        Some(i) => Some((s.take(i), s.skip(i + 1))),
        None => None,
    }
}

pub proof fn lemma_split_once(s: Seq<char>, c: char, i: int)
    requires
        0 <= i < s.len(),
        s[i] == c,
        forall|j: int| 0 <= j < i ==> s[j] != c,
    ensures
        split_once(s, c) == Some((s.take(i), s.skip(i + 1))),
{
    s.index_of_first_ensures(c);
    assert(s.contains(c));
    let k = s.index_of_first(c)->0;
    assert(k == i) by {
        if k < i {
            assert(s[k] != c);
        }
        if i < k {
            assert(s[i] != c);
        }
    }
}

pub proof fn lemma_split_once_none(s: Seq<char>, c: char)
    requires
        forall|j: int| 0 <= j < s.len() ==> s[j] != c,
    ensures
        split_once(s, c) is None,
{
    s.index_of_first_ensures(c);
}

/// The parts are shorter than the whole, hold no `c` in front, and give the whole back.
pub proof fn lemma_split_once_parts(s: Seq<char>, c: char)
    ensures
        match split_once(s, c) {
            Some((a, b)) => {
                &&& s == a.push(c) + b
                &&& a.len() + 1 + b.len() == s.len()
                &&& !a.contains(c)
            },
            None => !s.contains(c),
        },
{
    s.index_of_first_ensures(c);
    if let Some((a, b)) = split_once(s, c) {
        assert(s =~= a.push(c) + b);
    }
}

/// A text put together around the first `c` comes apart there.
pub proof fn lemma_split_once_joined(a: Seq<char>, c: char, b: Seq<char>)
    requires
        !a.contains(c),
    ensures
        split_once(a.push(c) + b, c) == Some((a, b)),
{
    let s = a.push(c) + b;
    assert forall|j: int| 0 <= j < a.len() implies s[j] != c by {
        assert(a.contains(a[j]));
    }
    lemma_split_once(s, c, a.len() as int);
    assert(s.take(a.len() as int) =~= a);
    assert(s.skip(a.len() as int + 1) =~= b);
}

/// The parts of `s` between the characters `c`.
pub open spec fn split(s: Seq<char>, c: char) -> Seq<Seq<char>>
    decreases s.len(),
{
    match split_once(s, c) {
        Some((part, rest)) => {
            proof {
                lemma_split_once_parts(s, c);
            }
            seq![part] + split(rest, c)
        },
        None => seq![s],
    }
}

/// `line` without a carriage return at its end.
pub open spec fn without_return(line: Seq<char>) -> Seq<char> {
    if line.len() > 0 && line.last() == '\r' {
        line.drop_last()
    } else {
        line
    }
}

/// The lines of `s`. A line ends at a line feed, or at a carriage return and a line feed;
/// the last line may lack its end.
pub open spec fn lines(s: Seq<char>) -> Seq<Seq<char>>
    decreases s.len(),
{
    if s.len() == 0 {
        seq![]
    } else {
        match split_once(s, '\n') {
            Some((line, rest)) => {
                proof {
                    lemma_split_once_parts(s, '\n');
                }
                seq![without_return(line)] + lines(rest)
            },
            None => seq![s],
        }
    }
}

/// `s` without `prefix`, if it begins with it.
pub open spec fn without_prefix(s: Seq<char>, prefix: Seq<char>) -> Option<Seq<char>> {
    if prefix.len() <= s.len() && s.take(prefix.len() as int) == prefix {
        Some(s.skip(prefix.len() as int))
    } else {
        None
    }
}

/// The first place of `c` at or after `from`; the length where there is none.
pub fn find_from(chars: &Vec<char>, from: usize, c: char) -> (found: usize)
    requires
        from <= chars@.len(),
    ensures
        from <= found <= chars@.len(),
        forall|j: int| from <= j < found ==> chars@[j] != c,
        found < chars@.len() ==> chars@[found as int] == c,
{
    let mut i: usize = from;
    while i < chars.len() && chars[i] != c
        invariant
            from <= i <= chars@.len(),
            forall|j: int| from <= j < i ==> chars@[j] != c,
        ensures
            from <= i <= chars@.len(),
            forall|j: int| from <= j < i ==> chars@[j] != c,
            i < chars@.len() ==> chars@[i as int] == c,
        decreases chars@.len() - i,
    {
        i += 1;
    }
    i
}

/// The two parts of a text around the first `c`.
pub fn cut<'a>(s: &'a str, c: char) -> (parts: Option<(&'a str, &'a str)>)
    ensures
        parts.deep_view() == split_once(s@, c),
{
    let chars = chars_of(s);
    let i = find_from(&chars, 0, c);
    if i < chars.len() {
        proof {
            lemma_split_once(s@, c, i as int);
        }
        assert(s@.subrange(0, i as int) =~= s@.take(i as int));
        assert(s@.subrange(i + 1, s@.len() as int) =~= s@.skip(i + 1));
        Some((s.substring_char(0, i), s.substring_char(i + 1, chars.len())))
    } else {
        proof {
            lemma_split_once_none(s@, c);
        }
        None
    }
}

/// A text without `prefix`, if it begins with it.
pub fn strip_prefix<'a>(s: &'a str, prefix: &str) -> (rest: Option<&'a str>)
    ensures
        rest.deep_view() == without_prefix(s@, prefix@),
{
    let chars = chars_of(s);
    let n = chars_of(prefix).len();
    if n <= chars.len() && same(s.substring_char(0, n), prefix) {
        assert(s@.subrange(0, n as int) =~= s@.take(n as int));
        assert(s@.subrange(n as int, s@.len() as int) =~= s@.skip(n as int));
        Some(s.substring_char(n, chars.len()))
    } else {
        assert(n <= s@.len() ==> s@.subrange(0, n as int) =~= s@.take(n as int));
        None
    }
}

/// The texts that lie at `ranges` in `chars`.
pub open spec fn at_ranges(chars: Seq<char>, ranges: Seq<(usize, usize)>) -> Seq<Seq<char>> {
    Seq::new(ranges.len(), |i: int| chars.subrange(ranges[i].0 as int, ranges[i].1 as int))
}

/// Where the lines of a text begin and end.
pub fn line_ranges(chars: &Vec<char>) -> (ranges: Vec<(usize, usize)>)
    ensures
        forall|i: int|
            0 <= i < ranges@.len() ==> (#[trigger] ranges@[i]).0 <= ranges@[i].1 <= chars@.len(),
        at_ranges(chars@, ranges@) == lines(chars@),
{
    let mut ranges: Vec<(usize, usize)> = Vec::new();
    let mut start: usize = 0;
    assert(chars@.skip(0) =~= chars@);
    assert(at_ranges(chars@, ranges@) + lines(chars@) =~= lines(chars@));
    while start < chars.len()
        invariant
            start <= chars@.len(),
            forall|i: int|
                0 <= i < ranges@.len() ==> (#[trigger] ranges@[i]).0 <= ranges@[i].1
                    <= chars@.len(),
            at_ranges(chars@, ranges@) + lines(chars@.skip(start as int)) == lines(chars@),
        decreases chars@.len() - start,
    {
        let ghost from = start as int;
        let ghost rest = chars@.skip(from);
        let ghost before = ranges@;
        let end = find_from(chars, start, '\n');
        let mut stop: usize = end;
        if end < chars.len() && end > start && chars[end - 1] == '\r' {
            stop = end - 1;
        }
        ranges.push((start, stop));
        let ghost line = chars@.subrange(from, stop as int);
        assert(at_ranges(chars@, ranges@) =~= at_ranges(chars@, before).push(line));
        if end < chars.len() {
            start = end + 1;
            proof {
                lemma_split_once(rest, '\n', end - from);
                assert(without_return(rest.take(end - from)) =~= line);
                assert(rest.skip(end - from + 1) =~= chars@.skip(start as int));
                assert(lines(rest) == seq![line] + lines(chars@.skip(start as int)));
            }
        } else {
            start = end;
            proof {
                lemma_split_once_none(rest, '\n');
                assert(rest =~= line);
                assert(lines(rest) == seq![line]);
                assert(lines(chars@.skip(start as int)) =~= seq![]);
            }
        }
        assert(at_ranges(chars@, before).push(line) + lines(chars@.skip(start as int))
            =~= at_ranges(chars@, before) + lines(rest));
    }
    assert(lines(chars@.skip(start as int)) =~= seq![]);
    assert(at_ranges(chars@, ranges@) =~= at_ranges(chars@, ranges@) + lines(
        chars@.skip(start as int),
    ));
    ranges
}

/// The character of a decimal digit.
pub open spec fn digit(n: nat) -> char {
    (48 + n) as char
}

/// A number in decimal, without leading zeros.
pub open spec fn decimal(n: nat) -> Seq<char>
    decreases n,
{
    if n < 10 {
        seq![digit(n)]
    } else {
        decimal(n / 10).push(digit(n % 10))
    }
}

/// A number in decimal, with a leading zero where it has one digit only.
pub open spec fn two_digits(n: nat) -> Seq<char> {
    if n < 10 {
        seq!['0', digit(n)]
    } else {
        decimal(n)
    }
}

pub open spec fn is_digit(c: char) -> bool {
    '0' <= c <= '9'
}

pub open spec fn all_digits(s: Seq<char>) -> bool {
    forall|i: int| 0 <= i < s.len() ==> is_digit(#[trigger] s[i])
}

/// The number that decimal digits stand for.
pub open spec fn digits_value(digits: Seq<char>) -> nat
    decreases digits.len(),
{
    if digits.len() == 0 {
        0
    } else {
        digits_value(digits.drop_last()) * 10 + (digits.last() as nat - 48) as nat
    }
}

/// The number that `s` stands for: digits after an optional sign, in the range of `i64`.
pub open spec fn parsed_i64(s: Seq<char>) -> Option<i64> {
    let signed = s.len() > 0 && (s[0] == '+' || s[0] == '-');
    let digits = if signed { s.skip(1) } else { s };
    let value = if signed && s[0] == '-' {
        -(digits_value(digits) as int)
    } else {
        digits_value(digits) as int
    };
    if digits.len() > 0 && all_digits(digits) && i64::MIN <= value <= i64::MAX {
        Some(value as i64)
    } else {
        None
    }
}

/// A number in decimal.
pub fn decimal_text(n: u128) -> (text: String)
    ensures
        text@ == decimal(n as nat),
    decreases n,
{
    if n < 10 {
        let mut text = String::new();
        text.push((48 + n as u8) as char);
        assert(text@ =~= seq![digit(n as nat)]);
        text
    } else {
        let mut text = decimal_text(n / 10);
        text.push((48 + (n % 10) as u8) as char);
        text
    }
}

/// A number in decimal, with a leading zero where it has one digit only.
pub fn two_digit_text(n: u128) -> (text: String)
    ensures
        text@ == two_digits(n as nat),
{
    if n < 10 {
        let mut text = String::new();
        text.push('0');
        text.push((48 + n as u8) as char);
        assert(text@ =~= seq!['0', digit(n as nat)]);
        text
    } else {
        decimal_text(n)
    }
}

/// The number that a text stands for.
pub fn parse_i64(s: &str) -> (result: Option<i64>)
    ensures
        result == parsed_i64(s@),
{
    let chars = chars_of(s);
    let signed = chars.len() > 0 && (chars[0] == '+' || chars[0] == '-');
    let negative = signed && chars[0] == '-';
    let first: usize = if signed { 1 } else { 0 };
    let ghost digits = if signed { s@.skip(1) } else { s@ };
    assert(digits =~= s@.skip(first as int));
    if chars.len() == first {
        return None;
    }
    let limit: i128 = 0x8000_0000_0000_0000;
    let mut value: i128 = 0;
    let mut too_large = false;
    let mut i: usize = first;
    assert(digits.take(0) =~= Seq::<char>::empty());
    while i < chars.len()
        invariant
            chars@ == s@,
            first <= i <= chars@.len(),
            digits == s@.skip(first as int),
            limit == 0x8000_0000_0000_0000,
            0 <= value <= limit,
            signed == (s@.len() > 0 && (s@[0] == '+' || s@[0] == '-')),
            first == (if signed { 1int } else { 0int }),
            digits == (if signed { s@.skip(1) } else { s@ }),
            forall|j: int| first <= j < i ==> is_digit(s@[j]),
            !too_large ==> value == digits_value(digits.take(i - first)),
            too_large ==> digits_value(digits.take(i - first)) > limit,
        decreases chars@.len() - i,
    {
        let c = chars[i];
        if !('0' <= c && c <= '9') {
            assert(!is_digit(digits[i - first]));
            return None;
        }
        let ghost before = digits.take(i - first);
        i += 1;
        assert(digits.take(i - first).drop_last() =~= before);
        assert(digits.take(i - first).last() == c);
        if !too_large {
            let next: i128 = value * 10 + (c as u32 as i128 - 48);
            if next > limit {
                too_large = true;
            } else {
                value = next;
            }
        }
    }
    assert(digits.take(i - first) =~= digits);
    assert(all_digits(digits));
    if too_large {
        None
    } else if negative {
        Some((-value) as i64)
    } else if value == limit {
        None
    } else {
        Some(value as i64)
    }
}

} // verus!
