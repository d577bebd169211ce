//! Text primitives on strings, specified over sequences of characters.

use vstd::prelude::*;
use vstd::utf8::*;

verus! {

/// Characters with the Unicode `White_Space` property.
pub open spec fn is_white_space(c: char) -> bool {
    ||| '\u{9}' <= c <= '\u{d}'
    ||| c == '\u{20}'
    ||| c == '\u{85}'
    ||| c == '\u{a0}'
    ||| c == '\u{1680}'
    ||| '\u{2000}' <= c <= '\u{200a}'
    ||| c == '\u{2028}'
    ||| c == '\u{2029}'
    ||| c == '\u{202f}'
    ||| c == '\u{205f}'
    ||| c == '\u{3000}'
}

/// `s` without its leading white space.
pub open spec fn trimmed_start(s: Seq<char>) -> Seq<char>
    decreases s.len(),
{
    if s.len() > 0 && is_white_space(s[0]) {
        trimmed_start(s.drop_first())
    } else {
        s
    }
}

/// `s` without its trailing white space.
pub open spec fn trimmed_end(s: Seq<char>) -> Seq<char>
    decreases s.len(),
{
    if s.len() > 0 && is_white_space(s.last()) {
        trimmed_end(s.drop_last())
    } else {
        s
    }
}

/// `s` without the white space at its two ends.
pub open spec fn trimmed(s: Seq<char>) -> Seq<char> {
    trimmed_end(trimmed_start(s))
}

/// The longest prefix of `s` that holds no white space.
pub open spec fn first_word(s: Seq<char>) -> Seq<char>
    decreases s.len(),
{
    if s.len() == 0 || is_white_space(s[0]) {
        Seq::empty()
    } else {
        seq![s[0]] + first_word(s.drop_first())
    }
}

/// Position of the first `c` in `s`, or `s.len()` when there is none.
pub open spec fn position(s: Seq<char>, c: char) -> int
    decreases s.len(),
{
    if s.len() == 0 || s[0] == c {
        0
    } else {
        1 + position(s.drop_first(), c)
    }
}

/// The parts of `s` before and after its first `c`.
pub open spec fn split_pair(s: Seq<char>, c: char) -> Option<(Seq<char>, Seq<char>)> {
    let at = position(s, c);
    if at < s.len() {
        Some((s.take(at), s.skip(at + 1)))
    } else {
        None
    }
}

/// The pieces of `s` between occurrences of `c`; at least one.
pub open spec fn pieces(s: Seq<char>, c: char) -> Seq<Seq<char>>
    decreases s.len(),
{
    match split_pair(s, c) {
        Some((head, tail)) => if tail.len() < s.len() {
            seq![head] + pieces(tail, c)
        } else {
            seq![s]
        },
        None => seq![s],
    }
}

/// Whether `part` occurs in `s`.
pub open spec fn occurs(part: Seq<char>, s: Seq<char>) -> bool {
    exists|i: int| #[trigger] occurs_at(part, s, i)
}

/// Whether `part` occurs in `s` at position `i`.
pub open spec fn occurs_at(part: Seq<char>, s: Seq<char>, i: int) -> bool {
    0 <= i && i + part.len() <= s.len() && s.subrange(i, i + part.len()) == part
}

/// `c` with the letters `A` to `Z` mapped to `a` to `z`.
pub open spec fn ascii_lower(c: char) -> char {
    if 'A' <= c <= 'Z' {
        ((c as u32) + 32) as char
    } else {
        c
    }
}

/// `s` with its ASCII letters in lower case.
pub open spec fn lowered(s: Seq<char>) -> Seq<char> {
    s.map_values(|c: char| ascii_lower(c))
}

/// Whether `c` is a decimal digit.
pub open spec fn is_digit(c: char) -> bool {
    '0' <= c <= '9'
}

/// Whether `s` is a non-empty run of decimal digits.
pub open spec fn is_digits(s: Seq<char>) -> bool {
    s.len() > 0 && forall|i: int| 0 <= i < s.len() ==> is_digit(#[trigger] s[i])
}

/// The number that a run of decimal digits stands for.
pub open spec fn digits_value(s: Seq<char>) -> nat
    decreases s.len(),
{
    if s.len() == 0 {
        0
    } else {
        digits_value(s.drop_last()) * 10 + (s.last() as u32 - '0' as u32) as nat
    }
}

/// The integer written as an optional sign followed by decimal digits.
pub open spec fn signed_value(s: Seq<char>) -> Option<int> {
    if s.len() > 0 && s[0] == '-' && is_digits(s.drop_first()) {
        Some(-(digits_value(s.drop_first()) as int))
    } else if s.len() > 0 && s[0] == '+' && is_digits(s.drop_first()) {
        Some(digits_value(s.drop_first()) as int)
    } else if is_digits(s) {
        Some(digits_value(s) as int)
    } else {
        None
    }
}

/// The natural number written as an optional `+` followed by decimal digits.
pub open spec fn unsigned_value(s: Seq<char>) -> Option<int> {
    if s.len() > 0 && s[0] == '-' {
        None
    } else {
        signed_value(s)
    }
}

/// The value of `s` where it lies between `lo` and `hi`.
pub open spec fn value_within(v: Option<int>, lo: int, hi: int) -> Option<int> {
    match v {
        Some(n) => if lo <= n <= hi {
            Some(n)
        } else {
            None
        },
        None => None,
    }
}

/// The character of a decimal digit.
pub open spec fn digit_char(d: int) -> char {
    (d + 48) as char
}

/// The decimal digits of `n`, without leading zeros.
pub open spec fn decimal(n: nat) -> Seq<char>
    decreases n,
{
    if n < 10 {
        seq![digit_char(n as int)]
    } else {
        decimal(n / 10).push(digit_char((n % 10) as int))
    }
}

/// The first `n` characters of `s`, or all of it where it has fewer.
pub open spec fn head(s: Seq<char>, n: int) -> Seq<char> {
    if n < s.len() {
        s.take(n)
    } else {
        s
    }
}

/// `s` with every slash, backslash and space replaced by an underscore.
pub open spec fn file_safe(s: Seq<char>) -> Seq<char> {
    s.map_values(|c: char| if c == '/' || c == '\\' || c == ' ' { '_' } else { c })
}

/// The text of an optional string.
pub open spec fn opt_string(s: Option<String>) -> Option<Seq<char>> {
    match s {
        Some(t) => Some(t@),
        None => None,
    }
}

/// The text of an optional string slice.
pub open spec fn opt_str(s: Option<&str>) -> Option<Seq<char>> {
    match s {
        Some(t) => Some(t@),
        None => None,
    }
}

/// Number of bytes of `s` in UTF-8.
pub open spec fn utf8_len(s: Seq<char>) -> nat {
    encode_utf8(s).len()
}

/// How many characters of `s` fit in `n` bytes.
pub open spec fn chars_within(s: Seq<char>, n: int) -> int
    decreases s.len(),
{
    if s.len() == 0 || utf8_len(seq![s[0]]) > n {
        0
    } else {
        1 + chars_within(s.drop_first(), n - utf8_len(seq![s[0]]))
    }
}

/// The characters of `s` that fit in `n` bytes.
pub open spec fn within_bytes(s: Seq<char>, n: int) -> Seq<char> {
    s.take(chars_within(s, n))
}

/// Whether `s` can be cut behind byte `n` without cutting a character.
pub open spec fn can_cut(s: Seq<char>, n: int) -> bool {
    utf8_len(within_bytes(s, n)) == n
}

/// `s` with spaces behind it, up to a width.
pub open spec fn padded(s: Seq<char>, width: int) -> Seq<char>
    decreases width - s.len(),
{
    if s.len() >= width {
        s
    } else {
        padded(s.push(' '), width)
    }
}

/// The decimal digits of a number are digits and stand for that number.
pub proof fn decimal_reads_back(n: nat)
    ensures
        is_digits(decimal(n)),
        digits_value(decimal(n)) == n,
    decreases n,
{
    if n < 10 {
        let s = decimal(n);
        assert(s.drop_last() =~= Seq::empty());
        assert(digits_value(s.drop_last()) == 0);
        assert(s.last() == digit_char(n as int));
    } else {
        decimal_reads_back(n / 10);
        let s = decimal(n);
        assert(s.drop_last() =~= decimal(n / 10));
        assert(s.last() == digit_char((n % 10) as int));
        assert forall|i: int| 0 <= i < s.len() implies is_digit(#[trigger] s[i]) by {
            if i < s.len() - 1 {
                assert(s[i] == decimal(n / 10)[i]);
            }
        }
    }
}

/// Decimal digits hold no white space.
pub proof fn digits_hold_no_white_space(s: Seq<char>)
    requires
        forall|i: int| 0 <= i < s.len() ==> is_digit(#[trigger] s[i]),
    ensures
        trimmed(s) == s,
        first_word(s) == s,
    decreases s.len(),
{
    if s.len() > 0 {
        assert(is_digit(s[0]));
        assert(is_digit(s[s.len() - 1]));
        let rest = s.drop_first();
        assert forall|i: int| 0 <= i < rest.len() implies is_digit(#[trigger] rest[i]) by {
            assert(rest[i] == s[i + 1]);
        }
        digits_hold_no_white_space(rest);
        assert(seq![s[0]] + rest =~= s);
    } else {
        assert(first_word(s) =~= s);
    }
}

/// The position of a character is that of its first occurrence, or the length of the text.
pub proof fn position_bounds(s: Seq<char>, c: char)
    ensures
        0 <= position(s, c) <= s.len(),
        position(s, c) < s.len() ==> s[position(s, c)] == c,
        forall|i: int| 0 <= i < position(s, c) ==> #[trigger] s[i] != c,
    decreases s.len(),
{
    if s.len() > 0 && s[0] != c {
        position_bounds(s.drop_first(), c);
        let p = position(s.drop_first(), c);
        assert forall|i: int| 0 <= i < p + 1 implies #[trigger] s[i] != c by {
            if i > 0 {
                assert(s.drop_first()[i - 1] == s[i]);
            }
        }
    }
}

/// What is a first occurrence, or the end of a text without one, is the position.
pub proof fn position_is(s: Seq<char>, c: char, at: int)
    requires
        0 <= at <= s.len(),
        at < s.len() ==> s[at] == c,
        forall|i: int| 0 <= i < at ==> #[trigger] s[i] != c,
    ensures
        position(s, c) == at,
{
    position_bounds(s, c);
    let p = position(s, c);
    if p < at {
        assert(s[p] != c);
    } else if at < p {
        assert(s[at] != c);
    }
}

/// Byte strings of equal UTF-8 encodings are equal texts.
pub proof fn utf8_is_injective(a: Seq<char>, b: Seq<char>)
    requires
        encode_utf8(a) == encode_utf8(b),
    ensures
        a == b,
{
    encode_utf8_decode_utf8(a);
    encode_utf8_decode_utf8(b);
}

/// UTF-8 encodes a concatenation piece by piece.
pub proof fn utf8_of_concat(a: Seq<char>, b: Seq<char>)
    ensures
        encode_utf8(a + b) == encode_utf8(a) + encode_utf8(b),
    decreases a.len(),
{
    if a.len() == 0 {
        assert(a + b =~= b);
        assert(encode_utf8(a) + encode_utf8(b) =~= encode_utf8(b));
    } else {
        utf8_of_concat(a.drop_first(), b);
        assert((a + b).drop_first() =~= a.drop_first() + b);
        assert((a + b)[0] == a[0]);
        assert(encode_utf8(a + b) =~= encode_utf8(a) + encode_utf8(b));
    }
}

/// Number of bytes of a string.
pub fn byte_len(s: &str) -> (n: usize)
    ensures
        n == utf8_len(s@),
{
    s.as_bytes().len()
}

/// Whether two strings hold the same text.
pub fn same(a: &str, b: &str) -> (r: bool)
    ensures
        r == (a@ == b@),
{
    let x = a.as_bytes();
    let y = b.as_bytes();
    if x.len() != y.len() {
        return false;
    }
    let mut i: usize = 0;
    while i < x.len()
        invariant
            i <= x@.len(),
            x@.len() == y@.len(),
            x@ == encode_utf8(a@),
            y@ == encode_utf8(b@),
            forall|j: int| 0 <= j < i ==> x@[j] == y@[j],
        decreases x@.len() - i,
    {
        if x[i] != y[i] {
            return false;
        }
        i += 1;
    }
    proof {
        assert(x@ =~= y@);
        utf8_is_injective(a@, b@);
    }
    true
}

/// The characters of a string.
pub fn chars_of(s: &str) -> (r: Vec<char>)
    ensures
        r@ == s@,
{
    let mut out: Vec<char> = Vec::new();
    for c in it: s.chars()
        invariant
            it.seq() == s@,
            out@ == s@.take(it.index() as int),
    {
        out.push(c);
    }
    assert(s@.take(s@.len() as int) =~= s@);
    out
}

/// The first `n` characters of a string.
pub fn prefix(s: &str, n: usize) -> (r: String)
    requires
        n <= s@.len(),
    ensures
        r@ == s@.take(n as int),
{
    s.substring_char(0, n).to_owned()
}

/// The first `n` characters of a string, or all of it where it has fewer.
pub fn at_most(s: &str, n: usize) -> (r: String)
    ensures
        r@ == head(s@, n as int),
{
    if n < s.unicode_len() {
        prefix(s, n)
    } else {
        s.to_owned()
    }
}

/// The text of a string from character `from` to character `to`.
pub fn slice(s: &str, from: usize, to: usize) -> (r: String)
    requires
        from <= to <= s@.len(),
    ensures
        r@ == s@.subrange(from as int, to as int),
{
    s.substring_char(from, to).to_owned()
}

/// Number of bytes of a character.
fn char_bytes(c: char) -> (n: usize)
    ensures
        n == utf8_len(seq![c]),
{
    proof {
        assert(seq![c].drop_first() =~= Seq::empty());
        reveal_with_fuel(encode_utf8, 2);
    }
    let v: u32 = c as u32;
    if v < 0x80 {
        1
    } else if v < 0x800 {
        2
    } else if v < 0x10000 {
        3
    } else {
        4
    }
}

/// The first `n` bytes of a string, where that cuts no character.
pub fn cut(s: &str, n: usize) -> (r: Option<String>)
    ensures
        match r {
            Some(t) => can_cut(s@, n as int) && t@ == within_bytes(s@, n as int),
            None => !can_cut(s@, n as int),
        },
{
    let v = chars_of(s);
    let mut i: usize = 0;
    let mut left: usize = n;
    assert(s@.skip(0) =~= s@);
    assert(s@.take(0) =~= Seq::empty());
    while i < v.len()
        invariant_except_break
            i <= v.len(),
            v@ == s@,
            left <= n,
            chars_within(s@, n as int) == i + chars_within(s@.skip(i as int), left as int),
            utf8_len(s@.take(i as int)) == n - left,
        ensures
            i == chars_within(s@, n as int),
            i <= s@.len(),
            left <= n,
            utf8_len(s@.take(i as int)) == n - left,
        decreases v.len() - i,
    {
        let len = char_bytes(v[i]);
        assert(s@.skip(i as int)[0] == v@[i as int]);
        if len > left {
            break;
        }
        proof {
            assert(s@.skip(i as int).drop_first() =~= s@.skip(i as int + 1));
            utf8_of_concat(s@.take(i as int), seq![v@[i as int]]);
            assert(s@.take(i as int) + seq![v@[i as int]] =~= s@.take(i as int + 1));
        }
        left = left - len;
        i = i + 1;
    }
    if left == 0 {
        Some(prefix(s, i))
    } else {
        None
    }
}

/// The string with spaces behind it, up to a width.
pub fn pad(s: &str, width: usize) -> (r: String)
    ensures
        r@ == padded(s@, width as int),
{
    let mut out = s.to_owned();
    let mut n = s.unicode_len();
    while n < width
        invariant
            n == out@.len(),
            padded(out@, width as int) == padded(s@, width as int),
        decreases width - n,
    {
        let ghost before = out@;
        proof {
            reveal_strlit(" ");
        }
        out.append(" ");
        assert(out@ =~= before.push(' '));
        n += 1;
    }
    out
}

/// The concatenation of two strings.
pub fn join(a: &str, b: &str) -> (r: String)
    ensures
        r@ == a@ + b@,
{
    let mut out = a.to_owned();
    out.append(b);
    out
}

/// The concatenation of three strings.
pub fn join3(a: &str, b: &str, c: &str) -> (r: String)
    ensures
        r@ == a@ + b@ + c@,
{
    let mut out = a.to_owned();
    out.append(b);
    out.append(c);
    out
}

/// Whether the character is white space.
pub fn white_space(c: char) -> (r: bool)
    ensures
        r == is_white_space(c),
{
    ('\u{9}' <= c && c <= '\u{d}') || c == '\u{20}' || c == '\u{85}' || c == '\u{a0}' || c
        == '\u{1680}' || ('\u{2000}' <= c && c <= '\u{200a}') || c == '\u{2028}' || c == '\u{2029}'
        || c == '\u{202f}' || c == '\u{205f}' || c == '\u{3000}'
}

/// The text without the white space at its two ends.
pub fn trim(s: &str) -> (r: String)
    ensures
        r@ == trimmed(s@),
{
    let v = chars_of(s);
    let mut lo: usize = 0;
    assert(s@.skip(0) =~= s@);
    while lo < v.len() && white_space(v[lo])
        invariant
            lo <= v@.len(),
            v@ == s@,
            trimmed_start(s@.skip(lo as int)) == trimmed_start(s@),
        decreases v@.len() - lo,
    {
        assert(s@.skip(lo as int).drop_first() =~= s@.skip(lo + 1));
        lo += 1;
    }
    let ghost body = s@.skip(lo as int);
    assert(trimmed_start(s@) == body);
    let mut hi: usize = v.len();
    assert(s@.subrange(lo as int, hi as int) =~= body);
    while hi > lo && white_space(v[hi - 1])
        invariant
            lo <= hi <= v@.len(),
            v@ == s@,
            body == s@.skip(lo as int),
            trimmed_end(s@.subrange(lo as int, hi as int)) == trimmed_end(body),
        decreases hi,
    {
        assert(s@.subrange(lo as int, hi as int).drop_last() =~= s@.subrange(
            lo as int,
            hi - 1,
        ));
        hi -= 1;
    }
    slice(s, lo, hi)
}

/// The longest prefix without white space.
pub fn word(s: &str) -> (r: String)
    ensures
        r@ == first_word(s@),
{
    let v = chars_of(s);
    let mut n: usize = 0;
    assert(s@.take(0) + first_word(s@.skip(0)) =~= first_word(s@)) by {
        assert(s@.skip(0) =~= s@);
    }
    while n < v.len() && !white_space(v[n])
        invariant
            n <= v@.len(),
            v@ == s@,
            s@.take(n as int) + first_word(s@.skip(n as int)) == first_word(s@),
        decreases v@.len() - n,
    {
        assert(s@.skip(n as int).drop_first() =~= s@.skip(n + 1));
        assert(s@.take(n as int) + (seq![s@[n as int]] + first_word(s@.skip(n + 1)))
            =~= s@.take(n + 1) + first_word(s@.skip(n + 1)));
        n += 1;
    }
    assert(s@.take(n as int) + Seq::<char>::empty() =~= s@.take(n as int));
    prefix(s, n)
}

/// Position of the first `c`, or the number of characters.
pub fn find(s: &str, c: char) -> (at: usize)
    ensures
        at == position(s@, c),
        at <= s@.len(),
{
    let v = chars_of(s);
    let mut i: usize = 0;
    while i < v.len() && v[i] != c
        invariant
            i <= v@.len(),
            v@ == s@,
            forall|j: int| 0 <= j < i ==> #[trigger] s@[j] != c,
        decreases v@.len() - i,
    {
        i += 1;
    }
    proof {
        position_is(s@, c, i as int);
    }
    i
}

/// The texts before and after the first `c`.
pub fn split_once(s: &str, c: char) -> (r: Option<(String, String)>)
    ensures
        match r {
            Some((a, b)) => split_pair(s@, c) == Some((a@, b@)),
            None => split_pair(s@, c) is None,
        },
{
    let at = find(s, c);
    let n = s.unicode_len();
    if at < n {
        assert(s@.subrange(at + 1, n as int) =~= s@.skip(at + 1));
        Some((prefix(s, at), slice(s, at + 1, n)))
    } else {
        None
    }
}

/// The texts between occurrences of `c`.
pub fn split(s: &str, c: char) -> (r: Vec<String>)
    ensures
        r@.len() == pieces(s@, c).len(),
        forall|i: int| 0 <= i < r@.len() ==> (#[trigger] r@[i])@ == pieces(s@, c)[i],
        r@.len() > 0,
{
    let mut out: Vec<String> = Vec::new();
    let mut rest = s.to_owned();
    let ghost all = pieces(s@, c);
    loop
        invariant_except_break
            out@.len() + pieces(rest@, c).len() == all.len(),
            forall|i: int| 0 <= i < out@.len() ==> (#[trigger] out@[i])@ == all[i],
            forall|i: int|
                0 <= i < pieces(rest@, c).len() ==> #[trigger] pieces(rest@, c)[i] == all[out@.len()
                    + i],
        ensures
            out@.len() == all.len(),
            forall|i: int| 0 <= i < out@.len() ==> (#[trigger] out@[i])@ == all[i],
            out@.len() > 0,
        decreases rest@.len(),
    {
        proof {
            position_bounds(rest@, c);
        }
        match split_once(rest.as_str(), c) {
            Some((head, tail)) => {
                let ghost before = pieces(rest@, c);
                assert(before == seq![head@] + pieces(tail@, c));
                assert(before[0] == head@);
                assert forall|i: int| 0 <= i < pieces(tail@, c).len() implies #[trigger] pieces(
                    tail@,
                    c,
                )[i] == all[out@.len() + 1 + i] by {
                    assert(before[i + 1] == pieces(tail@, c)[i]);
                }
                out.push(head);
                rest = tail;
            },
            None => {
                assert(pieces(rest@, c) == seq![rest@]);
                assert(pieces(rest@, c)[0] == rest@);
                out.push(rest);
                break;
            },
        }
    }
    out
}

/// Whether `s` begins with `head`.
pub fn starts_with(s: &str, head: &str) -> (r: bool)
    ensures
        r == head@.is_prefix_of(s@),
{
    let n = head.unicode_len();
    if n > s.unicode_len() {
        return false;
    }
    let front = prefix(s, n);
    assert(s@.take(n as int) =~= s@.subrange(0, n as int));
    same(front.as_str(), head)
}

/// Whether `s` ends with `tail`.
pub fn ends_with(s: &str, tail: &str) -> (r: bool)
    ensures
        r == tail@.is_suffix_of(s@),
{
    let n = tail.unicode_len();
    let m = s.unicode_len();
    if n > m {
        return false;
    }
    let back = slice(s, m - n, m);
    same(back.as_str(), tail)
}

pub fn lower(c: char) -> (r: char)
    ensures
        r == ascii_lower(c),
{
    if 'A' <= c && c <= 'Z' {
        let d: u32 = (c as u32) + 32;
        (d as u8) as char
    } else {
        c
    }
}

/// Whether `part` occurs in `hay`.
fn occurs_in(part: &Vec<char>, hay: &Vec<char>) -> (r: bool)
    ensures
        r == occurs(part@, hay@),
{
    if part.len() > hay.len() {
        return false;
    }
    let last = hay.len() - part.len();
    let mut i: usize = 0;
    loop
        invariant
            last + part.len() == hay.len(),
            i <= last,
            forall|k: int| 0 <= k < i ==> !#[trigger] occurs_at(part@, hay@, k),
        decreases last - i,
    {
        let mut j: usize = 0;
        while j < part.len() && hay[i + j] == part[j]
            invariant
                j <= part@.len(),
                i + part.len() <= hay.len(),
                forall|k: int| 0 <= k < j ==> hay@[i + k] == part@[k],
            decreases part@.len() - j,
        {
            j += 1;
        }
        if j == part.len() {
            assert(hay@.subrange(i as int, i + part@.len()) =~= part@);
            assert(occurs_at(part@, hay@, i as int));
            return true;
        }
        assert(!occurs_at(part@, hay@, i as int)) by {
            if occurs_at(part@, hay@, i as int) {
                assert(hay@.subrange(i as int, i + part@.len())[j as int] == part@[j as int]);
            }
        }
        if i == last {
            assert forall|k: int| !#[trigger] occurs_at(part@, hay@, k) by {
                if k > i {
                    assert(k + part@.len() > hay@.len());
                }
            }
            return false;
        }
        i += 1;
    }
}

/// Whether `part` occurs in `s`.
pub fn contains(s: &str, part: &str) -> (r: bool)
    ensures
        r == occurs(part@, s@),
{
    let p = chars_of(part);
    let h = chars_of(s);
    occurs_in(&p, &h)
}

/// Whether `part` occurs in the lower-case form of `s`.
pub fn contains_in_lower(s: &str, part: &str) -> (r: bool)
    ensures
        r == occurs(part@, lowered(s@)),
{
    let p = chars_of(part);
    let h = chars_of(s);
    let mut low: Vec<char> = Vec::new();
    let mut i: usize = 0;
    while i < h.len()
        invariant
            i <= h@.len(),
            h@ == s@,
            low@ == lowered(s@).take(i as int),
        decreases h@.len() - i,
    {
        low.push(lower(h[i]));
        i += 1;
        assert(low@ =~= lowered(s@).take(i as int));
    }
    assert(lowered(s@).take(i as int) =~= lowered(s@));
    occurs_in(&p, &low)
}

proof fn digits_value_grows(s: Seq<char>, n: int)
    requires
        0 <= n <= s.len(),
    ensures
        digits_value(s.take(n)) <= digits_value(s) || exists|i: int|
            0 <= i < s.len() && !is_digit(#[trigger] s[i]),
    decreases s.len(),
{
    if n < s.len() {
        if is_digit(s[s.len() - 1]) {
            digits_value_grows(s.drop_last(), n);
            assert(s.drop_last().take(n) =~= s.take(n));
            if exists|i: int|
                0 <= i < s.drop_last().len() && !is_digit(#[trigger] s.drop_last()[i]) {
                let i = choose|i: int|
                    0 <= i < s.drop_last().len() && !is_digit(#[trigger] s.drop_last()[i]);
                assert(!is_digit(s[i]));
            }
        }
    } else {
        assert(s.take(n) =~= s);
    }
}

/// Value of the decimal digits from character `from` on: `None` unless they
/// are a non-empty run of digits of value at most `u64::MAX`.
fn digits_from(v: &Vec<char>, from: usize) -> (r: Option<u64>)
    requires
        from <= v@.len(),
    ensures
        match r {
            Some(n) => is_digits(v@.skip(from as int)) && digits_value(v@.skip(from as int)) == n,
            None => !is_digits(v@.skip(from as int)) || digits_value(v@.skip(from as int))
                > u64::MAX,
        },
{
    let ghost s = v@.skip(from as int);
    if from == v.len() {
        return None;
    }
    let mut acc: u64 = 0;
    let mut i: usize = from;
    assert(s.take(0) =~= Seq::empty());
    while i < v.len()
        invariant
            from <= i <= v@.len(),
            s == v@.skip(from as int),
            forall|j: int| 0 <= j < i - from ==> is_digit(#[trigger] s[j]),
            digits_value(s.take(i - from)) == acc,
        decreases v@.len() - i,
    {
        let c = v[i];
        assert(c == s[i - from]);
        if c < '0' || c > '9' {
            assert(!is_digit(s[i - from]));
            return None;
        }
        let d: u64 = (c as u32 - 48) as u64;
        let ghost longer = s.take(i - from + 1);
        assert(longer.drop_last() =~= s.take(i - from));
        assert(longer.last() == c);
        assert(digits_value(longer) == acc * 10 + d);
        let wide: u128 = acc as u128 * 10 + d as u128;
        if wide > 18446744073709551615u128 {
            proof {
                digits_value_grows(s, i - from + 1);
            }
            return None;
        }
        acc = wide as u64;
        i += 1;
    }
    assert(s.take(i - from) =~= s);
    Some(acc)
}

/// Parses an optionally signed decimal integer.
pub fn parse_i64(s: &str) -> (r: Option<i64>)
    ensures
        match r {
            Some(n) => value_within(signed_value(s@), i64::MIN as int, i64::MAX as int) == Some(
                n as int,
            ),
            None => value_within(signed_value(s@), i64::MIN as int, i64::MAX as int) is None,
        },
{
    let v = chars_of(s);
    if v.len() == 0 {
        return None;
    }
    if v[0] == '-' {
        assert(s@.drop_first() =~= s@.skip(1));
        assert(!is_digits(s@)) by {
            assert(!is_digit(s@[0]));
        }
        match digits_from(&v, 1) {
            Some(n) => if n <= 9223372036854775807u64 {
                Some(-(n as i64))
            } else if n == 9223372036854775808u64 {
                Some(-9223372036854775807i64 - 1)
            } else {
                None
            },
            None => None,
        }
    } else if v[0] == '+' {
        assert(s@.drop_first() =~= s@.skip(1));
        assert(!is_digits(s@)) by {
            assert(!is_digit(s@[0]));
        }
        match digits_from(&v, 1) {
            Some(n) => if n <= 9223372036854775807u64 {
                Some(n as i64)
            } else {
                None
            },
            None => None,
        }
    } else {
        assert(s@ =~= s@.skip(0));
        match digits_from(&v, 0) {
            Some(n) => if n <= 9223372036854775807u64 {
                Some(n as i64)
            } else {
                None
            },
            None => None,
        }
    }
}

/// Parses a decimal number of at most `max`.
pub fn parse_unsigned(s: &str, max: u64) -> (r: Option<u64>)
    ensures
        match r {
            Some(n) => value_within(unsigned_value(s@), 0, max as int) == Some(n as int),
            None => value_within(unsigned_value(s@), 0, max as int) is None,
        },
{
    let v = chars_of(s);
    if v.len() == 0 || v[0] == '-' {
        return None;
    }
    let from: usize = if v[0] == '+' {
        1
    } else {
        0
    };
    proof {
        if from == 1 {
            assert(s@.drop_first() =~= s@.skip(1));
            assert(!is_digits(s@)) by {
                assert(!is_digit(s@[0]));
            }
        } else {
            assert(s@ =~= s@.skip(0));
        }
    }
    match digits_from(&v, from) {
        Some(n) => if n <= max {
            Some(n)
        } else {
            None
        },
        None => None,
    }
}

fn digit_text(d: u64) -> (r: &'static str)
    requires
        d < 10,
    ensures
        r@ == seq![digit_char(d as int)],
{
    proof {
        reveal_strlit("0");
        reveal_strlit("1");
        reveal_strlit("2");
        reveal_strlit("3");
        reveal_strlit("4");
        reveal_strlit("5");
        reveal_strlit("6");
        reveal_strlit("7");
        reveal_strlit("8");
        reveal_strlit("9");
    }
    let r = if d == 0 {
        "0"
    } else if d == 1 {
        "1"
    } else if d == 2 {
        "2"
    } else if d == 3 {
        "3"
    } else if d == 4 {
        "4"
    } else if d == 5 {
        "5"
    } else if d == 6 {
        "6"
    } else if d == 7 {
        "7"
    } else if d == 8 {
        "8"
    } else {
        "9"
    };
    assert(r@ =~= seq![digit_char(d as int)]);
    r
}

/// The decimal digits of a number.
pub fn to_decimal(n: u64) -> (r: String)
    ensures
        r@ == decimal(n as nat),
{
    wide_to_decimal(n as u128)
}

/// The decimal digits of a number.
pub fn wide_to_decimal(n: u128) -> (r: String)
    ensures
        r@ == decimal(n as nat),
    decreases n,
{
    if n < 10 {
        digit_text(n as u64).to_owned()
    } else {
        let mut head = wide_to_decimal(n / 10);
        head.append(digit_text((n % 10) as u64));
        assert(head@ =~= decimal(n as nat));
        head
    }
}

/// The text with every slash, backslash and space replaced by an underscore.
pub fn make_file_safe(s: &str) -> (r: String)
    ensures
        r@ == file_safe(s@),
{
    let v = chars_of(s);
    let mut out = String::new();
    let mut i: usize = 0;
    while i < v.len()
        invariant
            i <= v@.len(),
            v@ == s@,
            out@ == file_safe(s@).take(i as int),
        decreases v@.len() - i,
    {
        if v[i] == '/' || v[i] == '\\' || v[i] == ' ' {
            proof {
                reveal_strlit("_");
            }
            out.append("_");
        } else {
            out.append(s.substring_char(i, i + 1));
        }
        i += 1;
        assert(out@ =~= file_safe(s@).take(i as int));
    }
    assert(file_safe(s@).take(i as int) =~= file_safe(s@));
    out
}

/// White space is what Unicode says it is, by code point.
pub proof fn white_space_is_by_code_point(c: char)
    ensures
        ({
            let n = c as int;
            is_white_space(c) <==> 9 <= n <= 13 || n == 32 || n == 0x85 || n == 0xa0 || n == 0x1680
                || 0x2000 <= n <= 0x200a || n == 0x2028 || n == 0x2029 || n == 0x202f || n == 0x205f
                || n == 0x3000
        }),
{
}

proof fn trimming_the_start(s: Seq<char>) -> (from: int)
    ensures
        0 <= from <= s.len(),
        trimmed_start(s) == s.skip(from),
        forall|i: int| 0 <= i < from ==> is_white_space(#[trigger] s[i]),
        from < s.len() ==> !is_white_space(s[from]),
    decreases s.len(),
{
    if s.len() > 0 && is_white_space(s[0]) {
        let rest = s.drop_first();
        let n = trimming_the_start(rest);
        assert(rest.skip(n) =~= s.skip(n + 1));
        assert forall|i: int| 0 <= i < n + 1 implies is_white_space(#[trigger] s[i]) by {
            if i > 0 {
                assert(rest[i - 1] == s[i]);
            }
        }
        assert(n + 1 < s.len() ==> s[n + 1] == rest[n]);
        n + 1
    } else {
        assert(s.skip(0) =~= s);
        0
    }
}

proof fn trimming_the_end(s: Seq<char>) -> (to: int)
    ensures
        0 <= to <= s.len(),
        trimmed_end(s) == s.take(to),
        forall|i: int| to <= i < s.len() ==> is_white_space(#[trigger] s[i]),
        to > 0 ==> !is_white_space(s[to - 1]),
    decreases s.len(),
{
    if s.len() > 0 && is_white_space(s.last()) {
        let rest = s.drop_last();
        let n = trimming_the_end(rest);
        assert(rest.take(n) =~= s.take(n));
        assert forall|i: int| n <= i < s.len() implies is_white_space(#[trigger] s[i]) by {
            if i < rest.len() {
                assert(rest[i] == s[i]);
            }
        }
        assert(n > 0 ==> s[n - 1] == rest[n - 1]);
        n
    } else {
        assert(s.take(s.len() as int) =~= s);
        s.len() as int
    }
}

/// Trimming takes nothing but white space, and all of it at the two ends: where
/// `a` is white space, `b` is too, and `s` neither begins nor ends with any, the
/// text between them is what is left.
pub proof fn trimming_leaves_what_is_between(a: Seq<char>, s: Seq<char>, b: Seq<char>)
    requires
        forall|i: int| 0 <= i < a.len() ==> is_white_space(#[trigger] a[i]),
        forall|i: int| 0 <= i < b.len() ==> is_white_space(#[trigger] b[i]),
        s.len() > 0 ==> !is_white_space(s[0]) && !is_white_space(s[s.len() - 1]),
    ensures
        trimmed(a + s + b) == s,
{
    let all = a + s + b;
    let from = trimming_the_start(all);
    let rest = all.skip(from);
    let to = trimming_the_end(rest);
    let n = a.len() as int;
    if s.len() > 0 {
        if from < n {
            assert(all[from] == a[from]);
        }
        if from > n {
            assert(all[n] == s[0]);
            assert(is_white_space(all[n]));
        }
        assert(from == n);
        let k = s.len() as int;
        if to < k {
            assert(rest[k - 1] == s[k - 1]);
        }
        if to > k {
            assert(rest[to - 1] == b[to - 1 - k]);
        }
        assert(rest.take(to) =~= s);
    } else {
        if from < all.len() {
            assert(from < n ==> all[from] == a[from]);
            assert(from >= n ==> all[from] == b[from - n]);
        }
        assert(rest.take(to) =~= s);
    }
}

/// A word ends at the first white space, or with the text.
pub proof fn a_word_ends_at_white_space(word: Seq<char>, rest: Seq<char>)
    requires
        forall|i: int| 0 <= i < word.len() ==> !is_white_space(#[trigger] word[i]),
        rest.len() > 0 ==> is_white_space(rest[0]),
    ensures
        first_word(word + rest) == word,
    decreases word.len(),
{
    let all = word + rest;
    if word.len() > 0 {
        let tail = word.drop_first();
        assert forall|i: int| 0 <= i < tail.len() implies !is_white_space(#[trigger] tail[i]) by {
            assert(tail[i] == word[i + 1]);
        }
        a_word_ends_at_white_space(tail, rest);
        assert(all.drop_first() =~= tail + rest);
        assert(!is_white_space(word[0]));
        assert(seq![all[0]] + tail =~= word);
    } else {
        assert(all =~= rest);
    }
}

/// A text is split at the first occurrence of a character, which is taken out,
/// and is not split where the character does not occur.
pub proof fn a_text_is_split_at_the_first(a: Seq<char>, c: char, b: Seq<char>)
    requires
        forall|i: int| 0 <= i < a.len() ==> #[trigger] a[i] != c,
    ensures
        split_pair(a + seq![c] + b, c) == Some((a, b)),
        split_pair(a, c) is None,
        pieces(a + seq![c] + b, c) == seq![a] + pieces(b, c),
        pieces(a, c) == seq![a],
{
    let all = a + seq![c] + b;
    let n = a.len() as int;
    assert forall|i: int| 0 <= i < n implies #[trigger] all[i] != c by {
        assert(all[i] == a[i]);
    }
    position_is(all, c, n);
    position_is(a, c, n);
    assert(all.take(n) =~= a);
    assert(all.skip(n + 1) =~= b);
}

/// Lower case changes the 26 letters `A` to `Z`, each to the one 32 code points
/// on, and nothing else.
pub proof fn lower_case_changes_letters_only(s: Seq<char>, i: int)
    requires
        0 <= i < s.len(),
    ensures
        lowered(s).len() == s.len(),
        65 <= s[i] as int <= 90 ==> lowered(s)[i] as int == s[i] as int + 32,
        !(65 <= s[i] as int <= 90) ==> lowered(s)[i] == s[i],
{
}

/// A number reads back from its digits, with a sign or without; a minus makes it
/// negative, and a minus is not read where there are no numbers below zero.
pub proof fn numbers_read_back(n: nat)
    ensures
        signed_value(decimal(n)) == Some(n as int),
        signed_value(seq!['+'] + decimal(n)) == Some(n as int),
        signed_value(seq!['-'] + decimal(n)) == Some(-(n as int)),
        unsigned_value(decimal(n)) == Some(n as int),
        unsigned_value(seq!['+'] + decimal(n)) == Some(n as int),
        unsigned_value(seq!['-'] + decimal(n)) is None,
{
    decimal_reads_back(n);
    let d = decimal(n);
    assert((seq!['+'] + d).drop_first() =~= d);
    assert((seq!['-'] + d).drop_first() =~= d);
    assert(is_digit(d[0]));
}

/// A text that holds anything but digits, or no digit, is no number.
pub proof fn only_digits_are_numbers(s: Seq<char>, i: int)
    requires
        0 <= i < s.len(),
        !('0' <= s[i] <= '9'),
        i > 0 || (s[0] != '-' && s[0] != '+'),
    ensures
        signed_value(s) is None,
        unsigned_value(s) is None,
        signed_value(Seq::empty()) is None,
{
    assert(!is_digit(s[i]));
    if i > 0 {
        assert(s.drop_first()[i - 1] == s[i]);
    }
}

/// Making a text safe for a file name changes slashes, backslashes and spaces
/// to underscores, each in its place, and nothing else.
pub proof fn file_names_keep_the_rest(s: Seq<char>, i: int)
    requires
        0 <= i < s.len(),
    ensures
        file_safe(s).len() == s.len(),
        s[i] == '/' || s[i] == '\\' || s[i] == ' ' ==> file_safe(s)[i] == '_',
        s[i] != '/' && s[i] != '\\' && s[i] != ' ' ==> file_safe(s)[i] == s[i],
{
}

/// The head of a text is its beginning, as long as asked for or as the text is.
pub proof fn a_head_begins_its_text(s: Seq<char>, n: int)
    requires
        0 <= n,
    ensures
        head(s, n).is_prefix_of(s),
        head(s, n).len() == if n < s.len() {
            n
        } else {
            s.len() as int
        },
{
}

/// Padding adds spaces behind a text, up to the width and no further.
pub proof fn padding_adds_spaces(s: Seq<char>, width: int)
    ensures
        s.is_prefix_of(padded(s, width)),
        padded(s, width).len() == if s.len() < width {
            width
        } else {
            s.len() as int
        },
        forall|i: int| s.len() <= i < padded(s, width).len() ==> #[trigger] padded(s, width)[i] == ' ',
    decreases width - s.len(),
{
    if s.len() < width {
        let more = s.push(' ');
        padding_adds_spaces(more, width);
        let out = padded(s, width);
        assert(out.subrange(0, s.len() as int) =~= s) by {
            assert(out.subrange(0, more.len() as int) == more);
            assert forall|i: int| 0 <= i < s.len() implies out[i] == s[i] by {
                assert(out.subrange(0, more.len() as int)[i] == more[i]);
            }
        }
        assert(out[s.len() as int] == ' ') by {
            assert(out.subrange(0, more.len() as int)[s.len() as int] == ' ');
        }
    } else {
        assert(s.subrange(0, s.len() as int) =~= s);
    }
}

/// What fits in a number of bytes is as much of a text's beginning as fits: all
/// of it, or up to a character that does not fit any more.
pub proof fn as_much_fits_as_can(s: Seq<char>, n: int)
    requires
        0 <= n,
    ensures
        0 <= chars_within(s, n) <= s.len(),
        within_bytes(s, n).is_prefix_of(s),
        utf8_len(within_bytes(s, n)) <= n,
        chars_within(s, n) < s.len() ==> utf8_len(s.take(chars_within(s, n) + 1)) > n,
    decreases s.len(),
{
    if s.len() == 0 || utf8_len(seq![s[0]]) > n {
        assert(s.take(0) =~= Seq::empty());
        assert(utf8_len(Seq::empty()) == 0) by {
            utf8_of_concat(Seq::empty(), Seq::empty());
            assert(Seq::<char>::empty() + Seq::<char>::empty() =~= Seq::<char>::empty());
        }
        if s.len() > 0 {
            assert(s.take(1) =~= seq![s[0]]);
        }
    } else {
        let first = seq![s[0]];
        let rest = s.drop_first();
        let left = n - utf8_len(first);
        as_much_fits_as_can(rest, left);
        let k = chars_within(rest, left);
        utf8_of_concat(first, rest.take(k));
        assert(first + rest.take(k) =~= s.take(k + 1));
        if k < rest.len() {
            utf8_of_concat(first, rest.take(k + 1));
            assert(first + rest.take(k + 1) =~= s.take(k + 2));
        }
    }
    let k = chars_within(s, n);
    assert(s.subrange(0, k) =~= s.take(k));
}

/// What is left of a text that is trimmed is cut out of it; all that lies
/// outside the cut is white space.
pub proof fn trimming_is_a_cut(s: Seq<char>) -> (r: (int, int))
    ensures
        0 <= r.0 <= r.1 <= s.len(),
        trimmed(s) == s.subrange(r.0, r.1),
        forall|i: int| 0 <= i < r.0 || r.1 <= i < s.len() ==> is_white_space(#[trigger] s[i]),
{
    let from = trimming_the_start(s);
    let rest = s.skip(from);
    let to = trimming_the_end(rest);
    assert(rest.take(to) =~= s.subrange(from, from + to));
    assert forall|i: int| 0 <= i < from || from + to <= i < s.len() implies is_white_space(
        #[trigger] s[i],
    ) by {
        if i >= from {
            assert(rest[i - from] == s[i]);
        }
    }
    (from, from + to)
}

/// The first word of a text stands behind its leading white space and ends at
/// the next, or with the text.
pub proof fn the_first_word_of_a_text(a: Seq<char>, word: Seq<char>, rest: Seq<char>)
    requires
        forall|i: int| 0 <= i < a.len() ==> is_white_space(#[trigger] a[i]),
        word.len() > 0,
        forall|i: int| 0 <= i < word.len() ==> !is_white_space(#[trigger] word[i]),
        rest.len() > 0 ==> is_white_space(rest[0]),
    ensures
        first_word(trimmed(a + word + rest)) == word,
{
    let all = a + word + rest;
    let n = a.len() as int;
    let k = word.len() as int;
    let from = trimming_the_start(all);
    assert(all[n] == word[0]);
    if from < n {
        assert(all[from] == a[from]);
    }
    assert(from == n);
    let tail = all.skip(n);
    let to = trimming_the_end(tail);
    assert(tail[k - 1] == word[k - 1]);
    assert(to >= k);
    let left = rest.take(to - k);
    assert(tail.take(to) =~= word + left);
    a_word_ends_at_white_space(word, left);
}

/// A part that lies in a text occurs in it, whatever the letters' case where
/// only lower case is looked at.
pub proof fn a_part_occurs(a: Seq<char>, word: Seq<char>, b: Seq<char>)
    ensures
        occurs(word, a + word + b),
        occurs(lowered(word), lowered(a + word + b)),
{
    let all = a + word + b;
    let n = a.len() as int;
    let k = n + word.len();
    assert(all.subrange(n, k) =~= word);
    assert(lowered(all).subrange(n, k) =~= lowered(word));
    assert(occurs_at(word, all, n));
    assert(occurs_at(lowered(word), lowered(all), n));
}

/// Digits count by tens, leading zeros or not.
pub proof fn digits_count_by_tens(s: Seq<char>, c: char)
    requires
        '0' <= c <= '9',
    ensures
        digits_value(Seq::empty()) == 0,
        digits_value(s.push(c)) == 10 * digits_value(s) + (c as int - 48),
        is_digits(seq![c]),
        is_digits(s) ==> is_digits(s.push(c)),
{
    assert(s.push(c).drop_last() =~= s);
    if is_digits(s) {
        assert forall|i: int| 0 <= i < s.push(c).len() implies is_digit(#[trigger] s.push(c)[i]) by {
            if i < s.len() {
                assert(is_digit(s[i]));
            }
        }
    }
}

/// A text can be cut behind a number of bytes exactly where some of its
/// beginnings has that many, and that beginning is what is cut off.
pub proof fn a_cut_lies_between_characters(s: Seq<char>, k: int)
    requires
        0 <= k <= s.len(),
    ensures
        can_cut(s, utf8_len(s.take(k)) as int),
        within_bytes(s, utf8_len(s.take(k)) as int) == s.take(k),
{
    let n = utf8_len(s.take(k)) as int;
    as_much_fits_as_can(s, n);
    let c = chars_within(s, n);
    if c < k {
        longer_beginnings_have_more_bytes(s, c + 1, k);
    } else if c > k {
        longer_beginnings_have_more_bytes(s, k + 1, c);
        utf8_of_concat(s.take(k), seq![s[k]]);
        assert(s.take(k) + seq![s[k]] =~= s.take(k + 1));
        a_character_has_a_byte(s[k]);
    }
}

proof fn longer_beginnings_have_more_bytes(s: Seq<char>, i: int, j: int)
    requires
        0 <= i <= j <= s.len(),
    ensures
        utf8_len(s.take(i)) <= utf8_len(s.take(j)),
{
    utf8_of_concat(s.take(i), s.subrange(i, j));
    assert(s.take(i) + s.subrange(i, j) =~= s.take(j));
}

proof fn a_character_has_a_byte(c: char)
    ensures
        utf8_len(seq![c]) > 0,
{
    if utf8_len(seq![c]) == 0 {
        assert(encode_utf8(seq![c]) =~= encode_utf8(Seq::empty())) by {
            utf8_of_concat(Seq::empty(), Seq::empty());
            assert(Seq::<char>::empty() + Seq::<char>::empty() =~= Seq::<char>::empty());
        }
        utf8_is_injective(seq![c], Seq::empty());
        assert(seq![c].len() == 1);
    }
}

} // verus!
