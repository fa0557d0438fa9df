//! Text operations shared by the protocol modules.

use vstd::prelude::*;

verus! {

/// `String::push` appends one character at the end of the string.
pub assume_specification[ String::push ](s: &mut String, c: char)
    ensures
        final(s)@ == old(s)@.push(c),
;

/// Whether the code point has the Unicode property `White_Space`.
pub open spec fn is_white_space(c: char) -> bool {
    let p = c as u32;
    ||| 0x9 <= p <= 0xd
    ||| p == 0x20
    ||| p == 0x85
    ||| p == 0xa0
    ||| p == 0x1680
    ||| 0x2000 <= p <= 0x200a
    ||| p == 0x2028
    ||| p == 0x2029
    ||| p == 0x202f
    ||| p == 0x205f
    ||| p == 0x3000
}

/// Tells whether a character is Unicode white space.
pub fn white_space(c: char) -> (r: bool)
    ensures
        r == is_white_space(c),
{
    let p: u32 = c as u32;
    (0x9 <= p && p <= 0xd) || p == 0x20 || p == 0x85 || p == 0xa0 || p == 0x1680 || (0x2000 <= p
        && p <= 0x200a) || p == 0x2028 || p == 0x2029 || p == 0x202f || p == 0x205f || p == 0x3000
}

/// The characters of a text without its leading white space.
pub open spec fn trimmed_start(s: Seq<char>) -> Seq<char>
    decreases s.len(),
{
    if s.len() > 0 && is_white_space(s[0]) {
        trimmed_start(s.skip(1))
    } else {
        s
    }
}

/// The characters of a text without its trailing white space.
pub open spec fn trimmed_end(s: Seq<char>) -> Seq<char>
    decreases s.len(),
{
    if s.len() > 0 && is_white_space(s.last()) {
        trimmed_end(s.drop_last())
    } else {
        s
    }
}

/// The characters of a text without white space at either end.
pub open spec fn trimmed(s: Seq<char>) -> Seq<char> {
    trimmed_end(trimmed_start(s))
}

/// Texts by their characters.
pub open spec fn texts(items: Seq<&str>) -> Seq<Seq<char>> {
    items.map_values(|item: &str| item@)
}

/// Owned texts by their characters.
pub open spec fn owned_texts(items: Seq<String>) -> Seq<Seq<char>> {
    items.map_values(|item: String| item@)
}

/// An optional text by its characters.
pub open spec fn optional(value: Option<&str>) -> Option<Seq<char>> {
    match value {
        Some(found) => Some(found@),
        None => None,
    }
}

/// An optional owned text by its characters.
pub open spec fn optional_owned(value: Option<String>) -> Option<Seq<char>> {
    match value {
        Some(found) => Some(found@),
        None => None,
    }
}

/// Copies the characters of a text.
pub fn char_vec(s: &str) -> (r: Vec<char>)
    ensures
        r@ == s@,
{
    let mut out: Vec<char> = Vec::new();
    for c in it: s.chars()
        invariant
            it.seq() == s@,
            out@ == s@.take(it.index()),
    {
        out.push(c);
    }
    assert(s@.take(s@.len() as int) == s@);
    out
}

/// Tells whether two texts are the same.
pub fn text_eq(a: &str, b: &str) -> (r: bool)
    ensures
        r == (a@ == b@),
{
    let other = char_vec(b);
    let mut i: usize = 0;
    for c in it: a.chars()
        invariant
            it.seq() == a@,
            i == it.index(),
            other@ == b@,
            i <= other.len(),
            a@.take(i as int) == b@.take(i as int),
    {
        if i >= other.len() || other[i] != c {
            assert(a@[i as int] == c);
            return false;
        }
        assert(a@.take(i + 1) == a@.take(i as int).push(c));
        assert(b@.take(i + 1) == b@.take(i as int).push(c));
        i += 1;
    }
    assert(a@.take(i as int) == a@);
    assert(i == b@.len() ==> b@.take(i as int) == b@);
    i == other.len()
}

/// Tells whether a text begins with a prefix.
pub fn starts_with(s: &str, prefix: &str) -> (r: bool)
    ensures
        r == prefix@.is_prefix_of(s@),
{
    let p = char_vec(prefix);
    let mut i: usize = 0;
    for c in it: s.chars()
        invariant
            it.seq() == s@,
            i == it.index(),
            p@ == prefix@,
            i <= p.len(),
            forall|k: int| 0 <= k < i ==> p@[k] == s@[k],
    {
        if i >= p.len() {
            assert(prefix@ =~= s@.subrange(0, prefix@.len() as int));
            return true;
        }
        if p[i] != c {
            assert(s@[i as int] != prefix@[i as int]);
            assert(prefix@.is_prefix_of(s@) ==> s@.subrange(
                0,
                prefix@.len() as int,
            )[i as int] == s@[i as int]);
            return false;
        }
        i += 1;
    }
    assert(i == p.len() ==> prefix@ =~= s@.subrange(0, prefix@.len() as int));
    i >= p.len()
}

/// Tells whether a text ends with a suffix.
pub fn ends_with(s: &str, suffix: &str) -> (r: bool)
    ensures
        r == suffix@.is_suffix_of(s@),
{
    let total = s.unicode_len();
    let tail = suffix.unicode_len();
    if tail > total {
        return false;
    }
    text_eq(s.substring_char(total - tail, total), suffix)
}

/// Tells whether bytes begin with a prefix.
pub fn bytes_start_with(bytes: &[u8], prefix: &[u8]) -> (r: bool)
    ensures
        r == prefix@.is_prefix_of(bytes@),
{
    if bytes.len() < prefix.len() {
        return false;
    }
    let mut i: usize = 0;
    while i < prefix.len()
        invariant
            i <= prefix@.len() <= bytes@.len(),
            forall|k: int| 0 <= k < i ==> prefix@[k] == bytes@[k],
        decreases prefix@.len() - i,
    {
        if bytes[i] != prefix[i] {
            assert(bytes@.subrange(0, prefix@.len() as int)[i as int] == bytes@[i as int]);
            return false;
        }
        i += 1;
    }
    assert(prefix@ =~= bytes@.subrange(0, prefix@.len() as int));
    true
}

/// Removes a prefix of a text.
pub fn strip_prefix<'a>(s: &'a str, prefix: &str) -> (r: Option<&'a str>)
    ensures
        match r {
            Some(rest) => prefix@.is_prefix_of(s@) && rest@ == s@.skip(prefix@.len() as int),
            None => !prefix@.is_prefix_of(s@),
        },
{
    if !starts_with(s, prefix) {
        return None;
    }
    Some(s.substring_char(prefix.unicode_len(), s.unicode_len()))
}

/// Removes a suffix of a text.
pub fn strip_suffix<'a>(s: &'a str, suffix: &str) -> (r: Option<&'a str>)
    ensures
        match r {
            Some(rest) => suffix@.is_suffix_of(s@) && rest@ == s@.take(s@.len() - suffix@.len()),
            None => !suffix@.is_suffix_of(s@),
        },
{
    if !ends_with(s, suffix) {
        return None;
    }
    Some(s.substring_char(0, s.unicode_len() - suffix.unicode_len()))
}

/// Whether `part` occurs in `s`.
pub open spec fn occurs_in(part: Seq<char>, s: Seq<char>) -> bool {
    exists|i: int|
        0 <= i <= s.len() - part.len() && #[trigger] s.subrange(i, i + part.len()) == part
}

/// Tells whether a text holds another text.
pub fn contains_text(s: &str, part: &str) -> (r: bool)
    ensures
        r == occurs_in(part@, s@),
{
    let whole = char_vec(s);
    let sought = char_vec(part);
    if sought.len() > whole.len() {
        return false;
    }
    let last: usize = whole.len() - sought.len();
    let mut i: usize = 0;
    while i <= last
        invariant
            whole@ == s@,
            sought@ == part@,
            last == whole.len() - sought.len(),
            i <= last + 1,
            forall|j: int|
                0 <= j < i ==> #[trigger] s@.subrange(j, j + part@.len()) != part@,
        decreases last + 1 - i,
    {
        let mut k: usize = 0;
        while k < sought.len() && whole[i + k] == sought[k]
            invariant
                whole@ == s@,
                sought@ == part@,
                last == whole.len() - sought.len(),
                i <= last,
                k <= sought.len(),
                forall|j: int| 0 <= j < k ==> s@[i + j] == part@[j],
            decreases sought.len() - k,
        {
            k += 1;
        }
        let ghost here = s@.subrange(i as int, i + part@.len());
        if k == sought.len() {
            assert(here =~= part@);
            return true;
        }
        assert(here[k as int] != part@[k as int]);
        if i == last {
            return false;
        }
        i += 1;
    }
    false
}

/// The parts of `s` before and after the first `separator`.
pub open spec fn split_first(s: Seq<char>, separator: char) -> Option<(Seq<char>, Seq<char>)> {
    match s.index_of_first(separator) {
        Some(i) => Some((s.take(i), s.skip(i + 1))),
        None => None,
    }
}

/// Splits a text at the first `separator`.
pub fn split_once<'a>(s: &'a str, separator: char) -> (r: Option<(&'a str, &'a str)>)
    ensures
        match r {
            Some(parts) => split_first(s@, separator) == Some((parts.0@, parts.1@)),
            None => split_first(s@, separator) is None,
        },
{
    proof {
        s@.index_of_first_ensures(separator);
    }
    let mut i: usize = 0;
    let total = s.unicode_len();
    for c in it: s.chars()
        invariant
            it.seq() == s@,
            i == it.index(),
            total == s@.len(),
            match s@.index_of_first(separator) {
                Some(at) => 0 <= at < s@.len() && s@[at] == separator && (forall|k: int|
                    0 <= k < at ==> s@[k] != separator),
                None => forall|k: int| 0 <= k < s@.len() ==> s@[k] != separator,
            },
            forall|k: int| 0 <= k < i ==> s@[k] != separator,
    {
        if c == separator {
            return Some((s.substring_char(0, i), s.substring_char(i + 1, total)));
        }
        i += 1;
    }
    None
}

/// The ASCII lower-case form of a character.
pub open spec fn ascii_lower(c: char) -> char {
    if 'A' <= c <= 'Z' {
        ((c as u8) + 32) as char
    } else {
        c
    }
}

/// Lower-cases the ASCII letters of a text.
pub fn lowercase_ascii(s: &str) -> (r: String)
    ensures
        r@ == s@.map_values(|c: char| ascii_lower(c)),
{
    let mut out = String::new();
    for c in it: s.chars()
        invariant
            it.seq() == s@,
            out@ == s@.take(it.index()).map_values(|c: char| ascii_lower(c)),
    {
        if 'A' <= c && c <= 'Z' {
            out.push(((c as u8) + 32) as char);
        } else {
            out.push(c);
        }
        assert(s@.take(it.index() + 1) == s@.take(it.index()).push(c));
    }
    assert(s@.take(s@.len() as int) == s@);
    out
}

/// Dropping white space at the front of a text drops a prefix.
proof fn lemma_trimmed_start_skip(s: Seq<char>, n: int)
    requires
        0 <= n <= s.len(),
        forall|k: int| 0 <= k < n ==> is_white_space(s[k]),
        n < s.len() ==> !is_white_space(s[n]),
    ensures
        trimmed_start(s) == s.skip(n),
    decreases n,
{
    if n > 0 {
        lemma_trimmed_start_skip(s.skip(1), n - 1);
        assert(s.skip(1).skip(n - 1) == s.skip(n));
    } else {
        assert(s.skip(0) == s);
    }
}

/// Dropping white space at the end of a text keeps a prefix.
proof fn lemma_trimmed_end_take(s: Seq<char>, n: int)
    requires
        0 <= n <= s.len(),
        forall|k: int| n <= k < s.len() ==> is_white_space(s[k]),
        n > 0 ==> !is_white_space(s[n - 1]),
    ensures
        trimmed_end(s) == s.take(n),
    decreases s.len() - n,
{
    if n < s.len() {
        lemma_trimmed_end_take(s.drop_last(), n);
        assert(s.drop_last().take(n) == s.take(n));
    } else {
        assert(s.take(n) == s);
    }
}

/// Removes white space from both ends of a text.
pub fn trim<'a>(s: &'a str) -> (r: &'a str)
    ensures
        r@ == trimmed(s@),
{
    let total = s.unicode_len();
    let mut begin: usize = total;
    let mut end: usize = total;
    let mut i: usize = 0;
    for c in it: s.chars()
        invariant
            it.seq() == s@,
            i == it.index(),
            total == s@.len(),
            begin <= i || begin == total,
            begin <= end <= total,
            begin == total ==> end == total && forall|k: int| 0 <= k < i ==> is_white_space(s@[k]),
            begin < total ==> {
                &&& begin < end <= i
                &&& forall|k: int| 0 <= k < begin ==> is_white_space(s@[k])
                &&& !is_white_space(s@[begin as int])
                &&& forall|k: int| end <= k < i ==> is_white_space(s@[k])
                &&& !is_white_space(s@[end - 1])
            },
    {
        if !white_space(c) {
            if begin == total {
                begin = i;
            }
            end = i + 1;
        }
        i += 1;
    }
    proof {
        lemma_trimmed_start_skip(s@, begin as int);
        lemma_trimmed_end_take(s@.skip(begin as int), end - begin);
        assert(s@.skip(begin as int).take(end - begin) == s@.subrange(begin as int, end as int));
    }
    s.substring_char(begin, end)
}

/// The decimal digit for a number below ten.
pub open spec fn digit(d: nat) -> char {
    (48 + d) as char
}

/// The decimal numeral of a natural number.
pub open spec fn decimal(n: nat) -> Seq<char>
    decreases n,
{
    if n < 10 {
        seq![digit(n)]
    } else {
        decimal(n / 10).push(digit(n % 10))
    }
}

/// The decimal numeral of an integer.
pub open spec fn decimal_int(n: int) -> Seq<char> {
    if n < 0 {
        seq!['-'] + decimal((-n) as nat)
    } else {
        decimal(n as nat)
    }
}

/// A decimal numeral is made of ASCII digits, no more than the number counts.
pub proof fn lemma_decimal_is_ascii(n: nat)
    ensures
        1 <= decimal(n).len() <= n + 1,
        forall|i: int| 0 <= i < decimal(n).len() ==> '0' <= #[trigger] decimal(n)[i] <= '9',
    decreases n,
{
    if n >= 10 {
        lemma_decimal_is_ascii(n / 10);
    }
}

/// Appends the decimal numeral of a number to a text.
pub fn push_decimal(out: &mut String, n: u128)
    ensures
        final(out)@ == old(out)@ + decimal(n as nat),
    decreases n,
{
    if n >= 10 {
        push_decimal(out, n / 10);
    }
    let low: u8 = (n % 10) as u8;
    out.push((48u8 + low) as char);
    assert(out@ == old(out)@ + decimal(n as nat));
}

/// Writes a number as a decimal numeral.
pub fn decimal_text(n: u128) -> (r: String)
    ensures
        r@ == decimal(n as nat),
{
    let mut out = String::new();
    push_decimal(&mut out, n);
    assert(out@ == decimal(n as nat));
    out
}

/// Writes a signed number as a decimal numeral.
pub fn decimal_int_text(n: i64) -> (r: String)
    ensures
        r@ == decimal_int(n as int),
{
    let mut out = String::new();
    if n < 0 {
        out.push('-');
        push_decimal(&mut out, (-(n as i128)) as u128);
    } else {
        push_decimal(&mut out, n as u128);
    }
    assert(out@ == decimal_int(n as int));
    out
}

/// The lower-case hexadecimal digit for a number below sixteen.
pub open spec fn hex_digit(d: nat) -> char {
    if d < 10 {
        (48 + d) as char
    } else {
        (87 + d) as char
    }
}

/// The upper-case hexadecimal digit for a number below sixteen.
pub open spec fn hex_digit_upper(d: nat) -> char {
    if d < 10 {
        (48 + d) as char
    } else {
        (55 + d) as char
    }
}

/// The hexadecimal text of bytes, two lower-case digits each.
pub open spec fn hex_of(bytes: Seq<u8>) -> Seq<char> {
    Seq::new(
        2 * bytes.len(),
        |i: int|
            hex_digit(
                if i % 2 == 0 {
                    (bytes[i / 2] / 16) as nat
                } else {
                    (bytes[i / 2] % 16) as nat
                },
            ),
    )
}

/// The hexadecimal text of bytes, two upper-case digits each.
pub open spec fn hex_upper_of(bytes: Seq<u8>) -> Seq<char> {
    Seq::new(
        2 * bytes.len(),
        |i: int|
            hex_digit_upper(
                if i % 2 == 0 {
                    (bytes[i / 2] / 16) as nat
                } else {
                    (bytes[i / 2] % 16) as nat
                },
            ),
    )
}

/// Picks the hexadecimal digit for a number below sixteen.
fn hex_char(d: u8, upper: bool) -> (r: char)
    requires
        d < 16,
    ensures
        r == (if upper {
            hex_digit_upper(d as nat)
        } else {
            hex_digit(d as nat)
        }),
{
    if d < 10 {
        (48u8 + d) as char
    } else if upper {
        (55u8 + d) as char
    } else {
        (87u8 + d) as char
    }
}

/// Writes bytes as lower-case hexadecimal.
pub fn hex(bytes: &[u8]) -> (r: String)
    ensures
        r@ == hex_of(bytes@),
{
    let mut out = String::new();
    for i in 0..bytes.len()
        invariant
            out@ == hex_of(bytes@.take(i as int)),
    {
        out.push(hex_char(bytes[i] / 16, false));
        out.push(hex_char(bytes[i] % 16, false));
        assert(out@ =~= hex_of(bytes@.take(i + 1)));
    }
    assert(bytes@.take(bytes@.len() as int) == bytes@);
    out
}

/// Writes bytes as upper-case hexadecimal.
pub fn hex_upper(bytes: &[u8]) -> (r: String)
    ensures
        r@ == hex_upper_of(bytes@),
{
    let mut out = String::new();
    for i in 0..bytes.len()
        invariant
            out@ == hex_upper_of(bytes@.take(i as int)),
    {
        out.push(hex_char(bytes[i] / 16, true));
        out.push(hex_char(bytes[i] % 16, true));
        assert(out@ =~= hex_upper_of(bytes@.take(i + 1)));
    }
    assert(bytes@.take(bytes@.len() as int) == bytes@);
    out
}

/// White space is what Unicode lists as such: five controls, the space, the next
/// line, the no-break space, and the spaces and separators beyond ASCII.
pub proof fn law_white_space_is_listed(c: char)
    ensures
        is_white_space(c) <==> seq![
            0x9u32,
            0xa,
            0xb,
            0xc,
            0xd,
            0x20,
            0x85,
            0xa0,
            0x1680,
            0x2000,
            0x2001,
            0x2002,
            0x2003,
            0x2004,
            0x2005,
            0x2006,
            0x2007,
            0x2008,
            0x2009,
            0x200a,
            0x2028,
            0x2029,
            0x202f,
            0x205f,
            0x3000,
        ].contains(c as u32),
{
    let listed = seq![
        0x9u32,
        0xa,
        0xb,
        0xc,
        0xd,
        0x20,
        0x85,
        0xa0,
        0x1680,
        0x2000,
        0x2001,
        0x2002,
        0x2003,
        0x2004,
        0x2005,
        0x2006,
        0x2007,
        0x2008,
        0x2009,
        0x200a,
        0x2028,
        0x2029,
        0x202f,
        0x205f,
        0x3000,
    ];
    if is_white_space(c) {
        let p = c as u32;
        let i: int = if p <= 0xd {
            p - 0x9
        } else if p == 0x20 {
            5
        } else if p == 0x85 {
            6
        } else if p == 0xa0 {
            7
        } else if p == 0x1680 {
            8
        } else if p <= 0x200a {
            p - 0x2000 + 9
        } else if p == 0x2028 {
            20
        } else if p == 0x2029 {
            21
        } else if p == 0x202f {
            22
        } else if p == 0x205f {
            23
        } else {
            24
        };
        assert(listed[i] == p);
    }
}

/// A text between white space, whose own ends are none, is what is left of the
/// whole; a text of white space alone leaves nothing.
pub proof fn law_trimming_drops_white_space_at_the_ends(
    before: Seq<char>,
    value: Seq<char>,
    after: Seq<char>,
)
    requires
        forall|i: int| 0 <= i < before.len() ==> is_white_space(#[trigger] before[i]),
        forall|i: int| 0 <= i < after.len() ==> is_white_space(#[trigger] after[i]),
        value.len() > 0 ==> !is_white_space(value[0]) && !is_white_space(value.last()),
    ensures
        trimmed(before + value + after) == value,
{
    let whole = before + value + after;
    if value.len() > 0 {
        lemma_trimmed_start_skip(whole, before.len() as int);
        let rest = whole.skip(before.len() as int);
        assert(rest =~= value + after);
        lemma_trimmed_end_take(rest, value.len() as int);
        assert(rest.take(value.len() as int) =~= value);
    } else {
        lemma_trimmed_start_skip(whole, whole.len() as int);
        lemma_trimmed_end_take(whole.skip(whole.len() as int), 0);
        assert(trimmed(whole) =~= value);
    }
}

/// A text is split where the separator first stands, and nothing else of it is
/// lost; a text without the separator is not split.
pub proof fn law_splitting_at_the_first_separator(
    before: Seq<char>,
    separator: char,
    after: Seq<char>,
)
    requires
        !before.contains(separator),
    ensures
        split_first(before.push(separator) + after, separator) == Some((before, after)),
        split_first(before, separator) is None,
{
    let whole = before.push(separator) + after;
    let at = before.len() as int;
    whole.index_of_first_ensures(separator);
    before.index_of_first_ensures(separator);
    assert(whole[at] == separator);
    assert forall|k: int| 0 <= k < at implies whole[k] != separator by {
        assert(whole[k] == before[k]);
        assert(before.contains(before[k]));
    }
    assert(whole.index_of_first(separator) == Some(at));
    assert(whole.take(at) =~= before);
    assert(whole.skip(at + 1) =~= after);
}

/// A part occurs in any text that is put around it, and in no text that is
/// shorter; a text that it occurs in is such a text.
pub proof fn law_a_part_occurs_within_its_surroundings(
    before: Seq<char>,
    part: Seq<char>,
    after: Seq<char>,
    other: Seq<char>,
)
    ensures
        occurs_in(part, before + part + after),
        occurs_in(part, other) ==> exists|a: Seq<char>, b: Seq<char>|
            other == #[trigger] (a + part + b),
{
    let whole = before + part + after;
    let i = before.len() as int;
    assert(whole.subrange(i, i + part.len()) =~= part);
    if occurs_in(part, other) {
        let i = choose|i: int|
            0 <= i <= other.len() - part.len() && #[trigger] other.subrange(i, i + part.len())
                == part;
        assert(other =~= other.take(i) + part + other.skip(i + part.len()));
    }
}

/// The ASCII capitals have their small letters 32 places on; every other
/// character is its own small letter.
pub proof fn law_small_letters(c: char)
    ensures
        0x41 <= c as u32 <= 0x5a ==> ascii_lower(c) as u32 == c as u32 + 32,
        !(0x41 <= c as u32 <= 0x5a) ==> ascii_lower(c) == c,
{
}

/// The number that a decimal numeral stands for.
pub open spec fn numeral_value(s: Seq<char>) -> int
    decreases s.len(),
{
    if s.len() == 0 {
        0
    } else {
        10 * numeral_value(s.drop_last()) + (s.last() as int - 0x30)
    }
}

/// A decimal numeral stands for the number that it was written for, in digits
/// alone and without a zero in front of others, so that different numbers have
/// different numerals.
pub proof fn law_numerals_read_back(n: nat)
    ensures
        numeral_value(decimal(n)) == n,
        decimal(n).len() > 1 ==> decimal(n)[0] != '0',
        decimal(n).len() > 0,
        forall|i: int|
            0 <= i < decimal(n).len() ==> 0x30 <= (#[trigger] decimal(n)[i]) as int <= 0x39,
    decreases n,
{
    reveal_with_fuel(numeral_value, 2);
    if n < 10 {
        assert(decimal(n).drop_last() =~= Seq::<char>::empty());
    } else {
        law_numerals_read_back(n / 10);
        assert(decimal(n).drop_last() =~= decimal(n / 10));
        if decimal(n / 10).len() == 1 {
            assert(decimal(n / 10)[0] != '0') by {
                assert(decimal(n / 10).drop_last() =~= Seq::<char>::empty());
                assert(numeral_value(decimal(n / 10)) == decimal(n / 10)[0] as int - 0x30);
            }
        }
        assert(decimal(n)[0] == decimal(n / 10)[0]);
    }
}

/// The numeral of a negative number is a minus sign and the numeral of the
/// number without it; other numbers have no sign.
pub proof fn law_signs_of_numerals(n: int)
    ensures
        n < 0 ==> decimal_int(n)[0] == '-' && numeral_value(decimal_int(n).skip(1)) == -n,
        n >= 0 ==> numeral_value(decimal_int(n)) == n && decimal_int(n)[0] != '-',
{
    if n < 0 {
        law_numerals_read_back((-n) as nat);
        assert(decimal_int(n).skip(1) =~= decimal((-n) as nat));
    } else {
        law_numerals_read_back(n as nat);
        assert(decimal_int(n)[0] as int >= 0x30);
    }
}

/// What a hexadecimal digit stands for.
pub open spec fn hex_value(c: char) -> int {
    if 0x30 <= c as int <= 0x39 {
        c as int - 0x30
    } else if 0x61 <= c as int <= 0x66 {
        c as int - 0x61 + 10
    } else if 0x41 <= c as int <= 0x46 {
        c as int - 0x41 + 10
    } else {
        -1
    }
}

/// Each byte stands in hexadecimal as two digits, the higher first, small letters
/// in the one form and capitals in the other.
pub proof fn law_hexadecimal_reads_back(bytes: Seq<u8>, i: int)
    requires
        0 <= i < bytes.len(),
    ensures
        hex_of(bytes).len() == 2 * bytes.len(),
        hex_upper_of(bytes).len() == 2 * bytes.len(),
        bytes[i] == 16 * hex_value(hex_of(bytes)[2 * i]) + hex_value(hex_of(bytes)[2 * i + 1]),
        bytes[i] == 16 * hex_value(hex_upper_of(bytes)[2 * i]) + hex_value(
            hex_upper_of(bytes)[2 * i + 1],
        ),
        forall|k: int|
            0 <= k < 2 * bytes.len() ==> !('A' <= #[trigger] hex_of(bytes)[k] <= 'Z'),
        forall|k: int|
            0 <= k < 2 * bytes.len() ==> !('a' <= #[trigger] hex_upper_of(bytes)[k] <= 'z'),
{
    assert((2 * i) / 2 == i && (2 * i) % 2 == 0);
    assert((2 * i + 1) / 2 == i && (2 * i + 1) % 2 == 1);
}

/// `std::str::from_utf8` gives the text that the bytes encode, and refuses
/// bytes that are not valid UTF-8.
#[verifier::external_body]
pub(crate) fn utf8_text(bytes: &[u8]) -> (r: Option<String>)
    ensures
        match r {
            Some(text) => vstd::utf8::valid_utf8(bytes@) && text@ == vstd::utf8::decode_utf8(bytes@),
            None => !vstd::utf8::valid_utf8(bytes@),
        },
{
    std::str::from_utf8(bytes).ok().map(str::to_owned)
}

/// The text that the `Debug` format of `str` writes for a text: in double
/// quotes, with escapes.
pub uninterp spec fn quoted_text(value: Seq<char>) -> Seq<char>;

/// The `Debug` format of `str` writes a text in double quotes, with escapes.
/// What is escaped is left to the name.
#[verifier::external_body]
pub(crate) fn quote(value: &str) -> (r: String)
    ensures
        r@ == quoted_text(value@),
{
    format!("{value:?}")
}

/// The text that `String::from_utf8_lossy` makes of bytes.
pub uninterp spec fn utf8_lossy(bytes: Seq<u8>) -> Seq<char>;

/// `String::from_utf8_lossy` gives a text for any bytes, with the replacement
/// character for what is not UTF-8; valid UTF-8 gives the text that it encodes.
/// Where the replacement characters stand is left to the name.
#[verifier::external_body]
pub(crate) fn lossy_text(bytes: &[u8]) -> (r: String)
    ensures
        r@ == utf8_lossy(bytes@),
        vstd::utf8::valid_utf8(bytes@) ==> r@ == vstd::utf8::decode_utf8(bytes@),
{
    String::from_utf8_lossy(bytes).into_owned()
}

/// Lists of texts are known by each of their texts in its place.
pub proof fn law_lists_are_known_by_their_texts(items: Seq<&str>, owned: Seq<String>, i: int)
    ensures
        texts(items).len() == items.len(),
        0 <= i < items.len() ==> texts(items)[i] == items[i]@,
        owned_texts(owned).len() == owned.len(),
        0 <= i < owned.len() ==> owned_texts(owned)[i] == owned[i]@,
{
}

} // verus!
