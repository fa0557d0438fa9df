//! JSON texts.

use vstd::prelude::*;
use crate::text;

verus! {

/// How a character stands in a JSON string.
pub open spec fn escaped_char(c: char) -> Seq<char> {
    if c == '"' || c == '\\' {
        seq!['\\', c]
    } else if c as u32 == 8 {
        seq!['\\', 'b']
    } else if c as u32 == 9 {
        seq!['\\', 't']
    } else if c as u32 == 10 {
        seq!['\\', 'n']
    } else if c as u32 == 12 {
        seq!['\\', 'f']
    } else if c as u32 == 13 {
        seq!['\\', 'r']
    } else if (c as u32) < 32 {
        seq![
            '\\',
            'u',
            '0',
            '0',
            text::hex_digit((c as u32 / 16) as nat),
            text::hex_digit((c as u32 % 16) as nat),
        ]
    } else {
        seq![c]
    }
}

/// How characters stand in a JSON string.
pub open spec fn escaped(value: Seq<char>) -> Seq<char>
    decreases value.len(),
{
    if value.len() == 0 {
        Seq::empty()
    } else {
        escaped(value.drop_last()) + escaped_char(value.last())
    }
}

/// The JSON string for a text.
pub open spec fn quoted(value: Seq<char>) -> Seq<char> {
    seq!['"'] + escaped(value) + seq!['"']
}

/// `serde_json::to_string` of a text puts it in quotes. Quotes, backslashes and
/// control characters below 32 are escaped, those with a short form by it and
/// the others by their code point; nothing else is changed.
#[verifier::external_body]
pub(crate) fn quote(value: &str) -> (r: String)
    ensures
        r@ == quoted(value@),
{
    serde_json::to_string(value).expect("a text is serializable")
}

/// Appends a text as a JSON string.
pub fn push_quoted(out: &mut String, value: &str)
    ensures
        final(out)@ == old(out)@ + quoted(value@),
{
    out.append(quote(value).as_str());
}

/// The JSON literal for a truth value.
pub open spec fn boolean(value: bool) -> Seq<char> {
    if value {
        "true"@
    } else {
        "false"@
    }
}

/// Appends a truth value as a JSON literal.
pub fn push_boolean(out: &mut String, value: bool)
    ensures
        final(out)@ == old(out)@ + boolean(value),
{
    if value {
        out.append("true");
    } else {
        out.append("false");
    }
}

/// Whether a text has no control characters below 32, and so no line ends.
pub open spec fn is_line(value: Seq<char>) -> bool {
    forall|i: int| 0 <= i < value.len() ==> 32 <= (#[trigger] value[i]) as u32
}

/// Texts without line ends make one without line ends.
pub proof fn lemma_line_concat(a: Seq<char>, b: Seq<char>)
    requires
        is_line(a),
        is_line(b),
    ensures
        is_line(a + b),
{
    assert forall|i: int| 0 <= i < (a + b).len() implies 32 <= (#[trigger] (a + b)[i]) as u32 by {
        if i < a.len() {
            assert((a + b)[i] == a[i]);
        } else {
            assert((a + b)[i] == b[i - a.len()]);
        }
    }
}

/// A decimal numeral has no line ends.
pub proof fn lemma_decimal_is_line(n: nat)
    ensures
        is_line(text::decimal(n)),
{
    text::lemma_decimal_is_ascii(n);
}

proof fn lemma_escaped_is_line(value: Seq<char>)
    ensures
        is_line(escaped(value)),
    decreases value.len(),
{
    if value.len() > 0 {
        lemma_escaped_is_line(value.drop_last());
        assert(is_line(escaped_char(value.last())));
        lemma_line_concat(escaped(value.drop_last()), escaped_char(value.last()));
    }
}

/// The characters of two texts stand in JSON one text after the other.
proof fn lemma_escaped_concat(a: Seq<char>, b: Seq<char>)
    ensures
        escaped(a + b) == escaped(a) + escaped(b),
    decreases b.len(),
{
    if b.len() == 0 {
        assert(a + b =~= a);
        assert(escaped(a) + escaped(b) =~= escaped(a));
    } else {
        lemma_escaped_concat(a, b.drop_last());
        assert((a + b).drop_last() =~= a + b.drop_last());
        assert((a + b).last() == b.last());
        assert(escaped(a + b) =~= escaped(a) + escaped(b));
    }
}

/// What stands in JSON for a text opens with what stands for its first character.
proof fn lemma_escaped_front(value: Seq<char>)
    requires
        value.len() > 0,
    ensures
        escaped(value) == escaped_char(value[0]) + escaped(value.skip(1)),
{
    assert(value =~= seq![value[0]] + value.skip(1));
    lemma_escaped_concat(seq![value[0]], value.skip(1));
    reveal_with_fuel(escaped, 2);
    assert(seq![value[0]].drop_last() =~= Seq::<char>::empty());
    assert(escaped(seq![value[0]]) =~= escaped_char(value[0]));
}

/// No character stands in JSON for the beginning of another, or opens with the
/// quote that ends a string.
proof fn lemma_escapes_apart(x: char, y: char, s: Seq<char>, t: Seq<char>)
    requires
        escaped_char(x) + s == escaped_char(y) + t,
    ensures
        x == y,
        s == t,
{
    let left = escaped_char(x) + s;
    let right = escaped_char(y) + t;
    assert(left[0] == right[0]);
    assert(left[0] == escaped_char(x)[0]);
    assert(right[0] == escaped_char(y)[0]);
    if escaped_char(x).len() > 1 {
        assert(escaped_char(y).len() > 1);
        assert(left[1] == escaped_char(x)[1]);
        assert(right[1] == escaped_char(y)[1]);
        if escaped_char(x).len() > 2 {
            assert(left[4] == escaped_char(x)[4] && left[5] == escaped_char(x)[5]);
            assert(right[4] == escaped_char(y)[4] && right[5] == escaped_char(y)[5]);
        }
    }
    assert(x == y);
    assert(s =~= left.skip(escaped_char(x).len() as int));
    assert(t =~= right.skip(escaped_char(y).len() as int));
}

proof fn lemma_strings_end(a: Seq<char>, b: Seq<char>, s: Seq<char>, t: Seq<char>)
    requires
        escaped(a) + seq!['"'] + s == escaped(b) + seq!['"'] + t,
    ensures
        a == b,
        s == t,
    decreases a.len(),
{
    let left = escaped(a) + seq!['"'] + s;
    let right = escaped(b) + seq!['"'] + t;
    assert(left[0] == right[0]);
    if a.len() == 0 && b.len() == 0 {
        assert(a =~= b);
        assert(s =~= left.skip(1));
        assert(t =~= right.skip(1));
    } else if a.len() == 0 {
        lemma_escaped_front(b);
        assert(right[0] == escaped_char(b[0])[0]);
        assert(left[0] == '"');
    } else if b.len() == 0 {
        lemma_escaped_front(a);
        assert(left[0] == escaped_char(a[0])[0]);
        assert(right[0] == '"');
    } else {
        lemma_escaped_front(a);
        lemma_escaped_front(b);
        let more = escaped(a.skip(1)) + seq!['"'] + s;
        let other = escaped(b.skip(1)) + seq!['"'] + t;
        assert(left =~= escaped_char(a[0]) + more);
        assert(right =~= escaped_char(b[0]) + other);
        lemma_escapes_apart(a[0], b[0], more, other);
        lemma_strings_end(a.skip(1), b.skip(1), s, t);
        assert(a =~= seq![a[0]] + a.skip(1));
        assert(b =~= seq![b[0]] + b.skip(1));
    }
}

/// A JSON string holds the whole of its text, and ends where its text does: from
/// what stands behind an equal beginning, the text and what follows it can be
/// told.
pub proof fn law_strings_hold_their_whole_text(
    a: Seq<char>,
    b: Seq<char>,
    s: Seq<char>,
    t: Seq<char>,
)
    requires
        quoted(a) + s == quoted(b) + t,
    ensures
        a == b,
        s == t,
{
    let left = quoted(a) + s;
    let right = quoted(b) + t;
    assert(left.skip(1) =~= escaped(a) + seq!['"'] + s);
    assert(right.skip(1) =~= escaped(b) + seq!['"'] + t);
    lemma_strings_end(a, b, s, t);
}

/// A text without quotes, backslashes and control characters stands in JSON as it
/// is, between two quotes.
pub proof fn law_plain_texts_are_quoted_as_they_are(value: Seq<char>)
    requires
        forall|i: int|
            0 <= i < value.len() ==> #[trigger] value[i] != '"' && value[i] != '\\' && value[i]
                as u32 >= 32,
    ensures
        quoted(value) == seq!['"'] + value + seq!['"'],
{
    lemma_plain_texts(value);
}

proof fn lemma_plain_texts(value: Seq<char>)
    requires
        forall|i: int|
            0 <= i < value.len() ==> #[trigger] value[i] != '"' && value[i] != '\\' && value[i]
                as u32 >= 32,
    ensures
        escaped(value) == value,
    decreases value.len(),
{
    if value.len() > 0 {
        assert(value[value.len() - 1] != '"');
        lemma_plain_texts(value.drop_last());
        assert(escaped(value) =~= value);
    }
}

/// A numeral ends where its digits do: from what stands behind an equal
/// beginning, the number and what follows it can be told, as long as no digit
/// follows.
pub proof fn law_numerals_end_before_other_characters(
    a: nat,
    b: nat,
    s: Seq<char>,
    t: Seq<char>,
)
    requires
        text::decimal(a) + s == text::decimal(b) + t,
        s.len() > 0 ==> !('0' <= s[0] <= '9'),
        t.len() > 0 ==> !('0' <= t[0] <= '9'),
    ensures
        a == b,
        s == t,
{
    let x = text::decimal(a);
    let y = text::decimal(b);
    let left = x + s;
    let right = y + t;
    text::law_numerals_read_back(a);
    text::law_numerals_read_back(b);
    if x.len() < y.len() {
        assert(left[x.len() as int] == s[0]);
        assert(right[x.len() as int] == y[x.len() as int]);
        assert(0x30 <= y[x.len() as int] as int <= 0x39);
    } else if y.len() < x.len() {
        assert(right[y.len() as int] == t[0]);
        assert(left[y.len() as int] == x[y.len() as int]);
        assert(0x30 <= x[y.len() as int] as int <= 0x39);
    }
    assert(x =~= left.take(x.len() as int));
    assert(y =~= right.take(y.len() as int));
    assert(s =~= left.skip(x.len() as int));
    assert(t =~= right.skip(y.len() as int));
}

/// The two truth values have the literals of JSON.
pub proof fn law_truth_values_are_literals(value: bool)
    ensures
        value ==> boolean(value) == seq!['t', 'r', 'u', 'e'],
        !value ==> boolean(value) == seq!['f', 'a', 'l', 's', 'e'],
{
    reveal_strlit("true");
    reveal_strlit("false");
    assert(value ==> boolean(value) =~= seq!['t', 'r', 'u', 'e']);
    assert(!value ==> boolean(value) =~= seq!['f', 'a', 'l', 's', 'e']);
}

/// What follows the same beginning is the same where the whole is.
pub proof fn lemma_after_same_beginning(beginning: Seq<char>, s: Seq<char>, t: Seq<char>)
    requires
        beginning + s == beginning + t,
    ensures
        s == t,
{
    assert(s =~= (beginning + s).skip(beginning.len() as int));
    assert(t =~= (beginning + t).skip(beginning.len() as int));
}

/// Any text stands in JSON without line ends or other control characters below
/// 32, whatever it holds.
pub proof fn law_quoted_text_is_one_line(value: Seq<char>)
    ensures
        is_line(quoted(value)),
{
    lemma_escaped_is_line(value);
    lemma_line_concat(seq!['"'], escaped(value));
    lemma_line_concat(seq!['"'] + escaped(value), seq!['"']);
}

} // verus!
