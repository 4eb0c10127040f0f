//! JSON strings.

use vstd::prelude::*;

use crate::digits;
use crate::digits::write_hexadecimal;
use crate::text;
use crate::text::to_chars;

verus! {

/// A control character: the Unicode general category `Cc`.
pub open spec fn is_control(c: char) -> bool {
    let n = c as u32;
    n <= 0x1f || 0x7f <= n <= 0x9f
}

/// The characters that stand for `c` inside a JSON string.
pub open spec fn escaped_char(c: char) -> Seq<char> {
    if c == '"' {
        seq!['\\', '"']
    } else if c == '\\' {
        seq!['\\', '\\']
    } else if c == '\u{08}' {
        seq!['\\', 'b']
    } else if c == '\u{0C}' {
        seq!['\\', 'f']
    } else if c == '\n' {
        seq!['\\', 'n']
    } else if c == '\r' {
        seq!['\\', 'r']
    } else if c == '\t' {
        seq!['\\', 't']
    } else if is_control(c) {
        seq!['\\', 'u'] + digits::hexadecimal(c as nat, 4)
    } else {
        seq![c]
    }
}

/// The characters that stand for `s` inside a JSON string.
pub open spec fn escaped(s: Seq<char>) -> Seq<char>
    decreases s.len(),
{
    if s.len() == 0 {
        Seq::empty()
    } else {
        escaped(s.drop_last()) + escaped_char(s.last())
    }
}

/// The JSON string for `s`, in its quotes.
pub open spec fn quoted(s: Seq<char>) -> Seq<char> {
    seq!['"'] + escaped(s) + seq!['"']
}

/// The JSON string for a text that may be absent.
pub open spec fn quoted_or_null(s: Option<Seq<char>>) -> Seq<char> {
    match s {
        Some(inner) => quoted(inner),
        None => "null"@,
    }
}

/// Whether a character is a control character.
pub fn control(c: char) -> (result: bool)
    ensures
        result == is_control(c),
{
    let n: u32 = c as u32;
    n <= 0x1f || (0x7f <= n && n <= 0x9f)
}

/// Appends the characters that stand for `c` inside a JSON string.
fn push_escaped(out: &mut String, c: char)
    ensures
        final(out)@ == old(out)@ + escaped_char(c),
{
    if c == '"' {
        out.push('\\');
        out.push('"');
    } else if c == '\\' {
        out.push('\\');
        out.push('\\');
    } else if c == '\u{08}' {
        out.push('\\');
        out.push('b');
    } else if c == '\u{0C}' {
        out.push('\\');
        out.push('f');
    } else if c == '\n' {
        out.push('\\');
        out.push('n');
    } else if c == '\r' {
        out.push('\\');
        out.push('r');
    } else if c == '\t' {
        out.push('\\');
        out.push('t');
    } else if control(c) {
        out.push('\\');
        out.push('u');
        out.append(write_hexadecimal(c as u64, 4).as_str());
    } else {
        out.push(c);
    }
    assert(out@ == old(out)@ + escaped_char(c));
}

/// The JSON string for `value`.
pub fn json_string(value: &str) -> (out: String)
    ensures
        out@ == quoted(value@),
{
    let chars = to_chars(value);
    let mut out = String::new();
    out.push('"');
    let mut i: usize = 0;
    assert(escaped(chars@.take(0)) == Seq::<char>::empty());
    while i < chars.len()
        invariant
            i <= chars@.len(),
            out@ == seq!['"'] + escaped(chars@.take(i as int)),
        decreases chars@.len() - i,
    {
        push_escaped(&mut out, chars[i]);
        assert(chars@.take(i + 1).drop_last() == chars@.take(i as int));
        i += 1;
    }
    assert(chars@.take(i as int) == value@);
    out.push('"');
    assert(out@ == quoted(value@));
    out
}

/// The JSON string for `value`, or `null` where it is absent.
pub fn json_option_string(value: Option<&str>) -> (out: String)
    ensures
        out@ == quoted_or_null(text::opt_str_view(value)),
{
    match value {
        Some(inner) => json_string(inner),
        None => "null".to_owned(),
    }
}

/// The character that a two-character escape sequence stands for.
pub open spec fn short_escape(c: char) -> Option<char> {
    if c == '"' || c == '\\' || c == '/' {
        Some(c)
    } else if c == 'b' {
        Some('\u{08}')
    } else if c == 'f' {
        Some('\u{0C}')
    } else if c == 'n' {
        Some('\n')
    } else if c == 'r' {
        Some('\r')
    } else if c == 't' {
        Some('\t')
    } else {
        None
    }
}

/// The digits of a character code in an escape sequence: hexadecimal ones in lower case, of a code
/// that is no surrogate.
pub open spec fn is_code(code: Seq<char>) -> bool {
    &&& forall|i: int| 0 <= i < code.len() ==> digits::is_digit_char(#[trigger] code[i])
    &&& !(0xd800 <= digits::value_of(code, 16) <= 0xdfff)
}

/// Reads one character of a JSON string off the front of `t`: the character, and how many
/// characters stand for it.
pub open spec fn read_char(t: Seq<char>) -> Option<(char, int)> {
    if t.len() == 0 || t[0] == '"' || is_control(t[0]) && t[0] as u32 <= 0x1f {
        None
    } else if t[0] != '\\' {
        Some((t[0], 1))
    } else if t.len() >= 2 && t[1] == 'u' {
        if t.len() >= 6 && is_code(t.subrange(2, 6)) {
            Some((digits::value_of(t.subrange(2, 6), 16) as char, 6))
        } else {
            None
        }
    } else if t.len() >= 2 {
        match short_escape(t[1]) {
            Some(c) => Some((c, 2)),
            None => None,
        }
    } else {
        None
    }
}

/// Reads the inside of a JSON string up to its closing quote: the text, and what follows the quote.
pub open spec fn read_string(t: Seq<char>) -> Option<(Seq<char>, Seq<char>)>
    decreases t.len(),
{
    if t.len() > 0 && t[0] == '"' {
        Some((Seq::<char>::empty(), t.skip(1)))
    } else {
        match read_char(t) {
            Some((c, used)) => if 0 < used <= t.len() {
                match read_string(t.skip(used)) {
                    Some((value, rest)) => Some((seq![c] + value, rest)),
                    None => None,
                }
            } else {
                None
            },
            None => None,
        }
    }
}

/// Escaping works from the front as it does from the back.
proof fn lemma_escaped_front(s: Seq<char>)
    requires
        s.len() > 0,
    ensures
        escaped(s) == escaped_char(s.first()) + escaped(s.drop_first()),
    decreases s.len(),
{
    if s.len() == 1 {
        assert(s.drop_last() == Seq::<char>::empty());
        assert(s.drop_first() == Seq::<char>::empty());
        assert(escaped(s.drop_last()) == Seq::<char>::empty());
        assert(escaped(s.drop_first()) == Seq::<char>::empty());
        assert(escaped(s) == escaped_char(s.first()) + escaped(s.drop_first()));
    } else {
        lemma_escaped_front(s.drop_last());
        assert(s.drop_last().drop_first() == s.drop_first().drop_last());
        assert(s.drop_first().last() == s.last());
        assert(escaped(s) == escaped_char(s.first()) + escaped(s.drop_first()));
    }
}

/// The four hexadecimal digits of a control character.
proof fn lemma_control_digits(c: char)
    requires
        is_control(c),
    ensures
        digits::hexadecimal(c as nat, 4).len() == 4,
        digits::value_of(digits::hexadecimal(c as nat, 4), 16) == c as nat,
        is_code(digits::hexadecimal(c as nat, 4)),
{
    let hex = digits::hexadecimal(c as nat, 4);
    let pad = digits::zeros(4 - digits::in_base(c as nat, 16).len());
    digits::lemma_in_base_digits(c as nat, 16);
    assert forall|i: int| 0 <= i < hex.len() implies digits::is_digit_char(#[trigger] hex[i]) by {
        if i >= pad.len() {
            assert(hex[i] == digits::in_base(c as nat, 16)[i - pad.len()]);
        }
    }
    reveal_with_fuel(digits::capacity, 5);
    digits::lemma_fixed_width(c as nat, c as nat, 4, 16);
    digits::lemma_value_of_filled(c as nat, 4, 16);
}

/// An escaped character is read back as itself.
proof fn lemma_read_char(c: char, rest: Seq<char>)
    ensures
        escaped_char(c).len() > 0,
        escaped_char(c)[0] != '"',
        read_char(escaped_char(c) + rest) == Some((c, escaped_char(c).len() as int)),
{
    let t = escaped_char(c) + rest;
    if is_control(c) {
        lemma_control_digits(c);
        if escaped_char(c).len() == 6 {
            assert(t.subrange(2, 6) == digits::hexadecimal(c as nat, 4));
        }
    }
}

/// A JSON string holds its text: reading it gives the text back, up to the closing quote.
pub proof fn lemma_quoted_reads_back(s: Seq<char>, rest: Seq<char>)
    ensures
        quoted(s).len() > 0,
        (quoted(s) + rest)[0] == '"',
        read_string((quoted(s) + rest).skip(1)) == Some((s, rest)),
    decreases s.len(),
{
    let t = (quoted(s) + rest).skip(1);
    if s.len() == 0 {
        assert(t[0] == '"');
        assert(t.skip(1) == rest);
    } else {
        lemma_escaped_front(s);
        let tail = s.drop_first();
        lemma_quoted_reads_back(tail, rest);
        let after = (quoted(tail) + rest).skip(1);
        assert(t == escaped_char(s.first()) + after);
        lemma_read_char(s.first(), after);
        assert(t.skip(escaped_char(s.first()).len() as int) == after);
        assert(seq![s.first()] + tail == s);
    }
}

/// No control character, and so no line break, stands in a JSON string.
pub proof fn lemma_quoted_has_no_control(s: Seq<char>)
    ensures
        forall|i: int| 0 <= i < quoted(s).len() ==> !is_control(#[trigger] quoted(s)[i]),
{
    lemma_escaped_has_no_control(s);
}

/// No control character stands in an escaped text.
proof fn lemma_escaped_has_no_control(s: Seq<char>)
    ensures
        forall|i: int| 0 <= i < escaped(s).len() ==> !is_control(#[trigger] escaped(s)[i]),
    decreases s.len(),
{
    if s.len() > 0 {
        lemma_escaped_has_no_control(s.drop_last());
        let c = s.last();
        if is_control(c) {
            lemma_control_digits(c);
            digits::lemma_in_base_digits(c as nat, 16);
            let hex = digits::hexadecimal(c as nat, 4);
            assert forall|i: int| 0 <= i < hex.len() implies !is_control(#[trigger] hex[i]) by {
                let pad = digits::zeros(4 - digits::in_base(c as nat, 16).len());
                if i >= pad.len() {
                    assert(hex[i] == digits::in_base(c as nat, 16)[i - pad.len()]);
                }
            }
        }
        let e = escaped_char(c);
        assert forall|i: int| 0 <= i < e.len() implies !is_control(#[trigger] e[i]) by {
            if e.len() == 6 {
                if i >= 2 {
                    assert(e[i] == digits::hexadecimal(c as nat, 4)[i - 2]);
                }
            }
        }
        let before = escaped(s.drop_last());
        assert forall|i: int| 0 <= i < escaped(s).len() implies !is_control(
            #[trigger] escaped(s)[i],
        ) by {
            if i < before.len() {
                assert(escaped(s)[i] == before[i]);
            } else {
                assert(escaped(s)[i] == e[i - before.len()]);
            }
        }
    }
}

/// Two texts with the same JSON string are the same.
pub proof fn lemma_quoted_injective(a: Seq<char>, b: Seq<char>)
    requires
        quoted(a) == quoted(b),
    ensures
        a == b,
{
    lemma_quoted_reads_back(a, Seq::empty());
    lemma_quoted_reads_back(b, Seq::empty());
}

} // verus!
