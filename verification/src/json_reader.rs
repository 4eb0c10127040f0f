//! Reading JSON objects of strings, numbers and `null`.

use vstd::prelude::*;

use crate::digits;
use crate::incident;
use crate::incident::MemberView;
use crate::json;
use crate::text;

verus! {

/// A value of a member.
pub enum JsonValue {
    Null,
    Number(nat),
    Text(Seq<char>),
}

/// White space between the tokens of JSON.
pub open spec fn is_space(c: char) -> bool {
    c == ' ' || c == '\t' || c == '\n' || c == '\r'
}

/// `t` without the white space at its front.
pub open spec fn skip_space(t: Seq<char>) -> Seq<char>
    decreases t.len(),
{
    if t.len() > 0 && is_space(t[0]) {
        skip_space(t.skip(1))
    } else {
        t
    }
}

/// How many digits stand at the front of `t`.
pub open spec fn digit_run(t: Seq<char>) -> nat
    decreases t.len(),
{
    if t.len() > 0 && '0' <= t[0] <= '9' {
        1 + digit_run(t.skip(1))
    } else {
        0
    }
}

/// Reads a value off the front of `t`: a string, `null`, or a number without leading zeros.
pub open spec fn read_value(t: Seq<char>) -> Option<(JsonValue, Seq<char>)> {
    if t.len() > 0 && t[0] == '"' {
        match json::read_string(t.skip(1)) {
            Some((text, rest)) => Some((JsonValue::Text(text), rest)),
            None => None,
        }
    } else if text::has_prefix(t, "null"@) {
        Some((JsonValue::Null, t.skip(4)))
    } else {
        let n = digit_run(t) as int;
        if n == 0 || (n > 1 && t[0] == '0') {
            None
        } else {
            Some((JsonValue::Number(digits::value_of(t.take(n), 10)), t.skip(n)))
        }
    }
}

/// Reads a member off the front of `t`, with the white space around it: a name, a colon, a value.
pub open spec fn read_member(t: Seq<char>) -> Option<((Seq<char>, JsonValue), Seq<char>)> {
    let start = skip_space(t);
    if start.len() == 0 || start[0] != '"' {
        None
    } else {
        match json::read_string(start.skip(1)) {
            Some((name, after_name)) => {
                let colon = skip_space(after_name);
                if colon.len() == 0 || colon[0] != ':' {
                    None
                } else {
                    match read_value(skip_space(colon.skip(1))) {
                        Some((value, rest)) => Some(((name, value), skip_space(rest))),
                        None => None,
                    }
                }
            },
            None => None,
        }
    }
}

/// Reads members off the front of `t`, with commas between them, and the brace behind the last.
pub open spec fn read_members(t: Seq<char>) -> Option<(Seq<(Seq<char>, JsonValue)>, Seq<char>)>
    decreases t.len(),
{
    match read_member(t) {
        Some((member, rest)) => if rest.len() == 0 {
            None
        } else if rest[0] == '}' {
            Some((seq![member], rest.skip(1)))
        } else if rest[0] == ',' {
            proof {
                lemma_read_member_shorter(t);
            }
            match read_members(rest.skip(1)) {
                Some((more, end)) => Some((seq![member] + more, end)),
                None => None,
            }
        } else {
            None
        },
        None => None,
    }
}

/// Reads a text that is one object and nothing else: its members, in their order.
pub open spec fn read_object(t: Seq<char>) -> Option<Seq<(Seq<char>, JsonValue)>> {
    let start = skip_space(t);
    if start.len() == 0 || start[0] != '{' {
        None
    } else {
        let inside = skip_space(start.skip(1));
        let read = if inside.len() > 0 && inside[0] == '}' {
            Some((Seq::empty(), inside.skip(1)))
        } else {
            read_members(inside)
        };
        match read {
            Some((members, rest)) => if skip_space(rest).len() == 0 {
                Some(members)
            } else {
                None
            },
            None => None,
        }
    }
}

/// Skipping white space makes nothing longer.
proof fn lemma_skip_space_not_longer(t: Seq<char>)
    ensures
        skip_space(t).len() <= t.len(),
    decreases t.len(),
{
    if t.len() > 0 && is_space(t[0]) {
        lemma_skip_space_not_longer(t.skip(1));
    }
}

/// What follows a string is shorter than the whole.
proof fn lemma_read_string_shorter(t: Seq<char>)
    ensures
        json::read_string(t) matches Some((_, rest)) ==> rest.len() < t.len(),
    decreases t.len(),
{
    if !(t.len() > 0 && t[0] == '"') {
        if let Some((_, used)) = json::read_char(t) {
            if 0 < used <= t.len() {
                lemma_read_string_shorter(t.skip(used));
            }
        }
    }
}

/// Digits at the front of a text are part of it.
proof fn lemma_digit_run_not_longer(t: Seq<char>)
    ensures
        digit_run(t) <= t.len(),
    decreases t.len(),
{
    if t.len() > 0 && '0' <= t[0] <= '9' {
        lemma_digit_run_not_longer(t.skip(1));
    }
}

/// What follows a member is shorter than the whole.
pub proof fn lemma_read_member_shorter(t: Seq<char>)
    ensures
        read_member(t) matches Some((_, rest)) ==> rest.len() < t.len(),
{
    let start = skip_space(t);
    lemma_skip_space_not_longer(t);
    if start.len() > 0 && start[0] == '"' {
        lemma_read_string_shorter(start.skip(1));
        if let Some((_, after_name)) = json::read_string(start.skip(1)) {
            let colon = skip_space(after_name);
            lemma_skip_space_not_longer(after_name);
            if colon.len() > 0 && colon[0] == ':' {
                let value = skip_space(colon.skip(1));
                lemma_skip_space_not_longer(colon.skip(1));
                lemma_digit_run_not_longer(value);
                reveal_strlit("null");
                if value.len() > 0 {
                    lemma_read_string_shorter(value.skip(1));
                }
                if let Some((_, rest)) = read_value(value) {
                    assert(rest.len() <= value.len());
                    lemma_skip_space_not_longer(rest);
                }
            }
        }
    }
}

/// What may stand behind a value: a comma, a line end, or a closing brace.
pub open spec fn ends_value(rest: Seq<char>) -> bool {
    rest.len() > 0 && (rest[0] == ',' || rest[0] == '\n' || rest[0] == '}')
}

/// `written` is the text of `value`.
pub open spec fn writes(written: Seq<char>, value: JsonValue) -> bool {
    match value {
        JsonValue::Null => written == "null"@,
        JsonValue::Number(n) => written == digits::decimal(n),
        JsonValue::Text(s) => written == json::quoted(s),
    }
}

/// Digits before something that is none form a run.
proof fn lemma_digit_run(number: Seq<char>, rest: Seq<char>)
    requires
        forall|i: int| 0 <= i < number.len() ==> '0' <= (#[trigger] number[i]) <= '9',
        rest.len() > 0 ==> !('0' <= rest[0] <= '9'),
    ensures
        digit_run(number + rest) == number.len(),
    decreases number.len(),
{
    if number.len() > 0 {
        let tail = number.skip(1);
        assert((number + rest)[0] == number[0]);
        assert((number + rest).skip(1) == tail + rest);
        assert forall|i: int| 0 <= i < tail.len() implies '0' <= (#[trigger] tail[i]) <= '9' by {
            assert(tail[i] == number[i + 1]);
        }
        lemma_digit_run(tail, rest);
    } else {
        assert(number + rest == rest);
    }
}

/// A value is read back, up to what ends it.
proof fn lemma_value_reads_back(written: Seq<char>, value: JsonValue, rest: Seq<char>)
    requires
        writes(written, value),
        ends_value(rest),
    ensures
        written.len() > 0,
        !is_space(written[0]),
        read_value(written + rest) == Some((value, rest)),
{
    let t = written + rest;
    match value {
        JsonValue::Null => {
            reveal_strlit("null");
            assert(written[0] == 'n');
            assert(t[0] == 'n');
            assert(t.subrange(0, 4) == "null"@);
            assert(t.skip(4) == rest);
        },
        JsonValue::Number(n) => {
            digits::lemma_decimal_digits(n);
            digits::lemma_value_of_in_base(n, 10);
            lemma_digit_run(written, rest);
            reveal_strlit("null");
            assert('0' <= written[0] <= '9');
            assert(t[0] == written[0]);
            if text::has_prefix(t, "null"@) {
                assert(t.subrange(0, 4)[0] == t[0]);
            }
            assert(t.take(written.len() as int) == written);
            assert(t.skip(written.len() as int) == rest);
        },
        JsonValue::Text(s) => {
            json::lemma_quoted_reads_back(s, rest);
        },
    }
}

/// A name that stands for itself inside a JSON string.
pub open spec fn is_plain_name(name: Seq<char>) -> bool {
    forall|i: int|
        0 <= i < name.len() ==> {
            let c = #[trigger] name[i];
            c != '"' && c != '\\' && !json::is_control(c)
        }
}

/// A plain name is not changed by escaping.
proof fn lemma_plain_name(name: Seq<char>)
    requires
        is_plain_name(name),
    ensures
        json::escaped(name) == name,
    decreases name.len(),
{
    if name.len() > 0 {
        lemma_plain_name(name.drop_last());
        assert(json::escaped_char(name.last()) == seq![name[name.len() - 1]]);
        assert(name.drop_last() + seq![name.last()] == name);
    }
}

/// A member without white space, before what follows it.
pub open spec fn compact(name: Seq<char>, written: Seq<char>, rest: Seq<char>) -> Seq<char> {
    seq!['"'] + name + seq!['"', ':'] + written + rest
}

/// A member without white space is read back, up to what ends it.
proof fn lemma_compact_member_reads_back(
    name: Seq<char>,
    written: Seq<char>,
    value: JsonValue,
    rest: Seq<char>,
)
    requires
        is_plain_name(name),
        writes(written, value),
        ends_value(rest),
    ensures
        read_member(compact(name, written, rest)) == Some(
            ((name, value), skip_space(rest)),
        ),
{
    lemma_plain_name(name);
    lemma_value_reads_back(written, value, rest);
    let t = compact(name, written, rest);
    let tail = written + rest;
    let after_name = seq![':'] + tail;
    assert(t == json::quoted(name) + after_name);
    json::lemma_quoted_reads_back(name, after_name);
    assert(skip_space(t) == t);
    assert(skip_space(after_name) == after_name);
    assert(after_name.skip(1) == tail);
    assert(tail[0] == written[0]);
    assert(skip_space(tail) == tail);
}

/// Members without white space are read back, when those behind the first are.
pub proof fn lemma_compact_members_read_back(
    name: Seq<char>,
    written: Seq<char>,
    value: JsonValue,
    tail: Seq<char>,
)
    requires
        is_plain_name(name),
        writes(written, value),
        read_members(tail) is Some,
    ensures
        read_members(tail) matches Some((more, end)) && read_members(
            compact(name, written, seq![','] + tail),
        ) == Some((seq![(name, value)] + more, end)),
{
    let rest = seq![','] + tail;
    lemma_compact_member_reads_back(name, written, value, rest);
    assert(skip_space(rest) == rest);
    assert(rest.skip(1) == tail);
}

/// The last member without white space is read back, up to the brace behind it.
pub proof fn lemma_last_compact_member_reads_back(
    name: Seq<char>,
    written: Seq<char>,
    value: JsonValue,
    end: Seq<char>,
)
    requires
        is_plain_name(name),
        writes(written, value),
    ensures
        read_members(compact(name, written, seq!['}'] + end)) == Some((seq![(name, value)], end)),
{
    let rest = seq!['}'] + end;
    lemma_compact_member_reads_back(name, written, value, rest);
    assert(skip_space(rest) == rest);
    assert(rest.skip(1) == end);
}

/// A member on its line is read back, up to what ends it.
proof fn lemma_member_reads_back(member: MemberView, value: JsonValue, rest: Seq<char>)
    requires
        is_plain_name(member.name),
        writes(member.value, value),
        ends_value(rest),
    ensures
        read_member(incident::member_line(member) + rest) == Some(
            ((member.name, value), skip_space(rest)),
        ),
{
    reveal_strlit("\n  \"");
    reveal_strlit("\": ");
    lemma_plain_name(member.name);
    lemma_value_reads_back(member.value, value, rest);
    let t = incident::member_line(member) + rest;
    let tail = member.value + rest;
    let after_name = seq![':', ' '] + tail;
    let start = json::quoted(member.name) + after_name;
    assert(t == seq!['\n', ' ', ' '] + start);
    lemma_skip_three(start);
    json::lemma_quoted_reads_back(member.name, after_name);
    assert(skip_space(after_name) == after_name);
    assert(after_name.skip(1) == seq![' '] + tail);
    assert((seq![' '] + tail).skip(1) == tail);
    assert(tail[0] == member.value[0]);
    assert(skip_space(tail) == tail);
    assert(skip_space(after_name.skip(1)) == tail);
}

/// The line end and the two blanks before a quoted name are skipped.
proof fn lemma_skip_three(start: Seq<char>)
    requires
        start.len() > 0,
        start[0] == '"',
    ensures
        skip_space(seq!['\n', ' ', ' '] + start) == start,
{
    let a = seq!['\n', ' ', ' '] + start;
    let b = seq![' ', ' '] + start;
    let c = seq![' '] + start;
    assert(a.skip(1) == b);
    assert(b.skip(1) == c);
    assert(c.skip(1) == start);
    assert(skip_space(c) == skip_space(start));
    assert(skip_space(b) == skip_space(c));
}

/// The members with their values.
pub open spec fn named_values(members: Seq<MemberView>, values: Seq<JsonValue>) -> Seq<
    (Seq<char>, JsonValue),
> {
    Seq::new(members.len(), |i: int| (members[i].name, values[i]))
}

/// The lines of an object are read back as its members, up to the closing brace.
proof fn lemma_members_read_back(members: Seq<MemberView>, values: Seq<JsonValue>)
    requires
        members.len() > 0,
        values.len() == members.len(),
        forall|i: int|
            0 <= i < members.len() ==> is_plain_name((#[trigger] members[i]).name) && writes(
                members[i].value,
                values[i],
            ),
    ensures
        read_members(incident::member_lines(members) + "\n}"@) == Some(
            (named_values(members, values), Seq::<char>::empty()),
        ),
    decreases members.len(),
{
    reveal_strlit("\n}");
    reveal_strlit(",");
    let end = "\n}"@;
    let t = incident::member_lines(members) + end;
    let first = (members[0].name, values[0]);
    if members.len() == 1 {
        lemma_member_reads_back(members[0], values[0], end);
        assert(end.skip(1) == seq!['}']);
        assert(skip_space(end) == skip_space(seq!['}']));
        assert(skip_space(seq!['}']) == seq!['}']);
        assert(seq!['}'].skip(1) == Seq::<char>::empty());
        assert(named_values(members, values) == seq![first]);
    } else {
        let more = members.drop_first();
        let tail = incident::member_lines(more) + end;
        let rest = seq![','] + tail;
        incident::lemma_member_lines_front(members);
        assert(","@ == seq![',']);
        assert(t == incident::member_line(members[0]) + rest);
        lemma_member_reads_back(members[0], values[0], rest);
        assert(skip_space(rest) == rest);
        assert(rest.skip(1) == tail);
        assert forall|i: int| 0 <= i < more.len() implies is_plain_name((#[trigger] more[i]).name)
            && writes(more[i].value, values.drop_first()[i]) by {
            assert(more[i] == members[i + 1]);
        }
        lemma_members_read_back(more, values.drop_first());
        assert(seq![first] + named_values(more, values.drop_first()) == named_values(
            members,
            values,
        ));
    }
}

/// The text of an object, one member to a line, is read back as that object.
pub proof fn lemma_object_reads_back(members: Seq<MemberView>, values: Seq<JsonValue>)
    requires
        members.len() > 0,
        values.len() == members.len(),
        forall|i: int|
            0 <= i < members.len() ==> is_plain_name((#[trigger] members[i]).name) && writes(
                members[i].value,
                values[i],
            ),
    ensures
        read_object(incident::object_text(members)) == Some(named_values(members, values)),
{
    reveal_strlit("{");
    reveal_strlit("\n  \"");
    let lines = incident::member_lines(members) + "\n}"@;
    let t = incident::object_text(members);
    assert(t[0] == '{');
    assert(t.skip(1) == lines);
    lemma_members_read_back(members, values);
    lemma_lines_begin(members);
    lemma_skip_space_twice(lines);
    assert(read_member(skip_space(lines)) == read_member(lines));
    assert(read_members(skip_space(lines)) == read_members(lines));
}

/// Skipping white space a second time changes nothing.
proof fn lemma_skip_space_twice(t: Seq<char>)
    ensures
        skip_space(skip_space(t)) == skip_space(t),
    decreases t.len(),
{
    if t.len() > 0 && is_space(t[0]) {
        lemma_skip_space_twice(t.skip(1));
    }
}

/// The lines of an object begin, white space aside, with the quote of a name.
proof fn lemma_lines_begin(members: Seq<MemberView>)
    requires
        members.len() > 0,
    ensures
        ({
            let start = skip_space(incident::member_lines(members) + "\n}"@);
            start.len() > 0 && start[0] == '"'
        }),
{
    reveal_strlit("\n  \"");
    let t = incident::member_lines(members) + "\n}"@;
    if members.len() > 1 {
        incident::lemma_member_lines_front(members);
    }
    let line = incident::member_line(members[0]);
    assert(t.len() >= 4 && line.len() >= 4);
    assert(t[0] == line[0] && t[1] == line[1] && t[2] == line[2] && t[3] == line[3]);
    let start = t.skip(3);
    assert(t == seq!['\n', ' ', ' '] + start);
    lemma_skip_three(start);
}

} // verus!
