//! Text helpers over the characters of a string.
//!
//! A string is modelled by its sequence of characters, so every position in
//! this module counts characters, never bytes.

use vstd::prelude::*;

verus! {

/// Appends one character to the end of a `String` (`std::string::String::push`).
pub assume_specification[ String::push ](s: &mut String, c: char)
    ensures
        final(s)@ == old(s)@.push(c),
;

/// The text that `<str as std::fmt::Debug>::fmt` writes for a string.
pub uninterp spec fn str_debug(text: Seq<char>) -> Seq<char>;

/// `<str as std::fmt::Debug>::fmt` writes a string in quotes, with escape sequences where it sees
/// fit; which it takes depends on the string alone.
#[verifier::external_body]
pub(crate) fn debug_str(text: &str) -> (written: String)
    ensures
        written@ == str_debug(text@),
{
    format!("{:?}", text)
}

/// The debug text of an optional string.
pub open spec fn opt_debug(text: Option<Seq<char>>) -> Seq<char> {
    match text {
        Some(inner) => "Some("@ + str_debug(inner) + ")"@,
        None => "None"@,
    }
}

/// The debug text of an optional string.
pub fn debug_opt(text: &Option<String>) -> (written: String)
    ensures
        written@ == opt_debug(opt_view(*text)),
{
    match text {
        Some(inner) => {
            let mut written = "Some(".to_owned();
            written.append(debug_str(inner.as_str()).as_str());
            written.append(")");
            written
        },
        None => "None".to_owned(),
    }
}

/// The characters with the Unicode property `White_Space`.
pub open spec fn is_white_space(c: char) -> bool {
    let n = c as u32;
    ||| 0x09 <= n <= 0x0d
    ||| n == 0x20
    ||| n == 0x85
    ||| n == 0xa0
    ||| n == 0x1680
    ||| 0x2000 <= n <= 0x200a
    ||| n == 0x2028
    ||| n == 0x2029
    ||| n == 0x202f
    ||| n == 0x205f
    ||| n == 0x3000
}

/// `s` without its trailing white space.
pub open spec fn trimmed_end(s: Seq<char>) -> Seq<char>
    decreases s.len(),
{
    if s.len() > 0 && is_white_space(s.last()) {
        trimmed_end(s.drop_last())
    } else {
        s
    }
}

/// `s` without its leading white space.
pub open spec fn trimmed_start(s: Seq<char>) -> Seq<char>
    decreases s.len(),
{
    if s.len() > 0 && is_white_space(s.first()) {
        trimmed_start(s.drop_first())
    } else {
        s
    }
}

/// `s` without white space at either end.
pub open spec fn trimmed(s: Seq<char>) -> Seq<char> {
    trimmed_start(trimmed_end(s))
}

/// `pattern` occurs in `s` at position `at`.
pub open spec fn occurs_at(s: Seq<char>, pattern: Seq<char>, at: int) -> bool {
    &&& 0 <= at
    &&& at + pattern.len() <= s.len()
    &&& s.subrange(at, at + pattern.len()) == pattern
}

/// `pattern` occurs somewhere in `s`.
pub open spec fn occurs_in(s: Seq<char>, pattern: Seq<char>) -> bool {
    exists|at: int| occurs_at(s, pattern, at)
}

/// `at` is the first position at which `pattern` occurs in `s`.
pub open spec fn first_occurrence(s: Seq<char>, pattern: Seq<char>, at: int) -> bool {
    &&& occurs_at(s, pattern, at)
    &&& forall|earlier: int| 0 <= earlier < at ==> !occurs_at(s, pattern, earlier)
}

/// `s` begins with `prefix`.
pub open spec fn has_prefix(s: Seq<char>, prefix: Seq<char>) -> bool {
    occurs_at(s, prefix, 0)
}

/// `s` ends with `suffix`.
pub open spec fn has_suffix(s: Seq<char>, suffix: Seq<char>) -> bool {
    occurs_at(s, suffix, s.len() - suffix.len())
}

/// The pieces of `s` between the occurrences of `separator`, in order.
pub open spec fn pieces(s: Seq<char>, separator: char) -> Seq<Seq<char>>
    decreases s.len(),
{
    if s.len() == 0 {
        seq![Seq::<char>::empty()]
    } else {
        let before = pieces(s.drop_last(), separator);
        if s.last() == separator {
            before.push(Seq::<char>::empty())
        } else {
            before.drop_last().push(before.last().push(s.last()))
        }
    }
}

/// `s` cut at the first `separator`, or `None` where it has none.
pub open spec fn cut_once(s: Seq<char>, separator: char) -> Option<(Seq<char>, Seq<char>)>
    decreases s.len(),
{
    if s.len() == 0 {
        None
    } else if s.first() == separator {
        Some((Seq::<char>::empty(), s.drop_first()))
    } else {
        match cut_once(s.drop_first(), separator) {
            Some((left, right)) => Some((seq![s.first()] + left, right)),
            None => None,
        }
    }
}

/// The characters of each string of a list.
pub open spec fn views(list: Seq<String>) -> Seq<Seq<char>> {
    list.map_values(|s: String| s@)
}

/// The characters of an optional string.
pub open spec fn opt_view(s: Option<String>) -> Option<Seq<char>> {
    match s {
        Some(inner) => Some(inner@),
        None => None,
    }
}

/// The characters of an optional string slice.
pub open spec fn opt_str_view(s: Option<&str>) -> Option<Seq<char>> {
    match s {
        Some(inner) => Some(inner@),
        None => None,
    }
}

/// The value of an optional text, or a default where it is absent.
pub open spec fn text_or(s: Option<Seq<char>>, default: Seq<char>) -> Seq<char> {
    match s {
        Some(inner) => inner,
        None => default,
    }
}

/// Whether a character has the Unicode property `White_Space`.
pub fn white_space(c: char) -> (result: bool)
    ensures
        result == is_white_space(c),
{
    let n: u32 = c as u32;
    (0x09 <= n && n <= 0x0d) || n == 0x20 || n == 0x85 || n == 0xa0 || n == 0x1680 || (0x2000 <= n
        && n <= 0x200a) || n == 0x2028 || n == 0x2029 || n == 0x202f || n == 0x205f || n == 0x3000
}

/// The characters of `s` as a vector.
pub fn to_chars(s: &str) -> (chars: Vec<char>)
    ensures
        chars@ == s@,
{
    let mut chars: Vec<char> = Vec::new();
    for c in it: s.chars()
        invariant
            chars@ == s@.take(it.index()),
            it.seq() == s@,
    {
        chars.push(c);
    }
    chars
}

/// The string made of `chars[from..to]`.
pub fn from_chars(chars: &Vec<char>, from: usize, to: usize) -> (s: String)
    requires
        from <= to <= chars@.len(),
    ensures
        s@ == chars@.subrange(from as int, to as int),
{
    let mut s = String::new();
    let mut i: usize = from;
    while i < to
        invariant
            from <= i <= to <= chars@.len(),
            s@ == chars@.subrange(from as int, i as int),
        decreases to - i,
    {
        s.push(chars[i]);
        i += 1;
        assert(chars@.subrange(from as int, i as int) == chars@.subrange(
            from as int,
            i - 1,
        ).push(chars@[i - 1]));
    }
    s
}

/// The slice of an optional string.
pub fn as_opt_str(s: &Option<String>) -> (result: Option<&str>)
    ensures
        opt_str_view(result) == opt_view(*s),
{
    match s {
        Some(inner) => Some(inner.as_str()),
        None => None,
    }
}

/// Whether two strings hold the same characters.
pub fn same_text(a: &str, b: &str) -> (result: bool)
    ensures
        result == (a@ == b@),
{
    a.to_owned() == b.to_owned()
}

/// Whether `pattern` stands in `chars` at position `at`.
fn matches_at(chars: &Vec<char>, pattern: &Vec<char>, at: usize) -> (result: bool)
    requires
        at + pattern@.len() <= chars@.len(),
    ensures
        result == occurs_at(chars@, pattern@, at as int),
{
    let mut i: usize = 0;
    while i < pattern.len()
        invariant
            i <= pattern@.len(),
            at + pattern.len() <= chars.len(),
            forall|k: int| 0 <= k < i ==> chars@[at + k] == pattern@[k],
        decreases pattern@.len() - i,
    {
        if chars[at + i] != pattern[i] {
            assert(chars@.subrange(at as int, at + pattern@.len())[i as int] != pattern@[i as int]);
            return false;
        }
        i += 1;
    }
    assert(chars@.subrange(at as int, at + pattern@.len()) == pattern@);
    true
}

/// Whether `s` begins with `prefix`.
pub fn starts_with(s: &str, prefix: &str) -> (result: bool)
    ensures
        result == has_prefix(s@, prefix@),
{
    let chars = to_chars(s);
    let pattern = to_chars(prefix);
    pattern.len() <= chars.len() && matches_at(&chars, &pattern, 0)
}

/// Whether `s` ends with `suffix`.
pub fn ends_with(s: &str, suffix: &str) -> (result: bool)
    ensures
        result == has_suffix(s@, suffix@),
{
    let chars = to_chars(s);
    let pattern = to_chars(suffix);
    pattern.len() <= chars.len() && matches_at(&chars, &pattern, chars.len() - pattern.len())
}

/// The first position of `pattern` in `chars`.
fn position(chars: &Vec<char>, pattern: &Vec<char>) -> (result: Option<usize>)
    ensures
        match result {
            Some(at) => first_occurrence(chars@, pattern@, at as int),
            None => !occurs_in(chars@, pattern@),
        },
{
    if pattern.len() > chars.len() {
        return None;
    }
    let last: usize = chars.len() - pattern.len();
    let mut at: usize = 0;
    while at <= last
        invariant
            last + pattern@.len() == chars@.len(),
            at <= last + 1,
            forall|k: int| 0 <= k < at ==> !occurs_at(chars@, pattern@, k),
        decreases last + 1 - at,
    {
        if matches_at(chars, pattern, at) {
            return Some(at);
        }
        if at == last {
            return None;
        }
        at += 1;
    }
    None
}

/// The position, in characters, at which `pattern` first occurs in `s`.
pub fn find(s: &str, pattern: &str) -> (result: Option<usize>)
    ensures
        match result {
            Some(at) => first_occurrence(s@, pattern@, at as int),
            None => !occurs_in(s@, pattern@),
        },
{
    let chars = to_chars(s);
    let wanted = to_chars(pattern);
    position(&chars, &wanted)
}

/// Whether `pattern` occurs in `s`.
pub fn contains(s: &str, pattern: &str) -> (result: bool)
    ensures
        result == occurs_in(s@, pattern@),
{
    find(s, pattern).is_some()
}

/// The characters of `s` from position `from` up to position `to`.
pub fn slice(s: &str, from: usize, to: usize) -> (result: String)
    requires
        from <= to <= s@.len(),
    ensures
        result@ == s@.subrange(from as int, to as int),
{
    let chars = to_chars(s);
    from_chars(&chars, from, to)
}

/// `s` without its trailing white space.
pub fn trim_end(s: &str) -> (result: String)
    ensures
        result@ == trimmed_end(s@),
{
    let chars = to_chars(s);
    let end: usize = end_of_text(&chars);
    assert(chars@.take(end as int) == chars@.subrange(0, end as int));
    from_chars(&chars, 0, end)
}

/// The position behind the last character of `chars` that is not white space.
fn end_of_text(chars: &Vec<char>) -> (end: usize)
    ensures
        end <= chars@.len(),
        chars@.take(end as int) == trimmed_end(chars@),
{
    let mut end: usize = chars.len();
    assert(chars@.take(end as int) == chars@);
    while end > 0 && white_space(chars[end - 1])
        invariant
            end <= chars@.len(),
            trimmed_end(chars@.take(end as int)) == trimmed_end(chars@),
        decreases end,
    {
        assert(chars@.take(end as int).drop_last() == chars@.take(end - 1));
        end -= 1;
    }
    end
}

/// `s` without white space at either end.
pub fn trim(s: &str) -> (result: String)
    ensures
        result@ == trimmed(s@),
{
    let chars = to_chars(s);
    let end: usize = end_of_text(&chars);
    let ghost kept = chars@.take(end as int);
    let mut start: usize = 0;
    assert(kept.skip(0) == kept);
    while start < end && white_space(chars[start])
        invariant
            start <= end <= chars@.len(),
            kept == chars@.take(end as int),
            trimmed_start(kept.skip(start as int)) == trimmed_start(kept),
        decreases end - start,
    {
        assert(kept.skip(start as int).drop_first() == kept.skip(start + 1));
        start += 1;
    }
    assert(kept.skip(start as int) == chars@.subrange(start as int, end as int));
    from_chars(&chars, start, end)
}

/// The pieces of `s` between the occurrences of `separator`.
pub fn split(s: &str, separator: char) -> (result: Vec<String>)
    ensures
        views(result@) == pieces(s@, separator),
{
    let chars = to_chars(s);
    let mut done: Vec<String> = Vec::new();
    let mut current = String::new();
    let mut i: usize = 0;
    assert(views(done@).push(current@) == pieces(chars@.take(0), separator));
    while i < chars.len()
        invariant
            i <= chars@.len(),
            views(done@).push(current@) == pieces(chars@.take(i as int), separator),
        decreases chars@.len() - i,
    {
        let ghost before = views(done@).push(current@);
        let ghost held = views(done@);
        assert(chars@.take(i + 1).drop_last() == chars@.take(i as int));
        assert(before.drop_last() == held);
        if chars[i] == separator {
            done.push(current);
            assert(views(done@) == before);
            current = String::new();
        } else {
            current.push(chars[i]);
        }
        i += 1;
    }
    assert(chars@.take(i as int) == s@);
    let ghost before = views(done@).push(current@);
    done.push(current);
    assert(views(done@) == before);
    done
}

/// `s` cut at the first `separator`.
pub fn split_once(s: &str, separator: char) -> (result: Option<(String, String)>)
    ensures
        match result {
            Some((left, right)) => cut_once(s@, separator) == Some((left@, right@)),
            None => cut_once(s@, separator) is None,
        },
{
    let chars = to_chars(s);
    let mut i: usize = 0;
    while i < chars.len()
        invariant
            i <= chars@.len(),
            chars@ == s@,
            forall|k: int| 0 <= k < i ==> chars@[k] != separator,
        decreases chars@.len() - i,
    {
        if chars[i] == separator {
            proof {
                lemma_cut_once(chars@, separator, i as int);
            }
            let left = from_chars(&chars, 0, i);
            let right = from_chars(&chars, i + 1, chars.len());
            return Some((left, right));
        }
        i += 1;
    }
    proof {
        lemma_cut_none(chars@, separator);
    }
    None
}

/// Where the first `separator` stands at `at`, the cut parts are what stands before and behind it.
pub proof fn lemma_cut_once(s: Seq<char>, separator: char, at: int)
    requires
        0 <= at < s.len(),
        s[at] == separator,
        forall|k: int| 0 <= k < at ==> s[k] != separator,
    ensures
        cut_once(s, separator) == Some(
            (s.subrange(0, at), s.subrange(at + 1, s.len() as int)),
        ),
    decreases s.len(),
{
    if at == 0 {
        assert(s.subrange(0, 0) == Seq::<char>::empty());
        assert(s.drop_first() == s.subrange(1, s.len() as int));
    } else {
        let rest = s.drop_first();
        lemma_cut_once(rest, separator, at - 1);
        assert(seq![s.first()] + rest.subrange(0, at - 1) == s.subrange(0, at));
        assert(rest.subrange(at, rest.len() as int) == s.subrange(at + 1, s.len() as int));
    }
}

/// A text without the separator is not cut.
pub proof fn lemma_cut_none(s: Seq<char>, separator: char)
    requires
        forall|k: int| 0 <= k < s.len() ==> s[k] != separator,
    ensures
        cut_once(s, separator) is None,
    decreases s.len(),
{
    if s.len() > 0 {
        lemma_cut_none(s.drop_first(), separator);
    }
}

} // verus!
