//! What holds of text helpers, numbers written out, and sliding windows, for all inputs.

use vstd::prelude::*;

use crate::digits;
use crate::text;
use crate::window;

verus! {

/// White space is what Unicode calls so: tab to carriage return, the blank, and the wider blanks.
pub proof fn lemma_white_space(c: char)
    ensures
        text::is_white_space(c) <==> {
            ||| c == '\t' || c == '\n' || c == '\u{b}' || c == '\u{c}' || c == '\r'
            ||| c == ' ' || c == '\u{85}' || c == '\u{a0}' || c == '\u{1680}'
            ||| '\u{2000}' <= c <= '\u{200a}'
            ||| c == '\u{2028}' || c == '\u{2029}' || c == '\u{202f}' || c == '\u{205f}'
            ||| c == '\u{3000}'
        },
{
}

/// Trimming the end keeps the front of a text, drops white space alone, and leaves none at the end.
pub proof fn lemma_trimmed_end(s: Seq<char>)
    ensures
        text::trimmed_end(s).len() <= s.len(),
        text::trimmed_end(s) == s.take(text::trimmed_end(s).len() as int),
        forall|k: int|
            text::trimmed_end(s).len() <= k < s.len() ==> text::is_white_space(#[trigger] s[k]),
        text::trimmed_end(s).len() > 0 ==> !text::is_white_space(text::trimmed_end(s).last()),
    decreases s.len(),
{
    if s.len() > 0 && text::is_white_space(s.last()) {
        lemma_trimmed_end(s.drop_last());
        let n = text::trimmed_end(s).len() as int;
        assert(s.drop_last().take(n) == s.take(n));
        assert forall|k: int| n <= k < s.len() implies text::is_white_space(#[trigger] s[k]) by {
            if k < s.len() - 1 {
                assert(s.drop_last()[k] == s[k]);
            }
        }
    } else {
        assert(s.take(s.len() as int) == s);
    }
}

/// Trimming the front keeps the end of a text, drops white space alone, and leaves none in front.
pub proof fn lemma_trimmed_start(s: Seq<char>)
    ensures
        text::trimmed_start(s).len() <= s.len(),
        text::trimmed_start(s) == s.skip(s.len() - text::trimmed_start(s).len()),
        forall|k: int|
            0 <= k < s.len() - text::trimmed_start(s).len() ==> text::is_white_space(
                #[trigger] s[k],
            ),
        text::trimmed_start(s).len() > 0 ==> !text::is_white_space(text::trimmed_start(s)[0]),
    decreases s.len(),
{
    if s.len() > 0 && text::is_white_space(s.first()) {
        let tail = s.drop_first();
        lemma_trimmed_start(tail);
        let n = text::trimmed_start(s).len() as int;
        assert(tail.skip(tail.len() - n) == s.skip(s.len() - n));
        assert forall|k: int| 0 <= k < s.len() - n implies text::is_white_space(#[trigger] s[k]) by {
            if k > 0 {
                assert(tail[k - 1] == s[k]);
            }
        }
    } else {
        assert(s.skip(0) == s);
    }
}

/// Trimming keeps a run of a text, drops white space alone before and behind it, and leaves none at
/// its ends.
pub proof fn lemma_trimmed(s: Seq<char>) -> (span: (int, int))
    ensures
        0 <= span.0 <= span.1 <= s.len(),
        text::trimmed(s) == s.subrange(span.0, span.1),
        forall|k: int| 0 <= k < span.0 ==> text::is_white_space(#[trigger] s[k]),
        forall|k: int| span.1 <= k < s.len() ==> text::is_white_space(#[trigger] s[k]),
        span.0 < span.1 ==> !text::is_white_space(s[span.0]) && !text::is_white_space(
            s[span.1 - 1],
        ),
{
    lemma_trimmed_end(s);
    let kept = text::trimmed_end(s);
    lemma_trimmed_start(kept);
    let end = kept.len() as int;
    let start = end - text::trimmed(s).len();
    assert(text::trimmed(s) == s.subrange(start, end));
    assert forall|k: int| 0 <= k < start implies text::is_white_space(#[trigger] s[k]) by {
        assert(kept[k] == s[k]);
    }
    if start < end {
        assert(text::trimmed(s)[0] == s[start]);
        assert(kept.last() == s[end - 1]);
    }
    (start, end)
}

/// A text begins with another where its front is that text.
pub proof fn lemma_prefix(s: Seq<char>, prefix: Seq<char>)
    ensures
        text::has_prefix(s, prefix) <==> prefix.len() <= s.len() && s.take(prefix.len() as int)
            == prefix,
{
    if prefix.len() <= s.len() {
        assert(s.take(prefix.len() as int) == s.subrange(0, prefix.len() as int));
    }
}

/// A text ends with another where its end is that text.
pub proof fn lemma_suffix(s: Seq<char>, suffix: Seq<char>)
    ensures
        text::has_suffix(s, suffix) <==> suffix.len() <= s.len() && s.skip(s.len() - suffix.len())
            == suffix,
{
    if suffix.len() <= s.len() {
        assert(s.skip(s.len() - suffix.len()) == s.subrange(
            s.len() - suffix.len(),
            s.len() as int,
        ));
    }
}

/// A text occurs in another where that one is made up of something, the text, and something.
pub proof fn lemma_occurs(before: Seq<char>, pattern: Seq<char>, behind: Seq<char>)
    ensures
        text::occurs_at(before + pattern + behind, pattern, before.len() as int),
        text::occurs_in(before + pattern + behind, pattern),
{
    let s = before + pattern + behind;
    let at = before.len() as int;
    assert(s.subrange(at, at + pattern.len()) == pattern);
    assert(text::occurs_at(s, pattern, at));
}

/// Where a text occurs in another, that one is made up of something, the text, and something.
pub proof fn lemma_occurrence_splits(s: Seq<char>, pattern: Seq<char>, at: int)
    requires
        text::occurs_at(s, pattern, at),
    ensures
        0 <= at <= s.len() - pattern.len(),
        s == s.take(at) + pattern + s.skip(at + pattern.len()),
{
    assert(s == s.take(at) + s.subrange(at, at + pattern.len()) + s.skip(at + pattern.len()));
}

/// A text occurs where it occurs at some position, and first where it occurs at none before.
pub proof fn lemma_occurrences(s: Seq<char>, pattern: Seq<char>, at: int)
    ensures
        text::occurs_in(s, pattern) <==> exists|k: int|
            0 <= k <= s.len() - pattern.len() && #[trigger] s.subrange(k, k + pattern.len())
                == pattern,
        text::first_occurrence(s, pattern, at) <==> {
            &&& 0 <= at <= s.len() - pattern.len()
            &&& s.subrange(at, at + pattern.len()) == pattern
            &&& forall|k: int|
                0 <= k < at ==> #[trigger] s.subrange(k, k + pattern.len()) != pattern
        },
{
    if text::occurs_in(s, pattern) {
        let k = choose|k: int| text::occurs_at(s, pattern, k);
        assert(s.subrange(k, k + pattern.len()) == pattern);
    }
    if exists|k: int|
        0 <= k <= s.len() - pattern.len() && #[trigger] s.subrange(k, k + pattern.len())
            == pattern {
        let k = choose|k: int|
            0 <= k <= s.len() - pattern.len() && #[trigger] s.subrange(k, k + pattern.len())
                == pattern;
        assert(text::occurs_at(s, pattern, k));
    }
    if text::first_occurrence(s, pattern, at) {
        assert forall|k: int| 0 <= k < at implies #[trigger] s.subrange(k, k + pattern.len())
            != pattern by {
            assert(!text::occurs_at(s, pattern, k));
        }
    }
}

/// Texts with a separator between each two.
pub open spec fn with_separators(pieces: Seq<Seq<char>>, separator: char) -> Seq<char>
    decreases pieces.len(),
{
    if pieces.len() == 0 {
        Seq::empty()
    } else if pieces.len() == 1 {
        pieces[0]
    } else {
        with_separators(pieces.drop_last(), separator).push(separator) + pieces.last()
    }
}

/// The pieces of a text hold no separator, and make up the text again with separators between them.
pub proof fn lemma_pieces(s: Seq<char>, separator: char)
    ensures
        text::pieces(s, separator).len() > 0,
        forall|i: int|
            0 <= i < text::pieces(s, separator).len() ==> !(#[trigger] text::pieces(
                s,
                separator,
            )[i]).contains(separator),
        with_separators(text::pieces(s, separator), separator) == s,
    decreases s.len(),
{
    let all = text::pieces(s, separator);
    if s.len() > 0 {
        let front = s.drop_last();
        let before = text::pieces(front, separator);
        lemma_pieces(front, separator);
        if s.last() == separator {
            assert(all.drop_last() == before);
            assert(with_separators(all, separator) == front.push(separator) + Seq::<char>::empty());
            assert(front.push(separator) == s);
        } else {
            let last = before.last().push(s.last());
            assert(all == before.drop_last().push(last));
            assert(all.drop_last() == before.drop_last());
            assert(!before[before.len() - 1].contains(separator));
            assert(!last.contains(separator)) by {
                if last.contains(separator) {
                    let k = choose|k: int| 0 <= k < last.len() && last[k] == separator;
                    assert(before.last()[k] == separator);
                }
            }
            assert forall|i: int| 0 <= i < all.len() implies !(#[trigger] all[i]).contains(
                separator,
            ) by {
                if i < before.len() - 1 {
                    assert(all[i] == before[i]);
                }
            }
            if before.len() == 1 {
                assert(with_separators(all, separator) == last);
                assert(last == s);
            } else {
                let lead = with_separators(before.drop_last(), separator).push(separator);
                assert(lead + last == (lead + before.last()).push(s.last()));
                assert(with_separators(all, separator) == s);
            }
        }
    } else {
        assert(all == seq![Seq::<char>::empty()]);
    }
}

/// A text is cut at the first separator: the left part holds none, and both parts make up the text
/// again. It is not cut where it holds none.
pub proof fn lemma_cut(s: Seq<char>, separator: char)
    ensures
        text::cut_once(s, separator) is None <==> !s.contains(separator),
        text::cut_once(s, separator) matches Some((left, right)) ==> !left.contains(separator)
            && left.push(separator) + right == s,
    decreases s.len(),
{
    if s.len() > 0 {
        let tail = s.drop_first();
        if s.first() == separator {
            assert(s[0] == separator);
            assert(Seq::<char>::empty().push(separator) + tail == s);
        } else {
            lemma_cut(tail, separator);
            if s.contains(separator) {
                let k = choose|k: int| 0 <= k < s.len() && s[k] == separator;
                assert(tail[k - 1] == separator);
            }
            if tail.contains(separator) {
                let k = choose|k: int| 0 <= k < tail.len() && tail[k] == separator;
                assert(s[k + 1] == separator);
            }
            if let Some((left, right)) = text::cut_once(tail, separator) {
                let whole = seq![s.first()] + left;
                if whole.contains(separator) {
                    let k = choose|k: int| 0 <= k < whole.len() && whole[k] == separator;
                    assert(left[k - 1] == separator);
                }
                assert(whole.push(separator) + right == seq![s.first()] + (left.push(separator)
                    + right));
                assert(seq![s.first()] + tail == s);
            }
        }
    }
}

/// The views of lists and options keep their length, their order, and what is absent.
pub proof fn lemma_text_views(list: Seq<String>, one: Option<String>, part: Option<&str>)
    ensures
        text::views(list).len() == list.len(),
        forall|i: int| 0 <= i < list.len() ==> (#[trigger] text::views(list)[i]) == list[i]@,
        one is None ==> text::opt_view(one) is None,
        one is Some ==> text::opt_view(one) == Some(one->0@),
        part is None ==> text::opt_str_view(part) is None,
        part is Some ==> text::opt_str_view(part) == Some(part->0@),
{
}

/// A text or its default, and the debug text of an option.
pub proof fn lemma_text_or(present: Seq<char>, default: Seq<char>)
    ensures
        text::text_or(Some(present), default) == present,
        text::text_or(None, default) == default,
        text::opt_debug(Some(present)) == "Some("@ + text::str_debug(present) + ")"@,
        text::opt_debug(None) == "None"@,
{
}

/// A digit more multiplies a number by ten: that is how decimals are written.
pub proof fn lemma_decimal_step(n: nat, d: nat)
    requires
        d < 10,
    ensures
        digits::decimal(d) == seq![(0x30 + d) as char],
        n > 0 ==> digits::decimal(10 * n + d) == digits::decimal(n).push((0x30 + d) as char),
{
    if n > 0 {
        assert((10 * n + d) / 10 == n && (10 * n + d) % 10 == d);
    }
}

/// A digit more multiplies a number by sixteen: that is how hexadecimals are written, in lower case.
pub proof fn lemma_hexadecimal_step(n: nat, d: nat)
    requires
        d < 16,
    ensures
        d < 10 ==> digits::in_base(d, 16) == seq![(0x30 + d) as char],
        d >= 10 ==> digits::in_base(d, 16) == seq![(0x61 + (d - 10)) as char],
        n > 0 ==> digits::in_base(16 * n + d, 16) == digits::in_base(n, 16)
            + digits::in_base(d, 16),
{
    if n > 0 {
        assert((16 * n + d) / 16 == n && (16 * n + d) % 16 == d);
        assert(digits::in_base(n, 16).push(digits::digit_char(d)) == digits::in_base(n, 16)
            + digits::in_base(d, 16));
    }
}

/// Filling up puts zeros in front of a number, up to the width, and leaves what is wider alone.
pub proof fn lemma_zero_filled(number: Seq<char>, width: nat)
    ensures
        digits::zero_filled(number, width).len() == if number.len() >= width {
            number.len()
        } else {
            width
        },
        digits::zero_filled(number, width).skip(
            digits::zero_filled(number, width).len() - number.len(),
        ) == number,
        forall|i: int|
            0 <= i < digits::zero_filled(number, width).len() - number.len() ==> (
            #[trigger] digits::zero_filled(number, width)[i]) == '0',
{
}

/// A signed number and a hexadecimal of a width, by the numbers that they are made of.
pub proof fn lemma_filled_numbers(n: nat, width: nat)
    ensures
        digits::signed_decimal(n as int, width) == digits::zero_filled(digits::decimal(n), width),
        n > 0 && width > 0 ==> digits::signed_decimal(-n, width) == seq!['-']
            + digits::zero_filled(digits::decimal(n), (width - 1) as nat),
        n > 0 ==> digits::signed_decimal(-n, 0) == seq!['-'] + digits::decimal(n),
        digits::hexadecimal(n, width) == digits::zero_filled(digits::in_base(n, 16), width),
{
    assert(digits::zero_filled(digits::decimal(n), 0) == digits::decimal(n));
}

/// The times in a window: each new one stays unless it lies more than the span before now, and the
/// others stay in their order.
pub proof fn lemma_window(times: Seq<u128>, time: u128, now: u128, span: u128)
    ensures
        window::recent(Seq::empty(), now, span) == Seq::<u128>::empty(),
        window::in_window(now, time, span) <==> now <= time + span,
        window::recent(times.push(time), now, span) == if now <= time + span {
            window::recent(times, now, span).push(time)
        } else {
            window::recent(times, now, span)
        },
{
    reveal(Seq::filter);
    assert(times.push(time).drop_last() == times);
}

} // verus!
