//! Numbers written out in digits.

use vstd::prelude::*;

verus! {

/// The character of one digit; letters stand for ten and above.
pub open spec fn digit_char(d: nat) -> char {
    if d < 10 {
        (48 + d) as char
    } else {
        (87 + d) as char
    }
}

/// `n` in base `base`, without leading zeros; zero is `0`.
pub open spec fn in_base(n: nat, base: nat) -> Seq<char>
    decreases n,
{
    if base < 2 || n < base {
        seq![digit_char(n)]
    } else {
        proof {
            vstd::arithmetic::div_mod::lemma_div_decreases(n as int, base as int);
        }
        in_base(n / base, base).push(digit_char(n % base))
    }
}

/// `n` in decimal.
pub open spec fn decimal(n: nat) -> Seq<char> {
    in_base(n, 10)
}

/// `count` zeros.
pub open spec fn zeros(count: int) -> Seq<char> {
    Seq::new(if count > 0 { count as nat } else { 0 }, |i: int| '0')
}

/// `digits` filled up with zeros on the left to at least `width` characters.
pub open spec fn zero_filled(digits: Seq<char>, width: nat) -> Seq<char> {
    zeros(width - digits.len()) + digits
}

/// A signed number in decimal, filled up behind its sign to at least `width` characters in all.
pub open spec fn signed_decimal(n: int, width: nat) -> Seq<char> {
    if n < 0 {
        seq!['-'] + zero_filled(decimal((-n) as nat), if width > 0 { (width - 1) as nat } else { 0 })
    } else {
        zero_filled(decimal(n as nat), width)
    }
}

/// `n` in hexadecimal, in lower case, filled up to at least `width` characters.
pub open spec fn hexadecimal(n: nat, width: nat) -> Seq<char> {
    zero_filled(in_base(n, 16), width)
}

/// The character of a digit.
pub fn digit(d: u8) -> (c: char)
    requires
        d < 16,
    ensures
        c == digit_char(d as nat),
{
    if d < 10 {
        (48 + d) as char
    } else {
        (87 + d) as char
    }
}

/// Writes `n` in base ten or sixteen.
fn write_in_base(n: u128, base: u8) -> (s: String)
    requires
        base == 10 || base == 16,
    ensures
        s@ == in_base(n as nat, base as nat),
    decreases n,
{
    let wide: u128 = base as u128;
    if n < wide {
        let mut s = String::new();
        s.push(digit(n as u8));
        assert(s@ == seq![digit_char(n as nat)]);
        s
    } else {
        let mut s = write_in_base(n / wide, base);
        s.push(digit((n % wide) as u8));
        s
    }
}

/// `n` in decimal.
pub fn write_decimal(n: u128) -> (s: String)
    ensures
        s@ == decimal(n as nat),
{
    write_in_base(n, 10)
}

/// Fills `digits` up with zeros on the left to at least `width` characters.
fn fill_with_zeros(digits: &str, width: usize) -> (s: String)
    ensures
        s@ == zero_filled(digits@, width as nat),
{
    let have: usize = digits.unicode_len();
    let mut s = String::new();
    let mut i: usize = have;
    while i < width
        invariant
            have == digits@.len(),
            i >= have,
            i <= width || i == have,
            s@ == zeros(i - have),
        decreases width - i,
    {
        s.push('0');
        i += 1;
        assert(zeros(i - have) == zeros(i - 1 - have).push('0'));
    }
    assert(zeros(i - have) == zeros(width - have));
    s.append(digits);
    s
}

/// A number in decimal, filled up with zeros to at least `width` characters.
pub fn write_padded(n: u128, width: usize) -> (s: String)
    ensures
        s@ == zero_filled(decimal(n as nat), width as nat),
{
    let plain = write_decimal(n);
    fill_with_zeros(plain.as_str(), width)
}

/// A signed number in decimal, filled up behind its sign to at least `width` characters in all.
pub fn write_signed(n: i32, width: usize) -> (s: String)
    ensures
        s@ == signed_decimal(n as int, width as nat),
{
    if n < 0 {
        let magnitude: u128 = (-(n as i64)) as u128;
        let inner: usize = if width > 0 {
            width - 1
        } else {
            0
        };
        let rest = write_padded(magnitude, inner);
        let mut s = String::new();
        s.push('-');
        s.append(rest.as_str());
        assert(s@ == seq!['-'] + rest@);
        s
    } else {
        write_padded(n as u128, width)
    }
}

/// A number in hexadecimal, filled up with zeros to at least `width` characters.
pub fn write_hexadecimal(n: u64, width: usize) -> (s: String)
    ensures
        s@ == hexadecimal(n as nat, width as nat),
{
    let plain = write_in_base(n as u128, 16);
    fill_with_zeros(plain.as_str(), width)
}

/// A digit character: `0` to `9` or `a` to `f`.
pub open spec fn is_digit_char(c: char) -> bool {
    ('0' <= c && c <= '9') || ('a' <= c && c <= 'f')
}

/// A number written out in base ten or sixteen is a non-empty run of digit characters.
pub proof fn lemma_in_base_digits(n: nat, base: nat)
    requires
        base == 10 || base == 16,
    ensures
        in_base(n, base).len() > 0,
        forall|i: int| 0 <= i < in_base(n, base).len() ==> is_digit_char(#[trigger] in_base(n, base)[i]),
    decreases n,
{
    if n >= base {
        vstd::arithmetic::div_mod::lemma_div_decreases(n as int, base as int);
        lemma_in_base_digits(n / base, base);
    }
}

/// A number in decimal is a run of the digits `0` to `9`, which begins with `0` for zero alone.
pub proof fn lemma_decimal_digits(n: nat)
    ensures
        decimal(n).len() > 0,
        forall|i: int| 0 <= i < decimal(n).len() ==> '0' <= (#[trigger] decimal(n)[i]) <= '9',
        decimal(n)[0] == '0' ==> n == 0 && decimal(n).len() == 1,
    decreases n,
{
    if n >= 10 {
        lemma_decimal_digits(n / 10);
        assert(decimal(n) == decimal(n / 10).push(digit_char(n % 10)));
        assert(decimal(n)[0] == decimal(n / 10)[0]);
    } else {
        assert(decimal(n)[0] == digit_char(n));
    }
}

/// How many numbers `width` digits of base `base` can tell apart.
pub open spec fn capacity(width: nat, base: nat) -> nat
    decreases width,
{
    if width == 0 {
        1
    } else {
        base * capacity((width - 1) as nat, base)
    }
}

/// A number that fits into `width` digits is filled up to exactly that many, and can be read back
/// from them.
pub proof fn lemma_fixed_width(a: nat, b: nat, width: nat, base: nat)
    requires
        base == 10 || base == 16,
        width > 0,
        a < capacity(width, base),
        b < capacity(width, base),
    ensures
        zero_filled(in_base(a, base), width).len() == width,
        zero_filled(in_base(a, base), width) == zero_filled(in_base(b, base), width) ==> a == b,
{
    lemma_width(a, width, base);
    lemma_width(b, width, base);
    let fa = zero_filled(in_base(a, base), width);
    let fb = zero_filled(in_base(b, base), width);
    if fa == fb {
        lemma_value_of_filled(a, width, base);
        lemma_value_of_filled(b, width, base);
    }
}

/// The value of a run of digit characters.
pub open spec fn value_of(digits: Seq<char>, base: nat) -> nat
    decreases digits.len(),
{
    if digits.len() == 0 {
        0
    } else {
        base * value_of(digits.drop_last(), base) + digit_value(digits.last())
    }
}

/// The value of one digit character.
pub open spec fn digit_value(c: char) -> nat {
    if c <= '9' {
        (c as int - 48) as nat
    } else {
        (c as int - 87) as nat
    }
}

/// A number that fits into `width` digits has no more than that many.
proof fn lemma_width(n: nat, width: nat, base: nat)
    requires
        base == 10 || base == 16,
        width > 0,
        n < capacity(width, base),
    ensures
        in_base(n, base).len() <= width,
    decreases width,
{
    if n >= base {
        reveal_with_fuel(capacity, 2);
        assert(width > 1);
        assert(n / base < capacity((width - 1) as nat, base)) by (nonlinear_arith)
            requires
                base > 0,
                n < base * capacity((width - 1) as nat, base),
        ;
        lemma_width(n / base, (width - 1) as nat, base);
    }
}

/// The digits of a number have the number as their value.
pub proof fn lemma_value_of_in_base(n: nat, base: nat)
    requires
        base == 10 || base == 16,
    ensures
        value_of(in_base(n, base), base) == n,
    decreases n,
{
    let digits = in_base(n, base);
    if n < base {
        assert(digits == seq![digit_char(n)]);
        assert(digits.last() == digit_char(n));
        assert(digits.drop_last() == Seq::<char>::empty());
        assert(digit_value(digit_char(n)) == n);
        assert(base * value_of(digits.drop_last(), base) == 0);
    } else {
        assert(digit_value(digit_char(n % base)) == n % base);
        vstd::arithmetic::div_mod::lemma_div_decreases(n as int, base as int);
        lemma_value_of_in_base(n / base, base);
        assert(digits.last() == digit_char(n % base));
        assert(digits.drop_last() == in_base(n / base, base));
        vstd::arithmetic::div_mod::lemma_fundamental_div_mod(n as int, base as int);
    }
}

/// Leading zeros do not change the value of a run of digits.
proof fn lemma_leading_zeros(count: int, digits: Seq<char>, base: nat)
    ensures
        value_of(zeros(count) + digits, base) == value_of(digits, base),
    decreases zeros(count).len() + digits.len(),
{
    let all = zeros(count) + digits;
    if digits.len() > 0 {
        assert(all.drop_last() == zeros(count) + digits.drop_last());
        lemma_leading_zeros(count, digits.drop_last(), base);
    } else if count > 0 {
        assert(all.drop_last() == zeros(count - 1) + digits);
        assert(all.last() == '0');
        lemma_leading_zeros(count - 1, digits, base);
        assert(value_of(all, base) == base * value_of(all.drop_last(), base) + 0);
        assert(base * 0 == 0);
    } else {
        assert(all == digits);
    }
}

/// A number written out with leading zeros can be read back.
pub proof fn lemma_value_of_filled(n: nat, width: nat, base: nat)
    requires
        base == 10 || base == 16,
    ensures
        value_of(zero_filled(in_base(n, base), width), base) == n,
{
    lemma_value_of_in_base(n, base);
    lemma_leading_zeros(width - in_base(n, base).len(), in_base(n, base), base);
}

} // verus!
