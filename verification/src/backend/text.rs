//! Text building blocks shared by the backends: whole lines, decimal and
//! hexadecimal numerals, and repetition.

use vstd::prelude::*;
use vstd::string::StringExecFns;

verus! {

/// A line of output: the text followed by a newline.
pub open spec fn line(s: Seq<char>) -> Seq<char> {
    s.push('\n')
}

/// The character that stands for digit `d` (`0`-`9`, then `a`-`f`).
pub open spec fn digit_char(d: nat) -> char {
    if d < 10 {
        (d + 48) as char
    } else {
        (d + 87) as char
    }
}

/// The numeral of `n` in base `base`: most significant digit first, no
/// leading zeros, and the single digit `0` for zero.
pub open spec fn digits(n: nat, base: nat) -> Seq<char>
    decreases n,
{
    if base < 2 {
        Seq::empty()
    } else if n < base {
        seq![digit_char(n)]
    } else {
        proof {
            assert(n / base < n) by (nonlinear_arith)
                requires
                    base >= 2,
                    n >= base,
            ;
        }
        digits(n / base, base).push(digit_char(n % base))
    }
}

/// The digit that character `c` stands for, in bases up to sixteen.
pub open spec fn digit_value(c: char) -> int {
    if (c as int) < 58 {
        c as int - 48
    } else {
        c as int - 87
    }
}

/// The number that a numeral in base `base` denotes.
pub open spec fn numeral_value(s: Seq<char>, base: nat) -> int
    decreases s.len(),
{
    if s.len() == 0 {
        0
    } else {
        numeral_value(s.drop_last(), base) * base + digit_value(s.last())
    }
}

/// The numeral of `n` is not empty, has no superfluous leading zero, and
/// denotes `n`.
pub proof fn lemma_digits_denote(n: nat, base: nat)
    requires
        2 <= base <= 16,
    ensures
        digits(n, base).len() > 0,
        numeral_value(digits(n, base), base) == n,
        n >= base ==> digits(n, base).len() > 1,
        digits(n, base).len() > 1 ==> digits(n, base)[0] != '0',
    decreases n,
{
    let s = digits(n, base);
    if n >= base {
        let q = n / base;
        let d = n % base;
        assert(q < n && q >= 1 && d < base && n == q * base + d) by (nonlinear_arith)
            requires
                base >= 2,
                n >= base,
                q == n / base,
                d == n % base,
        ;
        lemma_digits_denote(q, base);
        let rest = digits(q, base);
        assert(s == rest.push(digit_char(d)));
        assert(s.drop_last() =~= rest);
        assert(digit_value(digit_char(d)) == d);
        assert(numeral_value(s, base) == numeral_value(rest, base) * base + d);
        assert(numeral_value(rest, base) == q);
        assert(numeral_value(s, base) == n);
        if q < base {
            assert(rest == seq![digit_char(q)]);
            assert(digit_value(digit_char(q)) == q);
            assert(digit_value('0') == 0);
        }
        assert(s[0] == rest[0]);
    } else {
        assert(s.drop_last() =~= Seq::<char>::empty());
        assert(digit_value(digit_char(n)) == n);
        assert(numeral_value(s.drop_last(), base) == 0);
        assert(numeral_value(s, base) == numeral_value(s.drop_last(), base) * base + digit_value(
            s.last(),
        ));
    }
}

/// A decimal numeral is made of the digits `0` to `9` only.
pub proof fn lemma_decimal_digits_only(n: nat)
    ensures
        forall|j: int|
            0 <= j < decimal(n).len() ==> '0' <= #[trigger] decimal(n)[j] && decimal(n)[j] <= '9',
    decreases n,
{
    if n >= 10 {
        lemma_decimal_digits_only(n / 10);
        let d = n % 10;
        assert(decimal(n) == decimal(n / 10).push(digit_char(d)));
    }
}

/// Two numbers with the same numeral are the same number.
pub proof fn lemma_digits_injective(a: nat, b: nat, base: nat)
    requires
        2 <= base <= 16,
        digits(a, base) == digits(b, base),
    ensures
        a == b,
{
    lemma_digits_denote(a, base);
    lemma_digits_denote(b, base);
}

/// How `{}` prints an unsigned integer: its decimal numeral.
pub open spec fn decimal(n: nat) -> Seq<char> {
    digits(n, 10)
}

/// How `{:#x}` prints an unsigned integer: `0x`, then the lower-case
/// hexadecimal numeral.
pub open spec fn hex_prefixed(n: nat) -> Seq<char> {
    seq!['0', 'x'] + digits(n, 16)
}

/// `block` written `n` times in a row.
pub open spec fn repeat(block: Seq<char>, n: nat) -> Seq<char>
    decreases n,
{
    if n == 0 {
        Seq::empty()
    } else {
        repeat(block, (n - 1) as nat) + block
    }
}

/// Appends one character to a string (`String::push`).
#[verifier::external_body]
pub fn push_char(out: &mut String, c: char)
    ensures
        final(out)@ == old(out)@.push(c),
{
    out.push(c);
}

/// Appends a string slice.
pub fn write_str(out: &mut String, s: &str)
    ensures
        final(out)@ == old(out)@ + s@,
{
    out.append(s);
}

/// Appends a string slice and a newline.
pub fn write_line(out: &mut String, s: &str)
    ensures
        final(out)@ == old(out)@ + line(s@),
{
    out.append(s);
    push_char(out, '\n');
}

/// The character of a single digit below sixteen.
pub fn digit(d: u8) -> (c: char)
    requires
        d < 16,
    ensures
        c == digit_char(d as nat),
{
    if d < 10 {
        (d + 48) as char
    } else {
        (d + 87) as char
    }
}

/// Appends the numeral of `n` in base `base`.
pub fn write_digits(out: &mut String, n: u64, base: u64)
    requires
        2 <= base <= 16,
    ensures
        final(out)@ == old(out)@ + digits(n as nat, base as nat),
    decreases n,
{
    let ghost start = out@;
    if n >= base {
        assert(n / base < n) by (nonlinear_arith)
            requires
                base >= 2,
                n >= base,
        ;
        write_digits(out, n / base, base);
    }
    let d = n % base;
    assert(d < 16);
    push_char(out, digit(d as u8));
    if n < base {
        assert(d == n) by (nonlinear_arith)
            requires
                n < base,
                d == n % base,
        ;
    }
    assert(out@ =~= start + digits(n as nat, base as nat));
}

/// Appends the decimal numeral of `n`, as `{}` prints it.
pub fn write_decimal(out: &mut String, n: u64)
    ensures
        final(out)@ == old(out)@ + decimal(n as nat),
{
    write_digits(out, n, 10);
}

/// Appends `prefix`, the decimal numeral of `n` and a newline, as
/// `writeln!(out, "{prefix}{n}")` does.
pub fn write_line_decimal(out: &mut String, prefix: &str, n: u64)
    ensures
        final(out)@ == old(out)@ + line(prefix@ + decimal(n as nat)),
{
    let ghost start = out@;
    out.append(prefix);
    write_decimal(out, n);
    push_char(out, '\n');
    assert(out@ =~= start + line(prefix@ + decimal(n as nat)));
}

/// Appends `0x` and the hexadecimal numeral of `n`, as `{:#x}` prints it.
pub fn write_hex_prefixed(out: &mut String, n: u8)
    ensures
        final(out)@ == old(out)@ + hex_prefixed(n as nat),
{
    push_char(out, '0');
    push_char(out, 'x');
    write_digits(out, n as u64, 16);
    assert(final(out)@ == old(out)@ + hex_prefixed(n as nat));
}

} // verus!
