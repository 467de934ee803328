//! Building text: decimal numbers, padding, and the money display.

use vstd::prelude::*;

verus! {

/// Appends a character to a string.
///
/// Trusted: calls `String::push`, which std documents as appending the given
/// `char` to the end of the string; the contract says exactly that.
#[verifier::external_body]
pub fn push_char(s: &mut String, c: char)
    ensures
        final(s)@ == old(s)@.push(c),
{
    s.push(c);
}

/// The character of a decimal digit.
pub open spec fn digit(d: int) -> char {
    (48 + d) as char
}

/// The decimal representation of a natural number, without leading zeros.
pub open spec fn dec(n: nat) -> Seq<char>
    decreases n,
{
    if n < 10 {
        seq![digit(n as int)]
    } else {
        dec(n / 10).push(digit((n % 10) as int))
    }
}

/// The decimal representation of an integer, with a leading `-` when negative.
pub open spec fn int_text(n: int) -> Seq<char> {
    if n < 0 {
        seq!['-'] + dec((-n) as nat)
    } else {
        dec(n as nat)
    }
}

/// The character of the decimal digit `d`.
pub fn digit_char(d: u64) -> (c: char)
    requires
        d < 10,
    ensures
        c == digit(d as int),
{
    let b: u8 = 48u8 + (d as u8);
    b as char
}

/// Appends the decimal representation of `n`.
pub fn push_nat(s: &mut String, n: u64)
    ensures
        final(s)@ == old(s)@ + dec(n as nat),
    decreases n,
{
    if n >= 10 {
        push_nat(s, n / 10);
    }
    let c = digit_char(n % 10);
    push_char(s, c);
    proof {
        if n < 10 {
            assert(n % 10 == n);
        }
    }
}

/// Appends the decimal representation of `n`, with a `-` when it is negative.
pub fn push_int(s: &mut String, n: i64)
    ensures
        final(s)@ == old(s)@ + int_text(n as int),
{
    if n < 0 {
        push_char(s, '-');
        let m: u64 = if n == i64::MIN {
            9223372036854775808u64
        } else {
            (-n) as u64
        };
        push_nat(s, m);
        assert(final(s)@ == old(s)@ + (seq!['-'] + dec(m as nat)));
    } else {
        push_nat(s, n as u64);
    }
}

/// The decimal representation of an integer, as a new string.
pub fn int_string(n: i64) -> (r: String)
    ensures
        r@ == int_text(n as int),
{
    let mut s = String::new();
    push_int(&mut s, n);
    assert(s@ == Seq::<char>::empty() + int_text(n as int));
    s
}

/// `t` padded with spaces on the right to at least `w` characters.
pub open spec fn padded(t: Seq<char>, w: nat) -> Seq<char> {
    if t.len() >= w {
        t
    } else {
        t + Seq::new((w - t.len()) as nat, |i: int| ' ')
    }
}

/// `text` padded with spaces on the right to 50 characters, as `{:<50}` does.
pub fn fill(text: &str) -> (r: String)
    ensures
        r@ == padded(text@, 50),
{
    let mut s = String::from_str(text);
    let n = text.unicode_len();
    let mut k = n;
    while k < 50
        invariant
            n == text@.len(),
            n <= k,
            k < 50 ==> s@ == text@ + Seq::new((k - n) as nat, |i: int| ' '),
            k >= 50 ==> s@ == padded(text@, 50),
        decreases 50 - k,
    {
        push_char(&mut s, ' ');
        k = k + 1;
        assert(s@ =~= text@ + Seq::new((k - n) as nat, |i: int| ' '));
    }
    if n >= 50 {
        assert(s@ =~= text@);
    }
    s
}

/// `n / d` in hundredths, rounded to the nearest hundredth, ties to even:
/// the value that `{:.2}` shows for the exact quotient.
pub open spec fn hundredths(n: int, d: int) -> int {
    let q = (n * 100) / d;
    let r = (n * 100) % d;
    if 2 * r > d || (2 * r == d && q % 2 == 1) {
        q + 1
    } else {
        q
    }
}

/// A number of hundredths written with two decimals, such as `12.05`.
pub open spec fn fixed2(h: nat) -> Seq<char> {
    dec(h / 100) + seq!['.', digit(((h % 100) / 10) as int), digit((h % 10) as int)]
}

/// How an amount of money (counted in KB) is shown: below 1024 as whole KB,
/// below 1048576 in MB and above that in GB, with two decimals.
pub open spec fn money_text(money: int) -> Seq<char> {
    if money < 1024 {
        int_text(money) + ".00KB"@
    } else if money < 1048576 {
        fixed2(hundredths(money, 1024) as nat) + "MB"@
    } else {
        fixed2(hundredths(money, 1048576) as nat) + "GB"@
    }
}

/// `n / d` in hundredths, rounded to nearest with ties to even.
pub fn hundredths_of(n: u64, d: u64) -> (h: u64)
    requires
        0 < d <= u32::MAX,
        n <= i32::MAX,
    ensures
        h == hundredths(n as int, d as int),
{
    let q = n * 100 / d;
    let r = n * 100 % d;
    proof {
        let nn: int = n as int * 100;
        assert(q <= nn) by (nonlinear_arith)
            requires q as int == nn / (d as int), d > 0, nn >= 0;
        assert(r < d);
    }
    if 2 * r > d || (2 * r == d && q % 2 == 1) {
        q + 1
    } else {
        q
    }
}

/// Appends a number of hundredths with two decimals.
pub fn push_fixed2(s: &mut String, h: u64)
    ensures
        final(s)@ == old(s)@ + fixed2(h as nat),
{
    push_nat(s, h / 100);
    push_char(s, '.');
    let tens = digit_char((h % 100) / 10);
    push_char(s, tens);
    let ones = digit_char(h % 10);
    push_char(s, ones);
    assert(final(s)@ == old(s)@ + fixed2(h as nat));
}

/// The text that shows an amount of money.
pub fn money_string(money: i32) -> (r: String)
    ensures
        r@ == money_text(money as int),
{
    let mut s = String::new();
    if money < 1024 {
        push_int(&mut s, money as i64);
        s.append(".00KB");
    } else if money < 1048576 {
        let h = hundredths_of(money as u64, 1024);
        push_fixed2(&mut s, h);
        s.append("MB");
    } else {
        let h = hundredths_of(money as u64, 1048576);
        push_fixed2(&mut s, h);
        s.append("GB");
    }
    s
}

} // verus!
