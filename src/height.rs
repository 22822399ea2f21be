use vstd::prelude::*;
use vstd::string::*;
use crate::text::{seq_lt, lemma_seq_lt_push, lemma_seq_lt_last};

verus! {

/// Number of decimal digits below which a ledger height is zero-padded.
pub const HEIGHT_WIDTH: usize = 12;

pub open spec fn pow10(w: nat) -> nat
    decreases w,
{
    if w == 0 {
        1
    } else {
        10 * pow10((w - 1) as nat)
    }
}

/// The character of a decimal digit.
pub open spec fn digit_char(d: nat) -> char {
    if d == 0 { '0' }
    else if d == 1 { '1' }
    else if d == 2 { '2' }
    else if d == 3 { '3' }
    else if d == 4 { '4' }
    else if d == 5 { '5' }
    else if d == 6 { '6' }
    else if d == 7 { '7' }
    else if d == 8 { '8' }
    else { '9' }
}

/// The `w` least significant decimal digits of `n`, most significant first
/// (leading zeros included).
pub open spec fn fixed_digits(n: nat, w: nat) -> Seq<char>
    decreases w,
{
    if w == 0 {
        Seq::empty()
    } else {
        fixed_digits(n / 10, (w - 1) as nat).push(digit_char(n % 10))
    }
}

/// How many digits the decimal form of `n` has (at least one).
pub open spec fn digit_count(n: nat) -> nat
    decreases n,
{
    if n < 10 {
        1
    } else {
        1 + digit_count(n / 10)
    }
}

/// The decimal form of `n`, without leading zeros.
pub open spec fn decimal(n: nat) -> Seq<char> {
    fixed_digits(n, digit_count(n))
}

/// The decimal form of a height, left-padded with zeros to `HEIGHT_WIDTH`
/// characters; a height with more digits is written in full.
pub open spec fn height_text(h: nat) -> Seq<char> {
    if digit_count(h) < HEIGHT_WIDTH {
        fixed_digits(h, HEIGHT_WIDTH as nat)
    } else {
        decimal(h)
    }
}

pub proof fn lemma_fixed_digits_len(n: nat, w: nat)
    ensures
        fixed_digits(n, w).len() == w,
    decreases w,
{
    if w > 0 {
        lemma_fixed_digits_len(n / 10, (w - 1) as nat);
    }
}

pub proof fn lemma_digit_char_order(a: nat, b: nat)
    requires
        a < b < 10,
    ensures
        digit_char(a) < digit_char(b),
{
}

/// Below `10^w`, the fixed-width form orders as the numbers do.
pub proof fn lemma_fixed_digits_order(n1: nat, n2: nat, w: nat)
    requires
        n1 < n2,
        n2 < pow10(w),
    ensures
        seq_lt(fixed_digits(n1, w), fixed_digits(n2, w)),
    decreases w,
{
    let v = (w - 1) as nat;
    assert(w > 0);
    assert(n2 / 10 < pow10(v));
    lemma_fixed_digits_len(n1 / 10, v);
    lemma_fixed_digits_len(n2 / 10, v);
    if n1 / 10 < n2 / 10 {
        lemma_fixed_digits_order(n1 / 10, n2 / 10, v);
        lemma_seq_lt_push(fixed_digits(n1 / 10, v), fixed_digits(n2 / 10, v),
            digit_char(n1 % 10), digit_char(n2 % 10));
    } else {
        assert(n1 / 10 == n2 / 10);
        assert(n1 % 10 < n2 % 10);
        lemma_digit_char_order(n1 % 10, n2 % 10);
        lemma_seq_lt_last(fixed_digits(n1 / 10, v), digit_char(n1 % 10), digit_char(n2 % 10));
    }
}

pub proof fn lemma_small_digit_count(n: nat, w: nat)
    requires
        n < pow10(w),
        w > 0,
    ensures
        digit_count(n) <= w,
    decreases w,
{
    if n >= 10 {
        if w == 1 {
            assert(pow10(0) == 1);
        }
        assert(w > 1);
        assert(n / 10 < pow10((w - 1) as nat));
        lemma_small_digit_count(n / 10, (w - 1) as nat);
    }
}

/// A rendered height below `10^12` is exactly twelve characters long, and
/// rendered heights below `10^12` compare as strings as they do as numbers.
pub proof fn lemma_height_text_order(h1: nat, h2: nat)
    requires
        h1 < h2,
        h2 < pow10(HEIGHT_WIDTH as nat),
    ensures
        height_text(h1).len() == HEIGHT_WIDTH,
        height_text(h2).len() == HEIGHT_WIDTH,
        seq_lt(height_text(h1), height_text(h2)),
{
    lemma_small_digit_count(h1, HEIGHT_WIDTH as nat);
    lemma_small_digit_count(h2, HEIGHT_WIDTH as nat);
    reveal_with_fuel(pow10, 13);
    assert(pow10(12) == 1_000_000_000_000);
    lemma_fixed_digits_len(h1, HEIGHT_WIDTH as nat);
    lemma_fixed_digits_len(h2, HEIGHT_WIDTH as nat);
    if digit_count(h1) == HEIGHT_WIDTH || digit_count(h2) == HEIGHT_WIDTH {
        lemma_fixed_digits_len(h1, digit_count(h1));
        lemma_fixed_digits_len(h2, digit_count(h2));
    }
    lemma_fixed_digits_order(h1, h2, HEIGHT_WIDTH as nat);
}

fn digit_str(d: u128) -> (r: &'static str)
    requires
        d < 10,
    ensures
        r@ == seq![digit_char(d as nat)],
{
    proof {
        reveal_strlit("0");
        reveal_strlit("1");
        reveal_strlit("2");
        reveal_strlit("3");
        reveal_strlit("4");
        reveal_strlit("5");
        reveal_strlit("6");
        reveal_strlit("7");
        reveal_strlit("8");
        reveal_strlit("9");
    }
    if d == 0 { "0" }
    else if d == 1 { "1" }
    else if d == 2 { "2" }
    else if d == 3 { "3" }
    else if d == 4 { "4" }
    else if d == 5 { "5" }
    else if d == 6 { "6" }
    else if d == 7 { "7" }
    else if d == 8 { "8" }
    else { "9" }
}

/// Appends the `w` least significant digits of `n` to `out`.
pub(crate) fn push_fixed_digits(n: u128, w: usize, out: &mut String)
    ensures
        final(out)@ == old(out)@ + fixed_digits(n as nat, w as nat),
    decreases w,
{
    if w > 0 {
        push_fixed_digits(n / 10, w - 1, out);
        out.append(digit_str(n % 10));
        proof {
            assert(fixed_digits(n as nat, w as nat) =~= fixed_digits((n / 10) as nat, (w - 1) as nat).push(digit_char((n % 10) as nat)));
        }
    }
}

fn count_digits(n: u128) -> (r: usize)
    ensures
        r == digit_count(n as nat),
{
    let mut m: u128 = n;
    let mut c: usize = 1;
    proof {
        reveal_with_fuel(pow10, 40);
        assert(pow10(39) == 1_000_000_000_000_000_000_000_000_000_000_000_000_000);
        lemma_small_digit_count(n as nat, 39);
    }
    while m >= 10
        invariant
            digit_count(n as nat) == c - 1 + digit_count(m as nat),
            digit_count(n as nat) <= 39,
            c >= 1,
        decreases m,
    {
        m = m / 10;
        c = c + 1;
    }
    c
}

/// Renders a ledger height as zero-padded decimal text.
pub fn pad_height(height: u128) -> (r: String)
    ensures
        r@ == height_text(height as nat),
{
    let count = count_digits(height);
    let width = if count < HEIGHT_WIDTH { HEIGHT_WIDTH } else { count };
    let mut out = String::new();
    push_fixed_digits(height, width, &mut out);
    proof {
        assert(out@ =~= height_text(height as nat));
    }
    out
}

/// Renders a number in decimal, without leading zeros.
pub fn decimal_text(n: u128) -> (r: String)
    ensures
        r@ == decimal(n as nat),
{
    let count = count_digits(n);
    let mut out = String::new();
    push_fixed_digits(n, count, &mut out);
    proof {
        assert(out@ =~= decimal(n as nat));
    }
    out
}

/// Every character of `s` is a decimal digit.
pub open spec fn all_digits(s: Seq<char>) -> bool {
    forall|i: int| 0 <= i < s.len() ==> '0' <= #[trigger] s[i] <= '9'
}

pub proof fn lemma_fixed_digits_are_digits(n: nat, w: nat)
    ensures
        all_digits(fixed_digits(n, w)),
    decreases w,
{
    if w > 0 {
        lemma_fixed_digits_are_digits(n / 10, (w - 1) as nat);
        let p = fixed_digits(n / 10, (w - 1) as nat);
        assert forall|i: int| 0 <= i < p.push(digit_char(n % 10)).len() implies '0' <= #[trigger] p.push(digit_char(n % 10))[i] <= '9' by {
            if i < p.len() {
                assert(p.push(digit_char(n % 10))[i] == p[i]);
            }
        }
    }
}

} // verus!
