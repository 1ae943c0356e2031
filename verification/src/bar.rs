//! Bar-line formatting: percentage, decimal rendering, segment glyphs.
//!
//! A bar line reads `{percentage:>3}% [{segments}] {current:>width}/{total}`
//! where `segments` is a fixed budget of 20 slots, slot `i` (counting from 1)
//! filled exactly when `i * 5 <= percentage`, and `width` is the decimal
//! digit count of `total`.

use vstd::prelude::*;
use vstd::arithmetic::div_mod::{
    lemma_div_is_ordered, lemma_div_multiples_vanish_fancy, lemma_div_by_multiple,
    lemma_fundamental_div_mod, lemma_mod_division_less_than_divisor,
};

verus! {

/// The character standing for a decimal digit.
pub open spec fn dec_digit_char(d: nat) -> char {
    if d == 0 {
        '0'
    } else if d == 1 {
        '1'
    } else if d == 2 {
        '2'
    } else if d == 3 {
        '3'
    } else if d == 4 {
        '4'
    } else if d == 5 {
        '5'
    } else if d == 6 {
        '6'
    } else if d == 7 {
        '7'
    } else if d == 8 {
        '8'
    } else {
        '9'
    }
}

/// The decimal rendering of `n`, most significant digit first.
pub open spec fn dec_seq(n: nat) -> Seq<char>
    decreases n,
{
    if n < 10 {
        seq![dec_digit_char(n)]
    } else {
        dec_seq(n / 10) + seq![dec_digit_char(n % 10)]
    }
}

/// The decimal digit count of `n` (1 for 0).
pub open spec fn dec_digits(n: nat) -> nat
    decreases n,
{
    if n < 10 {
        1
    } else {
        1 + dec_digits(n / 10)
    }
}

/// `n` spaces.
pub open spec fn spaces(n: nat) -> Seq<char> {
    Seq::new(n, |i: int| ' ')
}

/// `s` right-aligned in a field of `w` characters (unchanged when wider).
pub open spec fn pad_left(s: Seq<char>, w: nat) -> Seq<char> {
    if s.len() >= w {
        s
    } else {
        spaces((w - s.len()) as nat) + s
    }
}

/// Completion percentage: 0 when `total` is 0, otherwise `current / total * 100`
/// rounded half up, written over integers as `(200 * current + total) / (2 * total)`.
pub open spec fn percentage_spec(current: nat, total: nat) -> nat {
    if total == 0 {
        0
    } else {
        (200 * current + total) / (2 * total)
    }
}

/// The 20 segment slots: slot `i` of `1..=20` holds `'#'` exactly when
/// `i * 5 <= p`, and `' '` otherwise.
pub open spec fn bar_segments(p: nat) -> Seq<char> {
    Seq::new(20, |i: int| if (i + 1) * 5 <= p { '#' } else { ' ' })
}

/// The whole bar line for a tracker at `current` out of `total`.
pub open spec fn bar_line_spec(current: nat, total: nat) -> Seq<char> {
    let p = percentage_spec(current, total);
    pad_left(dec_seq(p), 3) + "% ["@ + bar_segments(p) + "] "@ + pad_left(
        dec_seq(current),
        dec_digits(total),
    ) + "/"@ + dec_seq(total)
}

/// How many times `c` occurs in `s`.
pub open spec fn count_char(s: Seq<char>, c: char) -> nat
    decreases s.len(),
{
    if s.len() == 0 {
        0
    } else {
        count_char(s.drop_last(), c) + if s.last() == c {
            1nat
        } else {
            0nat
        }
    }
}

/// Counting a character distributes over concatenation.
pub proof fn lemma_count_char_concat(a: Seq<char>, b: Seq<char>, c: char)
    ensures
        count_char(a + b, c) == count_char(a, c) + count_char(b, c),
    decreases b.len(),
{
    if b.len() == 0 {
        assert(a + b =~= a);
    } else {
        lemma_count_char_concat(a, b.drop_last(), c);
        assert((a + b).drop_last() =~= a + b.drop_last());
        assert((a + b).last() == b.last());
    }
}

/// `c` occurs nowhere in `s`.
pub open spec fn has_no_char(s: Seq<char>, c: char) -> bool {
    forall|i: int| 0 <= i < s.len() ==> s[i] != c
}

/// A character that occurs nowhere counts zero times.
pub proof fn lemma_absent_char_count(s: Seq<char>, c: char)
    requires
        has_no_char(s, c),
    ensures
        count_char(s, c) == 0,
    decreases s.len(),
{
    if s.len() > 0 {
        assert forall|i: int| 0 <= i < s.drop_last().len() implies s.drop_last()[i] != c by {
            assert(s.drop_last()[i] == s[i]);
        }
        lemma_absent_char_count(s.drop_last(), c);
    }
}

proof fn lemma_dec_seq_no_newline(n: nat)
    ensures
        has_no_char(dec_seq(n), '\n'),
    decreases n,
{
    if n >= 10 {
        lemma_dec_seq_no_newline(n / 10);
        assert forall|i: int| 0 <= i < dec_seq(n).len() implies dec_seq(n)[i] != '\n' by {
            if i < dec_seq(n / 10).len() {
                assert(dec_seq(n)[i] == dec_seq(n / 10)[i]);
            }
        }
    }
}

proof fn lemma_pad_no_newline(n: nat, w: nat)
    ensures
        count_char(pad_left(dec_seq(n), w), '\n') == 0,
{
    lemma_dec_seq_no_newline(n);
    lemma_absent_char_count(dec_seq(n), '\n');
    if dec_seq(n).len() < w {
        let sp = spaces((w - dec_seq(n).len()) as nat);
        lemma_absent_char_count(sp, '\n');
        lemma_count_char_concat(sp, dec_seq(n), '\n');
    }
}

/// The bar line itself holds no line break: one render occupies exactly one
/// line for the bar.
pub proof fn lemma_bar_line_single_line(current: nat, total: nat)
    ensures
        count_char(bar_line_spec(current, total), '\n') == 0,
{
    let p = percentage_spec(current, total);
    let a = pad_left(dec_seq(p), 3);
    let b = "% ["@;
    let s = bar_segments(p);
    let d = "] "@;
    let e = pad_left(dec_seq(current), dec_digits(total));
    let f = "/"@;
    let g = dec_seq(total);
    lemma_pad_no_newline(p, 3);
    lemma_pad_no_newline(current, dec_digits(total));
    lemma_dec_seq_no_newline(total);
    lemma_absent_char_count(g, '\n');
    lemma_absent_char_count(s, '\n');
    reveal_strlit("% [");
    reveal_strlit("] ");
    reveal_strlit("/");
    lemma_absent_char_count(b, '\n');
    lemma_absent_char_count(d, '\n');
    lemma_absent_char_count(f, '\n');
    lemma_count_char_concat(a, b, '\n');
    lemma_count_char_concat(a + b, s, '\n');
    lemma_count_char_concat(a + b + s, d, '\n');
    lemma_count_char_concat(a + b + s + d, e, '\n');
    lemma_count_char_concat(a + b + s + d + e, f, '\n');
    lemma_count_char_concat(a + b + s + d + e + f, g, '\n');
}

/// The percentage never exceeds 100 while `current` stays within `total`.
pub proof fn lemma_percentage_le_100(current: nat, total: nat)
    requires
        current <= total,
    ensures
        percentage_spec(current, total) <= 100,
{
    if total > 0 {
        assert(200 * current + total <= 201 * total);
        lemma_div_is_ordered(
            (200 * current + total) as int,
            (201 * total) as int,
            (2 * total) as int,
        );
        assert((2 * total) * 100 + total == 201 * total);
        lemma_div_multiples_vanish_fancy(100, total as int, (2 * total) as int);
    }
}

/// The percentage is `100 * current / total` rounded half up: scaled by
/// `2 * total`, it sits within `total` of `200 * current`.
pub proof fn lemma_percentage_is_rounded(current: nat, total: nat)
    requires
        total > 0,
    ensures
        2 * total * percentage_spec(current, total) <= 200 * current + total,
        200 * current + total < 2 * total * (percentage_spec(current, total) + 1),
{
    let x = (200 * current + total) as int;
    let d = (2 * total) as int;
    lemma_fundamental_div_mod(x, d);
    lemma_mod_division_less_than_divisor(x, d);
    assert(d * (x / d) == 2 * total * percentage_spec(current, total)) by (nonlinear_arith)
        requires
            total > 0,
            x == 200 * current + total,
            d == 2 * total,
            x / d == percentage_spec(current, total),
    ;
    assert(d * (x / d) + d == 2 * total * (percentage_spec(current, total) + 1))
        by (nonlinear_arith)
        requires
            total > 0,
            x == 200 * current + total,
            d == 2 * total,
            x / d == percentage_spec(current, total),
    ;
}

/// A full tracker reads 100 percent.
pub proof fn lemma_percentage_complete(total: nat)
    requires
        total >= 1,
    ensures
        percentage_spec(total, total) == 100,
{
    assert((2 * total) * 100 + total == 201 * total);
    lemma_div_multiples_vanish_fancy(100, total as int, (2 * total) as int);
    assert(200 * total + total == 201 * total);
}

/// An untouched tracker reads 0 percent.
pub proof fn lemma_percentage_zero(total: nat)
    ensures
        percentage_spec(0, total) == 0,
{
    if total > 0 {
        assert((2 * total) * 0 + total == 200 * 0 + total);
        lemma_div_multiples_vanish_fancy(0, total as int, (2 * total) as int);
    }
}

/// The digit count of `n` never exceeds `n` itself (except at 0, where it is 1).
pub proof fn lemma_dec_digits_small(n: nat)
    ensures
        dec_digits(n) <= if n == 0 {
            1nat
        } else {
            n
        },
    decreases n,
{
    if n >= 10 {
        lemma_dec_digits_small(n / 10);
        assert(1 <= n / 10 <= n - 9) by (nonlinear_arith)
            requires
                n >= 10,
        ;
    }
}

/// The decimal rendering of `n` has exactly `dec_digits(n)` characters.
pub proof fn lemma_dec_seq_len(n: nat)
    ensures
        dec_seq(n).len() == dec_digits(n),
    decreases n,
{
    if n >= 10 {
        lemma_dec_seq_len(n / 10);
    }
}

/// A number no greater than another has no more decimal digits.
pub proof fn lemma_dec_digits_mono(a: nat, b: nat)
    requires
        a <= b,
    ensures
        dec_digits(a) <= dec_digits(b),
    decreases b,
{
    if a >= 10 {
        lemma_div_is_ordered(a as int, b as int, 10);
        lemma_dec_digits_mono(a / 10, b / 10);
    }
}

/// The numeric field of the bar line is exactly as wide as the digit count
/// of `total`: a clamped `current` never widens it.
pub proof fn lemma_field_width(current: nat, total: nat)
    requires
        current <= total,
    ensures
        pad_left(dec_seq(current), dec_digits(total)).len() == dec_digits(total),
{
    lemma_dec_seq_len(current);
    lemma_dec_digits_mono(current, total);
}

/// The completion percentage, in `0..=100`.
pub fn percentage(current: usize, total: usize) -> (p: usize)
    requires
        current <= total,
    ensures
        p == percentage_spec(current as nat, total as nat),
        p <= 100,
{
    if total == 0 {
        0
    } else {
        let c: u128 = current as u128;
        let t: u128 = total as u128;
        let r: u128 = (200 * c + t) / (2 * t);
        proof {
            lemma_percentage_le_100(current as nat, total as nat);
        }
        r as usize
    }
}

proof fn lemma_filled_segments_prefix(p: nat, k: nat)
    requires
        p <= 100,
        k <= 20,
    ensures
        count_char(bar_segments(p).take(k as int), '#') == if k <= p / 5 {
            k
        } else {
            p / 5
        },
    decreases k,
{
    if k > 0 {
        lemma_filled_segments_prefix(p, (k - 1) as nat);
        assert(bar_segments(p).take(k as int).drop_last() =~= bar_segments(p).take(k - 1));
        assert(bar_segments(p).take(k as int).last() == bar_segments(p)[k - 1]);
        assert(5 * k <= p <==> k <= p / 5) by {
            if 5 * k <= p {
                lemma_div_is_ordered((5 * k) as int, p as int, 5);
                lemma_div_by_multiple(k as int, 5);
            }
            if k <= p / 5 {
                assert(5 * (p / 5) <= p);
            }
        }
    }
}

/// A slot of `1..=20` is filled exactly when its threshold (five times its
/// index) is within the percentage, so a percentage of at most 100 fills
/// exactly `p / 5` of the 20 slots; 47 percent, for instance, fills 9.
pub proof fn lemma_filled_segments(p: nat)
    requires
        p <= 100,
    ensures
        count_char(bar_segments(p), '#') == p / 5,
{
    lemma_filled_segments_prefix(p, 20);
    assert(bar_segments(p).take(20) =~= bar_segments(p));
}

/// Appends the character for one decimal digit.
fn append_digit(out: &mut String, d: usize)
    requires
        d < 10,
    ensures
        final(out)@ == old(out)@ + seq![dec_digit_char(d as nat)],
{
    let s: &str = if d == 0 {
        "0"
    } else if d == 1 {
        "1"
    } else if d == 2 {
        "2"
    } else if d == 3 {
        "3"
    } else if d == 4 {
        "4"
    } else if d == 5 {
        "5"
    } else if d == 6 {
        "6"
    } else if d == 7 {
        "7"
    } else if d == 8 {
        "8"
    } else {
        "9"
    };
    proof {
        reveal_strlit("0");
        reveal_strlit("1");
        reveal_strlit("2");
        reveal_strlit("3");
        reveal_strlit("4");
        reveal_strlit("5");
        reveal_strlit("6");
        reveal_strlit("7");
        reveal_strlit("8");
        reveal_strlit("9");
        assert(s@ =~= seq![dec_digit_char(d as nat)]);
    }
    out.append(s);
}

/// Appends the decimal rendering of `n`.
fn append_number(out: &mut String, n: usize)
    ensures
        final(out)@ == old(out)@ + dec_seq(n as nat),
    decreases n,
{
    if n < 10 {
        append_digit(out, n);
    } else {
        append_number(out, n / 10);
        append_digit(out, n % 10);
        proof {
            assert(out@ =~= old(out)@ + dec_seq(n as nat));
        }
    }
}

/// The decimal digit count of `n`.
fn dec_len(n: usize) -> (w: usize)
    ensures
        w == dec_digits(n as nat),
    decreases n,
{
    if n < 10 {
        1
    } else {
        proof {
            lemma_dec_digits_small((n / 10) as nat);
        }
        1 + dec_len(n / 10)
    }
}

/// Appends `k` spaces.
pub(crate) fn append_spaces(out: &mut String, k: usize)
    ensures
        final(out)@ == old(out)@ + spaces(k as nat),
{
    let ghost orig: Seq<char> = out@;
    let mut i: usize = 0;
    while i < k
        invariant
            i <= k,
            out@ == orig + spaces(i as nat),
        decreases k - i,
    {
        out.append(" ");
        proof {
            reveal_strlit(" ");
            assert(out@ =~= orig + spaces((i + 1) as nat));
        }
        i += 1;
    }
}

/// Appends the decimal rendering of `n`, right-aligned in `w` characters.
fn append_padded(out: &mut String, n: usize, w: usize)
    ensures
        final(out)@ == old(out)@ + pad_left(dec_seq(n as nat), w as nat),
{
    let d = dec_len(n);
    proof {
        lemma_dec_seq_len(n as nat);
    }
    if d < w {
        append_spaces(out, w - d);
    }
    append_number(out, n);
    proof {
        assert(out@ =~= old(out)@ + pad_left(dec_seq(n as nat), w as nat));
    }
}

/// Appends the 20 segment slots.
fn append_segments(out: &mut String, p: usize)
    ensures
        final(out)@ == old(out)@ + bar_segments(p as nat),
{
    let ghost orig: Seq<char> = out@;
    let mut x: usize = 1;
    while x <= 20
        invariant
            1 <= x <= 21,
            out@ == orig + bar_segments(p as nat).take(x - 1),
        decreases 21 - x,
    {
        if x * 5 <= p {
            out.append("#");
        } else {
            out.append(" ");
        }
        proof {
            reveal_strlit("#");
            reveal_strlit(" ");
            assert(out@ =~= orig + bar_segments(p as nat).take(x as int));
        }
        x += 1;
    }
    proof {
        assert(bar_segments(p as nat).take(20) =~= bar_segments(p as nat));
    }
}

/// The whole bar line, e.g. ` 47% [#########           ]  47/100`.
pub fn create_bar(current: usize, total: usize) -> (r: String)
    requires
        current <= total,
    ensures
        r@ == bar_line_spec(current as nat, total as nat),
{
    let p = percentage(current, total);
    let mut out = String::new();
    append_padded(&mut out, p, 3);
    out.append("% [");
    append_segments(&mut out, p);
    out.append("] ");
    let w = dec_len(total);
    append_padded(&mut out, current, w);
    out.append("/");
    append_number(&mut out, total);
    proof {
        assert(out@ =~= bar_line_spec(current as nat, total as nat));
    }
    out
}

} // verus!
