//! Rendering of numbers into text: decimal numerals, and binary fractions shown
//! with a fixed number of decimal places the way a binary64 value prints.

use vstd::prelude::*;
use vstd::string::StringExecFns;

verus! {

/// The character that stands for the decimal digit `d`.
pub open spec fn digit_char(d: nat) -> char {
    if d == 0 {
        '0'
    } else if d == 1 {
        '1'
    } else if d == 2 {
        '2'
    } else if d == 3 {
        '3'
    } else if d == 4 {
        '4'
    } else if d == 5 {
        '5'
    } else if d == 6 {
        '6'
    } else if d == 7 {
        '7'
    } else if d == 8 {
        '8'
    } else {
        '9'
    }
}

/// The decimal numeral of `n`, most significant digit first, without leading zeros.
pub open spec fn decimal(n: nat) -> Seq<char>
    decreases n,
{
    if n < 10 {
        seq![digit_char(n)]
    } else {
        decimal(n / 10).push(digit_char(n % 10))
    }
}

/// `num / den` rounded to the nearest integer, a tie going to the even neighbour.
pub open spec fn round_half_even(num: nat, den: nat) -> nat {
    let q = num / den;
    let r = num % den;
    if 2 * r > den || (2 * r == den && q % 2 == 1) {
        q + 1
    } else {
        q
    }
}

/// The distance between neighbouring binary64 values around `n`: 1 below 2^53,
/// doubling with every further power of two.
pub open spec fn double_spacing(n: nat) -> nat
    decreases n,
{
    if n < 0x20_0000_0000_0000 {
        1
    } else {
        2 * double_spacing(n / 2)
    }
}

/// The spacings that occur below 2^64.
pub open spec fn is_spacing(s: nat) -> bool {
    s == 1 || s == 2 || s == 4 || s == 8 || s == 0x10 || s == 0x20 || s == 0x40 || s == 0x80
        || s == 0x100 || s == 0x200 || s == 0x400 || s == 0x800
}

/// The value that the integer `n` takes when it is converted to binary64:
/// the nearest value with a 53-bit significand, a tie going to the even significand.
pub open spec fn nearest_double(n: nat) -> nat {
    round_half_even(n, double_spacing(n)) * double_spacing(n)
}

/// A number of hundredths written with two decimal places.
pub open spec fn two_places(hundredths: nat) -> Seq<char> {
    decimal(hundredths / 100) + seq!['.', digit_char((hundredths / 10) % 10), digit_char(hundredths % 10)]
}

/// A number of tenths written with one decimal place.
pub open spec fn one_place(tenths: nat) -> Seq<char> {
    decimal(tenths / 10) + seq!['.', digit_char(tenths % 10)]
}

/// `n / unit` as binary64 prints it with two decimal places, for `unit` a power of two.
pub open spec fn ratio_two_places(n: nat, unit: nat) -> Seq<char> {
    two_places(round_half_even(nearest_double(n) * 100, unit))
}

/// `n / unit` as binary64 prints it with one decimal place, for `unit` a power of two.
pub open spec fn ratio_one_place(n: nat, unit: nat) -> Seq<char> {
    one_place(round_half_even(nearest_double(n) * 10, unit))
}

/// Bytes in a kibibyte, a mebibyte and a gibibyte.
pub const KIB: u64 = 0x400;

pub const MIB: u64 = 0x10_0000;

pub const GIB: u64 = 0x4000_0000;

/// A size in bytes shown in mebibytes with two decimal places.
pub open spec fn mebibytes(size: nat) -> Seq<char> {
    ratio_two_places(size, MIB as nat)
}

/// A size in bytes shown in gibibytes with two decimal places.
pub open spec fn gibibytes(size: nat) -> Seq<char> {
    ratio_two_places(size, GIB as nat)
}

fn digit_text(d: u8) -> (s: &'static str)
    requires
        d < 10,
    ensures
        s@ == seq![digit_char(d as nat)],
{
    proof {
        reveal_strlit("0");
        reveal_strlit("1");
        reveal_strlit("2");
        reveal_strlit("3");
        reveal_strlit("4");
        reveal_strlit("5");
        reveal_strlit("6");
        reveal_strlit("7");
        reveal_strlit("8");
        reveal_strlit("9");
    }
    let s = if d == 0 {
        "0"
    } else if d == 1 {
        "1"
    } else if d == 2 {
        "2"
    } else if d == 3 {
        "3"
    } else if d == 4 {
        "4"
    } else if d == 5 {
        "5"
    } else if d == 6 {
        "6"
    } else if d == 7 {
        "7"
    } else if d == 8 {
        "8"
    } else {
        "9"
    };
    assert(s@ =~= seq![digit_char(d as nat)]);
    s
}

/// Appends the decimal numeral of `n` to `out`.
pub fn push_decimal(out: &mut String, n: u128)
    ensures
        final(out)@ == old(out)@ + decimal(n as nat),
    decreases n,
{
    if n >= 10 {
        push_decimal(out, n / 10);
    }
    let d: u8 = (n % 10) as u8;
    out.append(digit_text(d));
    assert(out@ =~= old(out)@ + decimal(n as nat));
}

/// Rounds `num / den` to the nearest integer, a tie going to the even neighbour.
pub fn rounded_quotient(num: u128, den: u128) -> (q: u128)
    requires
        0 < den <= 0x1_0000_0000_0000_0000,
    ensures
        q == round_half_even(num as nat, den as nat),
{
    let q: u128 = num / den;
    let r: u128 = num % den;
    if 2 * r > den || (2 * r == den && q % 2 == 1) {
        assert(q < u128::MAX) by (nonlinear_arith)
            requires
                q == num / den,
                r == num % den,
                r > 0,
                den > 0,
                num <= u128::MAX,
        ;
        q + 1
    } else {
        q
    }
}

/// Converts `n` the way a cast to binary64 does, and hands back the value as an integer.
pub fn to_double(n: u64) -> (m: u128)
    ensures
        m == nearest_double(n as nat),
        m <= 0x1_0000_0000_0000_0000,
        n < 0x20_0000_0000_0000 ==> m == n,
        m >= 0x20_0000_0000_0000 <==> n >= 0x20_0000_0000_0000,
{
    let mut rest: u64 = n;
    let mut spacing: u128 = 1;
    while rest >= 0x20_0000_0000_0000
        invariant
            is_spacing(spacing as nat),
            rest as nat * spacing <= n as nat,
            (n as nat) < (rest as nat + 1) * spacing,
            double_spacing(n as nat) == spacing * double_spacing(rest as nat),
        decreases rest,
    {
        proof {
            lemma_halving(n as nat, rest as nat, spacing as nat);
        }
        rest = rest / 2;
        spacing = spacing * 2;
    }
    proof {
        lemma_rounding_bounds(n as nat, rest as nat, spacing as nat);
    }
    let q: u128 = rounded_quotient(n as u128, spacing);
    q * spacing
}

proof fn lemma_halving(n: nat, rest: nat, spacing: nat)
    requires
        is_spacing(spacing),
        rest >= 0x20_0000_0000_0000,
        rest * spacing <= n,
        n < (rest + 1) * spacing,
        n <= u64::MAX,
    ensures
        spacing <= 0x400,
        is_spacing(spacing * 2),
        (rest / 2) * (spacing * 2) <= n,
        n < (rest / 2 + 1) * (spacing * 2),
        spacing * double_spacing(rest) == (spacing * 2) * double_spacing(rest / 2),
{
    assert(rest * spacing >= 0x20_0000_0000_0000 * spacing) by (nonlinear_arith)
        requires
            rest >= 0x20_0000_0000_0000,
    ;
    assert((rest / 2) * (spacing * 2) <= rest * spacing) by (nonlinear_arith)
        requires
            spacing >= 1,
    ;
    assert((rest + 1) * spacing <= (rest / 2 + 1) * (spacing * 2)) by (nonlinear_arith)
        requires
            spacing >= 1,
    ;
    assert(spacing * (2 * double_spacing(rest / 2)) == (spacing * 2) * double_spacing(rest / 2))
        by (nonlinear_arith);
}

proof fn lemma_rounding_bounds(n: nat, rest: nat, spacing: nat)
    requires
        is_spacing(spacing),
        rest < 0x20_0000_0000_0000,
        rest * spacing <= n,
        n < (rest + 1) * spacing,
        n <= u64::MAX,
        double_spacing(n) == spacing * double_spacing(rest),
    ensures
        double_spacing(n) == spacing,
        round_half_even(n, spacing) <= 0x20_0000_0000_0000,
        round_half_even(n, spacing) * spacing <= 0x1_0000_0000_0000_0000,
        n < 0x20_0000_0000_0000 ==> spacing == 1 && round_half_even(n, spacing) == n,
        n >= 0x20_0000_0000_0000 ==> round_half_even(n, spacing) * spacing >= 0x20_0000_0000_0000,
{
    assert(double_spacing(rest) == 1);
    assert(spacing * 1 == spacing);
    let q = n / spacing;
    assert(q == rest) by (nonlinear_arith)
        requires
            q == n / spacing,
            spacing >= 1,
            rest * spacing <= n,
            n < (rest + 1) * spacing,
    ;
    let r = round_half_even(n, spacing);
    assert(q <= r <= q + 1);
    assert(r * spacing <= 0x20_0000_0000_0000 * spacing) by (nonlinear_arith)
        requires
            r <= 0x20_0000_0000_0000,
    ;
    if n < 0x20_0000_0000_0000 {
        if spacing > 1 {
            // the loop ran at least once, so n was at least 2^53
            assert(double_spacing(n) == 1);
        }
        assert(n % 1 == 0);
    } else {
        assert(spacing >= 2) by {
            if spacing == 1 {
                assert(rest * 1 == rest);
            }
        }
        // rest is at least 2^52 once the value has been halved below 2^53
        lemma_spacing_floor(n);
        assert(rest * spacing >= 0x20_0000_0000_0000) by (nonlinear_arith)
            requires
                spacing == double_spacing(n),
                n / double_spacing(n) >= 0x10_0000_0000_0000,
                double_spacing(n) >= 2,
                rest == n / spacing,
        ;
        assert(r * spacing >= rest * spacing) by (nonlinear_arith)
            requires
                r >= rest,
        ;
    }
}

/// From 2^53 on, the significand `n / double_spacing(n)` has at least 53 bits.
proof fn lemma_spacing_floor(n: nat)
    requires
        n >= 0x20_0000_0000_0000,
    ensures
        double_spacing(n) >= 2,
        n / double_spacing(n) >= 0x10_0000_0000_0000,
    decreases n,
{
    let half = n / 2;
    if half >= 0x20_0000_0000_0000 {
        lemma_spacing_floor(half);
        let s = double_spacing(half);
        assert(n / (2 * s) == half / s) by (nonlinear_arith)
            requires
                half == n / 2,
                s >= 1,
        ;
    } else {
        assert(double_spacing(half) == 1);
        assert(n / 2 >= 0x10_0000_0000_0000);
    }
}

/// Appends a number of hundredths with two decimal places.
pub fn push_two_places(out: &mut String, hundredths: u128)
    ensures
        final(out)@ == old(out)@ + two_places(hundredths as nat),
{
    push_decimal(out, hundredths / 100);
    out.append(".");
    out.append(digit_text(((hundredths / 10) % 10) as u8));
    out.append(digit_text((hundredths % 10) as u8));
    proof {
        reveal_strlit(".");
        assert("."@ =~= seq!['.']);
        assert(out@ =~= old(out)@ + two_places(hundredths as nat));
    }
}

/// Appends a number of tenths with one decimal place.
pub fn push_one_place(out: &mut String, tenths: u128)
    ensures
        final(out)@ == old(out)@ + one_place(tenths as nat),
{
    push_decimal(out, tenths / 10);
    out.append(".");
    out.append(digit_text((tenths % 10) as u8));
    proof {
        reveal_strlit(".");
        assert("."@ =~= seq!['.']);
        assert(out@ =~= old(out)@ + one_place(tenths as nat));
    }
}

/// Appends `n / unit` with two decimal places, rounded as binary64 prints it.
pub fn push_ratio_two_places(out: &mut String, n: u64, unit: u64)
    requires
        unit > 0,
    ensures
        final(out)@ == old(out)@ + ratio_two_places(n as nat, unit as nat),
{
    let m: u128 = to_double(n);
    let h: u128 = rounded_quotient(m * 100, unit as u128);
    push_two_places(out, h);
}

/// Appends `n / unit` with one decimal place, rounded as binary64 prints it.
pub fn push_ratio_one_place(out: &mut String, n: u64, unit: u64)
    requires
        unit > 0,
    ensures
        final(out)@ == old(out)@ + ratio_one_place(n as nat, unit as nat),
{
    let m: u128 = to_double(n);
    let t: u128 = rounded_quotient(m * 10, unit as u128);
    push_one_place(out, t);
}

/// Appends a size in bytes as mebibytes with two decimal places.
pub fn push_mebibytes(out: &mut String, size: u64)
    ensures
        final(out)@ == old(out)@ + mebibytes(size as nat),
{
    push_ratio_two_places(out, size, MIB);
}

/// Appends a size in bytes as gibibytes with two decimal places.
pub fn push_gibibytes(out: &mut String, size: u64)
    ensures
        final(out)@ == old(out)@ + gibibytes(size as nat),
{
    push_ratio_two_places(out, size, GIB);
}

} // verus!

verus! {

/// The texts that a list of strings holds.
pub open spec fn texts(lines: Seq<String>) -> Seq<Seq<char>> {
    Seq::new(lines.len(), |i: int| lines[i]@)
}

/// Lines written one after the other, each closed by a line feed.
pub open spec fn with_line_feeds(lines: Seq<Seq<char>>) -> Seq<char>
    decreases lines.len(),
{
    if lines.len() == 0 {
        Seq::empty()
    } else {
        with_line_feeds(lines.drop_last()) + lines.last() + seq!['\n']
    }
}

/// Appends each line, closed by a line feed, to `out`.
pub fn push_lines(out: &mut String, lines: &Vec<String>)
    ensures
        final(out)@ == old(out)@ + with_line_feeds(texts(lines@)),
{
    let mut i: usize = 0;
    while i < lines.len()
        invariant
            i <= lines.len(),
            out@ == old(out)@ + with_line_feeds(texts(lines@).take(i as int)),
        decreases lines.len() - i,
    {
        out.append(lines[i].as_str());
        out.append("\n");
        proof {
            reveal_strlit("\n");
            assert("\n"@ =~= seq!['\n']);
            let next = texts(lines@).take(i + 1);
            assert(next.drop_last() =~= texts(lines@).take(i as int));
            assert(next.last() == lines@[i as int]@);
            assert(out@ =~= old(out)@ + with_line_feeds(next));
        }
        i = i + 1;
    }
    assert(texts(lines@).take(lines.len() as int) =~= texts(lines@));
}

/// Adds `more` to the end of `lines`.
pub fn append_lines(lines: &mut Vec<String>, more: Vec<String>)
    ensures
        texts(final(lines)@) == texts(old(lines)@) + texts(more@),
{
    let mut more = more;
    let ghost added = more@;
    lines.append(&mut more);
    assert(texts(lines@) =~= texts(old(lines)@) + texts(added));
}

/// Adds `line` to the end of `lines`.
pub fn append_line(lines: &mut Vec<String>, line: String)
    ensures
        texts(final(lines)@) == texts(old(lines)@).push(line@),
{
    lines.push(line);
    assert(texts(lines@) =~= texts(old(lines)@).push(line@));
}

} // verus!
