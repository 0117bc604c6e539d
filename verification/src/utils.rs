//! Byte-magnitude formatting with binary unit prefixes, and the decimal
//! string helpers it is built from.
use vstd::prelude::*;

pub use crate::ticks::choose_interval;
pub use crate::ticks::generate_ticks;

verus! {

/// The decimal digit character for `d` (meaningful for `d < 10`).
pub open spec fn digit_char(d: int) -> char {
    if d == 0 {
        '0'
    } else if d == 1 {
        '1'
    } else if d == 2 {
        '2'
    } else if d == 3 {
        '3'
    } else if d == 4 {
        '4'
    } else if d == 5 {
        '5'
    } else if d == 6 {
        '6'
    } else if d == 7 {
        '7'
    } else if d == 8 {
        '8'
    } else {
        '9'
    }
}

/// Decimal digits of `n`, most significant first, no leading zeros (a lone
/// zero for `n == 0`).
pub open spec fn dec_digits(n: nat) -> Seq<char>
    decreases n,
{
    if n < 10 {
        seq![digit_char(n as int)]
    } else {
        dec_digits(n / 10) + seq![digit_char((n % 10) as int)]
    }
}

/// The last `width` decimal digits of `n`, zero-padded to exactly `width`
/// characters.
pub open spec fn dec_digits_padded(n: nat, width: nat) -> Seq<char>
    decreases width,
{
    if width == 0 {
        Seq::empty()
    } else {
        dec_digits_padded(n / 10, (width - 1) as nat) + seq![digit_char((n % 10) as int)]
    }
}

/// Append the decimal digit character for `d < 10`.
fn push_digit(s: &mut String, d: u64)
    requires
        d < 10,
    ensures
        final(s)@ == old(s)@ + seq![digit_char(d as int)],
{
    let ds: &str = if d == 0 {
        "0"
    } else if d == 1 {
        "1"
    } else if d == 2 {
        "2"
    } else if d == 3 {
        "3"
    } else if d == 4 {
        "4"
    } else if d == 5 {
        "5"
    } else if d == 6 {
        "6"
    } else if d == 7 {
        "7"
    } else if d == 8 {
        "8"
    } else {
        "9"
    };
    proof {
        reveal_strlit("0");
        reveal_strlit("1");
        reveal_strlit("2");
        reveal_strlit("3");
        reveal_strlit("4");
        reveal_strlit("5");
        reveal_strlit("6");
        reveal_strlit("7");
        reveal_strlit("8");
        reveal_strlit("9");
        assert(ds@ =~= seq![digit_char(d as int)]);
    }
    s.append(ds);
}

/// Append `n` in decimal.
pub fn push_u64(s: &mut String, n: u64)
    ensures
        final(s)@ == old(s)@ + dec_digits(n as nat),
    decreases n,
{
    if n >= 10 {
        push_u64(s, n / 10);
    }
    push_digit(s, n % 10);
    proof {
        if n >= 10 {
            assert(final(s)@ =~= old(s)@ + dec_digits(n as nat));
        } else {
            assert(final(s)@ =~= old(s)@ + dec_digits(n as nat));
        }
    }
}

/// Append the last `width` decimal digits of `n`, zero-padded.
pub fn push_u64_padded(s: &mut String, n: u64, width: usize)
    ensures
        final(s)@ == old(s)@ + dec_digits_padded(n as nat, width as nat),
    decreases width,
{
    if width == 0 {
        proof {
            assert(final(s)@ =~= old(s)@ + dec_digits_padded(n as nat, 0));
        }
        return ;
    }
    push_u64_padded(s, n / 10, width - 1);
    push_digit(s, n % 10);
    proof {
        assert(final(s)@ =~= old(s)@ + dec_digits_padded(n as nat, width as nat));
    }
}

/// Decimal digits of a signed value: a minus sign for negatives, then the
/// magnitude.
pub open spec fn int_digits(v: int) -> Seq<char> {
    if v < 0 {
        seq!['-'] + dec_digits((-v) as nat)
    } else {
        dec_digits(v as nat)
    }
}

/// Append `v` in decimal, sign included.
pub fn push_i64(s: &mut String, v: i64)
    ensures
        final(s)@ == old(s)@ + int_digits(v as int),
{
    if v < 0 {
        s.append("-");
        proof {
            reveal_strlit("-");
        }
        let mag: u64 = (-(v as i128)) as u64;
        push_u64(s, mag);
        proof {
            assert(final(s)@ =~= old(s)@ + int_digits(v as int));
        }
    } else {
        push_u64(s, v as u64);
    }
}

/// `10^p`.
pub open spec fn pow10(p: nat) -> int
    decreases p,
{
    if p == 0 {
        1
    } else {
        10 * pow10((p - 1) as nat)
    }
}

/// `1024^u`.
pub open spec fn pow1024(u: nat) -> int
    decreases u,
{
    if u == 0 {
        1
    } else {
        1024 * pow1024((u - 1) as nat)
    }
}

/// The unit index for a byte magnitude: the number of times it must be
/// divided by 1024 before it drops below 1024 (the smallest `u` with
/// `m < 1024^(u+1)`).
pub open spec fn unit_index(m: nat) -> nat
    decreases m,
{
    if m < 1024 {
        0
    } else {
        1 + unit_index(m / 1024)
    }
}

/// The binary unit prefix for a unit index (meaningful up to `Zi`).
pub open spec fn unit_prefix(u: nat) -> Seq<char> {
    if u == 0 {
        Seq::empty()
    } else if u == 1 {
        seq!['K', 'i']
    } else if u == 2 {
        seq!['M', 'i']
    } else if u == 3 {
        seq!['G', 'i']
    } else if u == 4 {
        seq!['T', 'i']
    } else if u == 5 {
        seq!['P', 'i']
    } else if u == 6 {
        seq!['E', 'i']
    } else {
        seq!['Z', 'i']
    }
}

/// Round `a / b` to the nearest integer, ties to even.
pub open spec fn round_half_even(a: int, b: int) -> int {
    let q = a / b;
    let r = a % b;
    if 2 * r < b {
        q
    } else if 2 * r > b {
        q + 1
    } else if q % 2 == 0 {
        q
    } else {
        q + 1
    }
}

/// The formatted byte magnitude: an optional sign, the scaled magnitude
/// with `p` decimals (rounded to nearest, ties to even), a space, and the
/// binary unit prefix chosen so the scaled magnitude is below 1024.
pub open spec fn spec_format_bytes(bytes: int, p: nat) -> Seq<char> {
    let mag = if bytes < 0 {
        -bytes
    } else {
        bytes
    };
    let u = unit_index(mag as nat);
    let scaled = round_half_even(mag * pow10(p), pow1024(u));
    let sign = if bytes < 0 {
        seq!['-']
    } else {
        Seq::<char>::empty()
    };
    let frac = if p > 0 {
        seq!['.'] + dec_digits_padded((scaled % pow10(p)) as nat, p)
    } else {
        Seq::<char>::empty()
    };
    sign + dec_digits((scaled / pow10(p)) as nat) + frac + seq![' '] + unit_prefix(u) + seq!['B']
}

/// `unit_index` is within the prefix table for any machine-sized magnitude,
/// and its power bounds the magnitude on both sides.
proof fn lemma_unit_index(m: nat)
    ensures
        m < pow1024(unit_index(m) + 1),
        unit_index(m) > 0 ==> pow1024(unit_index(m)) <= m,
        m < 0x10000000000000000 ==> unit_index(m) <= 6,
    decreases m,
{
    if m < 1024 {
        assert(pow1024(1) == 1024 * pow1024(0));
        assert(pow1024(0) == 1);
    } else {
        lemma_unit_index(m / 1024);
        let u = unit_index((m / 1024) as nat);
        vstd::arithmetic::div_mod::lemma_fundamental_div_mod(m as int, 1024);
        lemma_pow1024_positive(u);
        assert(m / 1024 < pow1024(u + 1));
        assert(m < 1024 * pow1024(u + 1)) by (nonlinear_arith)
            requires
                m / 1024 < pow1024(u + 1),
                m >= 1024,
                m == 1024 * (m as int / 1024) + (m as int % 1024),
                0 <= m as int % 1024 < 1024,
        ;
        assert(pow1024(u + 1) == 1024 * pow1024(u));
        assert(u > 0 ==> 1024 * pow1024(u) <= m) by (nonlinear_arith)
            requires
                u > 0 ==> pow1024(u) <= m / 1024,
                m == 1024 * (m as int / 1024) + (m as int % 1024),
                0 <= m as int % 1024 < 1024,
                m >= 1024,
                pow1024(u) >= 1,
        ;
        assert(u == 0 ==> 1024 * pow1024(u) <= m);
        assert(pow1024(u + 2) == 1024 * pow1024(u + 1));
        assert(unit_index(m) == u + 1);
        if m < 0x10000000000000000 {
            lemma_pow1024_at_6();
            if u + 1 > 6 {
                lemma_pow1024_monotone(7, u + 1);
            }
        }
    }
}

proof fn lemma_pow1024_positive(u: nat)
    ensures
        pow1024(u) >= 1,
    decreases u,
{
    if u > 0 {
        lemma_pow1024_positive((u - 1) as nat);
    }
}

proof fn lemma_pow1024_at_6()
    ensures
        pow1024(7) == 0x400000000000000000int,
{
    reveal_with_fuel(pow1024, 8);
}

proof fn lemma_pow1024_monotone(a: nat, b: nat)
    requires
        a <= b,
    ensures
        pow1024(a) <= pow1024(b),
    decreases b,
{
    if a < b {
        lemma_pow1024_monotone(a, (b - 1) as nat);
        lemma_pow1024_positive(a);
        assert(pow1024(b) == 1024 * pow1024((b - 1) as nat));
        assert(pow1024((b - 1) as nat) <= 1024 * pow1024((b - 1) as nat)) by (nonlinear_arith)
            requires
                pow1024((b - 1) as nat) >= 1,
        ;
    }
}

/// Format a byte count with a fixed number of decimals and the largest
/// binary unit that keeps the magnitude below 1024.
#[verifier::rlimit(60)]
pub fn format_bytes_precision(bytes: i64, precision: usize) -> (r: String)
    requires
        precision <= 12,
    ensures
        r@ == spec_format_bytes(bytes as int, precision as nat),
{
    let mag: u64 = if bytes >= 0 {
        bytes as u64
    } else {
        (-(bytes as i128)) as u64
    };

    let mut u: usize = 0;
    let mut div: u64 = 1;
    proof {
        lemma_unit_index(mag as nat);
    }
    while mag / div >= 1024
        invariant
            div == pow1024(u as nat),
            div >= 1,
            div == 1 || div <= mag,
            unit_index(mag as nat) <= 6,
            unit_index(mag as nat) == u + unit_index((mag / div) as nat),
        decreases mag as int / div as int,
    {
        proof {
            vstd::arithmetic::div_mod::lemma_fundamental_div_mod(mag as int, div as int);
            assert(div * 1024 <= mag) by (nonlinear_arith)
                requires
                    (mag as int) / (div as int) >= 1024,
                    div >= 1,
                    mag as int == (div as int) * ((mag as int) / (div as int)) + ((mag as int) % (
                    div as int)),
                    0 <= ((mag as int) % (div as int)) < (div as int),
            ;
            vstd::arithmetic::div_mod::lemma_div_denominator(mag as int, div as int, 1024);
            assert((mag as int / div as int) / 1024 == mag as int / (div as int * 1024));
            assert(unit_index((mag / div) as nat) == 1 + unit_index(
                ((mag / div) / 1024) as nat,
            ));
            vstd::arithmetic::div_mod::lemma_fundamental_div_mod(
                mag as int / div as int,
                1024,
            );
            assert(((mag as int) / (div as int)) / 1024 < (mag as int) / (div as int))
                by (nonlinear_arith)
                requires
                    (mag as int) / (div as int) >= 1024,
                    (mag as int) / (div as int) == 1024 * (((mag as int) / (div as int)) / 1024)
                        + (((mag as int) / (div as int)) % 1024),
                    0 <= (((mag as int) / (div as int)) % 1024) < 1024,
            ;
        }
        div = div * 1024;
        u = u + 1;
    }
    proof {
        assert(unit_index((mag / div) as nat) == 0);
        assert(unit_index(mag as nat) == u);
        lemma_unit_index(mag as nat);
        lemma_pow1024_monotone(u as nat, 6);
        reveal_with_fuel(pow1024, 8);
    }

    let mut p10: u64 = 1;
    let mut i: usize = 0;
    while i < precision
        invariant
            i <= precision <= 12,
            p10 == pow10(i as nat),
            1 <= p10 <= 0x1000000000000,
        decreases precision - i,
    {
        p10 = p10 * 10;
        i = i + 1;
        proof {
            lemma_pow10_bound(i as nat);
        }
    }

    proof {
        assert((mag as int) * (p10 as int) <= 0x10000000000000000 * 0x10000000000000)
            by (nonlinear_arith)
            requires
                0 <= (mag as int) <= 0x10000000000000000,
                0 <= (p10 as int) <= 0x10000000000000,
        ;
    }
    let num: u128 = (mag as u128) * (p10 as u128);
    let q: u128 = num / (div as u128);
    let rem: u128 = num % (div as u128);
    let scaled: u128 = if 2 * rem < div as u128 {
        q
    } else if 2 * rem > div as u128 {
        q + 1
    } else if q % 2 == 0 {
        q
    } else {
        q + 1
    };
    proof {
        assert(scaled as int == round_half_even(
            (mag as int) * (p10 as int),
            pow1024(unit_index(mag as nat)),
        ));
        vstd::arithmetic::div_mod::lemma_fundamental_div_mod(mag as int, div as int);
        vstd::arithmetic::div_mod::lemma_fundamental_div_mod(num as int, div as int);
        assert(q as int <= 1024 * (p10 as int)) by (nonlinear_arith)
            requires
                (mag as int) / (div as int) < 1024,
                0 <= (mag as int) / (div as int),
                div >= 1,
                p10 >= 1,
                num as int == (mag as int) * (p10 as int),
                mag as int == (div as int) * ((mag as int) / (div as int)) + ((mag as int) % (
                div as int)),
                0 <= ((mag as int) % (div as int)) < (div as int),
                num as int == (div as int) * (q as int) + ((num as int) % (div as int)),
                0 <= ((num as int) % (div as int)) < (div as int),
        ;
        assert(scaled as int <= 1024 * (p10 as int) + 1);
    }

    let int_part: u128 = scaled / (p10 as u128);
    let frac_part: u128 = scaled % (p10 as u128);
    proof {
        vstd::arithmetic::div_mod::lemma_fundamental_div_mod(scaled as int, p10 as int);
        assert(int_part as int <= 2000) by (nonlinear_arith)
            requires
                p10 >= 1,
                scaled as int <= 1024 * (p10 as int) + 1,
                scaled as int == (p10 as int) * (int_part as int) + ((scaled as int) % (
                p10 as int)),
                0 <= ((scaled as int) % (p10 as int)) < (p10 as int),
        ;
        assert(frac_part < p10);
    }

    let mut out: String = String::new();
    if bytes < 0 {
        out.append("-");
        proof {
            reveal_strlit("-");
            assert("-"@ =~= seq!['-']);
        }
    }
    push_u64(&mut out, int_part as u64);
    if precision > 0 {
        out.append(".");
        proof {
            reveal_strlit(".");
            assert("."@ =~= seq!['.']);
        }
        push_u64_padded(&mut out, frac_part as u64, precision);
    }
    out.append(" ");
    let prefix: &str = if u == 0 {
        ""
    } else if u == 1 {
        "Ki"
    } else if u == 2 {
        "Mi"
    } else if u == 3 {
        "Gi"
    } else if u == 4 {
        "Ti"
    } else if u == 5 {
        "Pi"
    } else {
        "Ei"
    };
    proof {
        reveal_strlit(" ");
        reveal_strlit("");
        reveal_strlit("Ki");
        reveal_strlit("Mi");
        reveal_strlit("Gi");
        reveal_strlit("Ti");
        reveal_strlit("Pi");
        reveal_strlit("Ei");
        assert(" "@ =~= seq![' ']);
        assert(prefix@ =~= unit_prefix(u as nat));
    }
    out.append(prefix);
    out.append("B");
    proof {
        reveal_strlit("B");
        assert("B"@ =~= seq!['B']);
        assert(out@ =~= spec_format_bytes(bytes as int, precision as nat));
    }
    out
}

proof fn lemma_pow10_bound(p: nat)
    requires
        p <= 12,
    ensures
        1 <= pow10(p) <= 0x1000000000000,
{
    reveal_with_fuel(pow10, 13);
}

/// Format a byte count with two decimals.
pub fn format_bytes(bytes: i64) -> (r: String)
    ensures
        r@ == spec_format_bytes(bytes as int, 2),
{
    format_bytes_precision(bytes, 2)
}

/// `n` spaces.
pub open spec fn spaces(n: nat) -> Seq<char>
    decreases n,
{
    if n == 0 {
        Seq::empty()
    } else {
        spaces((n - 1) as nat) + seq![' ']
    }
}

/// `s` padded with leading spaces to at least `w` characters.
pub open spec fn pad_left(s: Seq<char>, w: nat) -> Seq<char> {
    if s.len() >= w {
        s
    } else {
        spaces((w - s.len()) as nat) + s
    }
}

/// `s` padded with trailing spaces to at least `w` characters.
pub open spec fn pad_right(s: Seq<char>, w: nat) -> Seq<char> {
    if s.len() >= w {
        s
    } else {
        s + spaces((w - s.len()) as nat)
    }
}

/// Append `n` spaces.
pub fn push_spaces(s: &mut String, n: usize)
    ensures
        final(s)@ == old(s)@ + spaces(n as nat),
    decreases n,
{
    if n == 0 {
        proof {
            assert(final(s)@ =~= old(s)@ + spaces(0));
        }
        return ;
    }
    push_spaces(s, n - 1);
    s.append(" ");
    proof {
        reveal_strlit(" ");
        assert(final(s)@ =~= old(s)@ + spaces(n as nat));
    }
}

/// Append `text` padded with trailing spaces to at least `w` characters.
pub fn push_padded_right(s: &mut String, text: &str, w: usize)
    ensures
        final(s)@ == old(s)@ + pad_right(text@, w as nat),
{
    let n: usize = text.unicode_len();
    s.append(text);
    if n < w {
        push_spaces(s, w - n);
        proof {
            assert(final(s)@ =~= old(s)@ + pad_right(text@, w as nat));
        }
    }
}

/// Append `text` padded with leading spaces to at least `w` characters.
pub fn push_padded_left(s: &mut String, text: &str, w: usize)
    ensures
        final(s)@ == old(s)@ + pad_left(text@, w as nat),
{
    let n: usize = text.unicode_len();
    if n < w {
        push_spaces(s, w - n);
    }
    s.append(text);
    proof {
        assert(final(s)@ =~= old(s)@ + pad_left(text@, w as nat));
    }
}

/// The debug rendering of a list of numbers: `[a, b, c]`.
pub open spec fn u64_list_debug(s: Seq<u64>) -> Seq<char> {
    seq!['['] + u64_list_body(s, s.len() as int) + seq![']']
}

/// The comma-separated body of the first `n` members of the list.
pub open spec fn u64_list_body(s: Seq<u64>, n: int) -> Seq<char>
    decreases n,
{
    if n <= 0 {
        Seq::empty()
    } else if n == 1 {
        dec_digits(s[0] as nat)
    } else {
        u64_list_body(s, n - 1) + seq![',', ' '] + dec_digits(s[n - 1] as nat)
    }
}

/// Append the debug rendering of a list of numbers.
pub fn push_u64_list(s: &mut String, v: &Vec<u64>)
    ensures
        final(s)@ == old(s)@ + u64_list_debug(v@),
{
    s.append("[");
    proof {
        reveal_strlit("[");
        assert(s@ =~= old(s)@ + seq!['['] + u64_list_body(v@, 0));
    }
    let n: usize = v.len();
    let mut i: usize = 0;
    while i < n
        invariant
            n == v@.len(),
            0 <= i <= n,
            s@ == old(s)@ + seq!['['] + u64_list_body(v@, i as int),
        decreases n - i,
    {
        if i > 0 {
            s.append(", ");
            proof {
                reveal_strlit(", ");
            }
        }
        push_u64(s, v[i]);
        proof {
            assert(s@ =~= old(s)@ + seq!['['] + u64_list_body(v@, i + 1));
        }
        i = i + 1;
    }
    s.append("]");
    proof {
        reveal_strlit("[");
        reveal_strlit("]");
        assert(final(s)@ =~= old(s)@ + u64_list_debug(v@));
    }
}

} // verus!
