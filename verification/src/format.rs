//! How single values are shown: sizes, counts, times and file names.

use vstd::prelude::*;
use vstd::arithmetic::power2::pow2;
use crate::json::{Json, JValue, field_u64};
use crate::text::{chars_of, decimal, decimal_text, digit, push_decimal};

verus! {

/// A number below a thousand, with leading zeros to three digits.
pub open spec fn three_digits(n: nat) -> Seq<char> {
    seq![digit(n / 100), digit(n / 10 % 10), digit(n % 10)]
}

/// `n` in decimal, with a comma before every three digits but the first ones.
pub open spec fn grouped(n: nat) -> Seq<char>
    decreases n,
{
    if n < 1000 {
        decimal(n)
    } else {
        grouped(n / 1000) + ","@ + three_digits(n % 1000)
    }
}

/// A size in bytes, told in KiB where it is a whole number of them.
pub open spec fn size_text(bytes: nat) -> Seq<char> {
    if bytes % 1024 == 0 {
        decimal(bytes / 1024) + " KiB"@
    } else {
        decimal(bytes) + " bytes"@
    }
}

/// The integer nearest to `num / den`; of two as near, the even one.
pub open spec fn nearest(num: nat, den: nat) -> nat {
    let below = num / den;
    let rest = num % den;
    if 2 * rest < den || (2 * rest == den && below % 2 == 0) {
        below
    } else {
        below + 1
    }
}

/// How many binary digits `n` has beyond fifty-three.
pub open spec fn excess_bits(n: nat) -> nat
    decreases n,
{
    if n < 0x20_0000_0000_0000 {
        0
    } else {
        1 + excess_bits(n / 2)
    }
}

/// The double-precision number nearest to the integer `n`, which is an integer too.
pub open spec fn as_double(n: nat) -> nat {
    nearest(n, pow2(excess_bits(n))) * pow2(excess_bits(n))
}

/// How often `n` has to be doubled for `n / 1_000_000` to reach fifty-three binary digits before
/// the point.
pub open spec fn doublings(n: nat) -> nat
    decreases 2 * 0x10_0000_0000_0000 * 1_000_000 - n,
{
    if n == 0 || n >= 0x10_0000_0000_0000 * 1_000_000 {
        0
    } else {
        1 + doublings(2 * n)
    }
}

/// `n / 1_000_000` in double precision, times two to the power of `doublings(n)`.
pub open spec fn millionth(n: nat) -> nat {
    nearest(n * pow2(doublings(n)), 1_000_000)
}

/// The thousandths of a millisecond shown for `ns` nanoseconds: `ns` as a double-precision
/// number, divided by a million in double precision, and then rounded to three decimal places.
pub open spec fn shown_thousandths(ns: nat) -> nat {
    let n = as_double(ns);
    nearest(millionth(n) * 1000, pow2(doublings(n)))
}

/// A time in milliseconds with three decimal places.
pub open spec fn time_text(ns: nat) -> Seq<char> {
    let t = shown_thousandths(ns);
    decimal(t / 1000) + "."@ + three_digits(t % 1000) + " ms"@
}

/// The characters that a file name keeps.
pub open spec fn is_safe(c: char) -> bool {
    ||| 'A' <= c <= 'Z'
    ||| 'a' <= c <= 'z'
    ||| '0' <= c <= '9'
    ||| c == '-'
    ||| c == '_'
    ||| c == '.'
}

/// `s` with an underscore for every character that a file name does not keep.
pub open spec fn safe_name(s: Seq<char>) -> Seq<char> {
    Seq::new(
        s.len(),
        |i: int|
            if is_safe(s[i]) {
                s[i]
            } else {
                '_'
            },
    )
}

/// The time under `key`, a dash where there is none.
pub open spec fn time_field(v: JValue, key: Seq<char>) -> Seq<char> {
    match v.unsigned_at(key) {
        Some(ns) => time_text(ns as nat),
        None => "-"@,
    }
}

/// The count under `key`, a dash where there is none.
pub open spec fn count_field(v: JValue, key: Seq<char>) -> Seq<char> {
    match v.unsigned_at(key) {
        Some(n) => grouped(n as nat),
        None => "-"@,
    }
}

/// Appends a number below a thousand, with leading zeros to three digits.
fn push_three_digits(out: &mut String, n: u64)
    requires
        n < 1000,
    ensures
        final(out)@ == old(out)@ + three_digits(n as nat),
{
    out.push((48 + (n / 100) as u8) as char);
    out.push((48 + (n / 10 % 10) as u8) as char);
    out.push((48 + (n % 10) as u8) as char);
    assert(out@ =~= old(out)@ + three_digits(n as nat));
}

fn push_grouped(out: &mut String, n: u64)
    ensures
        final(out)@ == old(out)@ + grouped(n as nat),
    decreases n,
{
    if n < 1000 {
        push_decimal(out, n);
    } else {
        push_grouped(out, n / 1000);
        out.append(",");
        push_three_digits(out, n % 1000);
        assert(out@ =~= old(out)@ + grouped(n as nat));
    }
}

/// A size in bytes, told in KiB where it is a whole number of them.
pub fn format_bytes(bytes: u64) -> (r: String)
    ensures
        r@ == size_text(bytes as nat),
{
    if bytes % 1024 == 0 {
        decimal_text(bytes / 1024).concat(" KiB")
    } else {
        decimal_text(bytes).concat(" bytes")
    }
}

/// A count, with a comma before every three digits but the first ones.
pub fn format_count(value: u64) -> (r: String)
    ensures
        r@ == grouped(value as nat),
{
    let mut out = String::new();
    push_grouped(&mut out, value);
    assert(Seq::<char>::empty() + grouped(value as nat) =~= grouped(value as nat));
    out
}

/// `value`, with an underscore for every character that a file name does not keep.
pub fn safe_filename_component(value: &str) -> (r: String)
    ensures
        r@ == safe_name(value@),
{
    let chars = chars_of(value);
    let mut out = String::new();
    let mut i: usize = 0;
    assert(out@ =~= safe_name(value@).take(0));
    while i < chars.len()
        invariant
            i <= chars@.len(),
            chars@ == value@,
            out@ == safe_name(value@).take(i as int),
        decreases chars.len() - i,
    {
        let c = chars[i];
        if ('A' <= c && c <= 'Z') || ('a' <= c && c <= 'z') || ('0' <= c && c <= '9') || c == '-'
            || c == '_' || c == '.' {
            out.push(c);
        } else {
            out.push('_');
        }
        i += 1;
        assert(out@ =~= safe_name(value@).take(i as int));
    }
    assert(safe_name(value@).take(value@.len() as int) =~= safe_name(value@));
    out
}

/// The integer nearest to `num / den`; of two as near, the even one.
fn nearest_quotient(num: u128, den: u128) -> (r: u128)
    requires
        0 < den <= 0x1_0000_0000_0000_0000_0000_0000,
    ensures
        r == nearest(num as nat, den as nat),
{
    let below = num / den;
    let rest = num % den;
    assert(below <= num) by (nonlinear_arith)
        requires
            below == num / den,
            den > 0,
    ;
    assert(rest < den);
    if 2 * rest < den || (2 * rest == den && below % 2 == 0) {
        below
    } else {
        assert(rest > 0);
        assert(below < u128::MAX) by (nonlinear_arith)
            requires
                below == num / den,
                rest == num % den,
                rest > 0,
                den > 0,
                num <= u128::MAX,
        ;
        below + 1
    }
}

/// The double-precision number nearest to an integer.
fn double_from(n: u64) -> (r: u128)
    ensures
        r == as_double(n as nat),
        r <= 0x2_0000_0000_0000_0000,
{
    let mut q: u64 = n;
    let mut scale: u128 = 1;
    let ghost mut k: nat = 0;
    proof {
        vstd::arithmetic::power2::lemma2_to64();
    }
    while q >= 0x20_0000_0000_0000
        invariant
            scale == pow2(k),
            q * scale <= n,
            n < (q + 1) * scale,
            scale == 1 || q >= 0x10_0000_0000_0000,
            1 <= scale <= 0x1000,
            excess_bits(n as nat) == excess_bits(q as nat) + k,
        decreases q,
    {
        proof {
            vstd::arithmetic::power2::lemma_pow2_unfold(k + 1);
            let h = q / 2;
            assert(scale <= 0x800) by (nonlinear_arith)
                requires
                    q * scale <= n,
                    n <= u64::MAX,
                    q >= 0x20_0000_0000_0000,
            ;
            assert(h * (2 * scale) <= n && n < (h + 1) * (2 * scale)) by (nonlinear_arith)
                requires
                    h == q / 2,
                    q * scale <= n,
                    n < (q + 1) * scale,
                    scale >= 1,
            ;
            k = k + 1;
        }
        q = q / 2;
        scale = scale * 2;
    }
    let m = nearest_quotient(n as u128, scale);
    proof {
        assert(excess_bits(n as nat) == k);
        assert(n as nat / scale as nat == q) by (nonlinear_arith)
            requires
                q * scale <= n,
                n < (q + 1) * scale,
                scale >= 1,
        ;
        assert(m <= 0x20_0000_0000_0000);
        assert(m * scale <= 0x2_0000_0000_0000_0000) by (nonlinear_arith)
            requires
                m <= 0x20_0000_0000_0000,
                1 <= scale <= 0x1000,
        ;
    }
    m * scale
}

/// A time in milliseconds with three decimal places.
pub fn format_ns(ns: u64) -> (r: String)
    ensures
        r@ == time_text(ns as nat),
{
    let n = double_from(ns);
    let mut d: u128 = n;
    let mut scale: u128 = 1;
    let ghost mut k: nat = 0;
    proof {
        vstd::arithmetic::power2::lemma2_to64();
    }
    while 0 < d && d < 0x10_0000_0000_0000 * 1_000_000
        invariant
            n <= 0x2_0000_0000_0000_0000,
            d <= 2 * 0x10_0000_0000_0000 * 1_000_000,
            scale == pow2(k),
            scale >= 1,
            d == n * scale,
            doublings(n as nat) == doublings(d as nat) + k,
            n == 0 ==> scale == 1,
        decreases 2 * 0x10_0000_0000_0000 * 1_000_000 - d,
    {
        proof {
            vstd::arithmetic::power2::lemma_pow2_unfold(k + 1);
            assert(scale <= d) by (nonlinear_arith)
                requires
                    d == n * scale,
                    0 < d,
            ;
            assert(2 * d == n * (2 * scale)) by (nonlinear_arith)
                requires
                    d == n * scale,
            ;
            k = k + 1;
        }
        d = d * 2;
        scale = scale * 2;
    }
    assert(scale <= 2 * 0x10_0000_0000_0000 * 1_000_000) by (nonlinear_arith)
        requires
            d == n * scale,
            n == 0 ==> scale == 1,
            d <= 2 * 0x10_0000_0000_0000 * 1_000_000,
    ;
    let m = nearest_quotient(d, 1_000_000);
    let t = nearest_quotient(m * 1000, scale);
    assert(t <= m * 1000 + 1) by (nonlinear_arith)
        requires
            t <= (m * 1000) / scale as int + 1,
            scale >= 1,
    ;
    let thousandths = t as u64;
    let mut out = decimal_text(thousandths / 1000);
    out.append(".");
    push_three_digits(&mut out, thousandths % 1000);
    out.append(" ms");
    out
}

/// The time under `key`, a dash where there is none.
pub fn ns_field(value: &Json, key: &str) -> (r: String)
    ensures
        r@ == time_field(value@, key@),
{
    match field_u64(value, key) {
        Some(ns) => format_ns(ns),
        None => "-".to_string(),
    }
}

/// The count under `key`, a dash where there is none.
pub fn count_or_dash(value: &Json, key: &str) -> (r: String)
    ensures
        r@ == count_field(value@, key@),
{
    match field_u64(value, key) {
        Some(n) => format_count(n),
        None => "-".to_string(),
    }
}

} // verus!
