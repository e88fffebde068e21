//! What holds of the client as a whole.

use vstd::prelude::*;
use vstd::arithmetic::power2::pow2;
use vstd::utf8::encode_utf8;
use crate::account::{auth_login_text, user_line};
use crate::challenges::field_width;
use crate::client::{form_byte, form_bytes, form_code, form_pair, form_query};
use crate::commands::is_agent_name;
use crate::config::{ConfigFile, ConfigStore, loads};
use crate::format::{
    as_double, doublings, excess_bits, grouped, is_safe, millionth, nearest, safe_name,
    shown_thousandths, three_digits,
};
use crate::jobs::{job_rows_text, submission_text};
use crate::json::{JValue, keys_ascend, member_called, text_less};
use crate::login::{AuthPollResponse, login_value, next_interval};
use crate::output::{Report, flaw, words};
use crate::request::{
    encoded, encoded_chars, escaped, hex_digit, is_path_char, is_unreserved, path_byte, path_bytes,
    path_code, path_part,
};
use crate::solutions::solution_text;
use crate::table::{cell_at, column_width, column_widths, dashes, padded_cells, table_line};
use crate::text::{
    byte_len, decimal, is_blank_text, is_space, joined, line, padded, string_view, trimmed_end,
    trimmed_start, without_trailing,
};
use crate::watch::wait_value;

pub mod reports;
pub mod requests;
pub mod tables;
pub mod values;

verus! {

/// A safe file name has a character for every character, keeps the safe ones, and is made of
/// safe ones alone; making it safe again changes nothing.
pub proof fn safe_names_are_safe(s: Seq<char>)
    ensures
        safe_name(s).len() == s.len(),
        forall|i: int| 0 <= i < s.len() ==> is_safe(#[trigger] safe_name(s)[i]),
        forall|i: int| 0 <= i < s.len() && is_safe(s[i]) ==> #[trigger] safe_name(s)[i] == s[i],
        safe_name(safe_name(s)) == safe_name(s),
{
    assert(safe_name(safe_name(s)) =~= safe_name(s));
}

/// What is left of a text without the white space at its ends is the text itself where it
/// neither starts nor ends with white space, and nothing where it holds nothing else.
pub proof fn trimmed_texts(s: Seq<char>)
    ensures
        ({
            let t = trimmed_end(trimmed_start(s));
            &&& t.len() > 0 ==> !is_space(t.first()) && !is_space(t.last())
            &&& t.len() == 0 <==> is_blank_text(s)
            &&& s.len() > 0 && !is_space(s.first()) && !is_space(s.last()) ==> t == s
        }),
{
    let front = trimmed_start(s);
    trimmed_start_splits(s);
    trimmed_end_splits(front);
    let t = trimmed_end(front);
    if t.len() > 0 {
        assert(t.first() == front.first());
    }
    if is_blank_text(s) {
        if front.len() > 0 {
            assert(front.first() == s[s.len() - front.len()]);
        }
    } else if t.len() == 0 {
        let k = choose|k: int| 0 <= k < s.len() && !is_space(s[k]);
        if k >= s.len() - front.len() {
            assert(front[k - (s.len() - front.len())] == s[k]);
        }
        assert(false);
    }
}

proof fn trimmed_start_splits(s: Seq<char>)
    ensures
        trimmed_start(s).len() <= s.len(),
        trimmed_start(s) == s.skip(s.len() - trimmed_start(s).len()),
        forall|i: int| 0 <= i < s.len() - trimmed_start(s).len() ==> is_space(#[trigger] s[i]),
        trimmed_start(s).len() > 0 ==> !is_space(trimmed_start(s).first()),
    decreases s.len(),
{
    let t = trimmed_start(s);
    if s.len() > 0 && is_space(s.first()) {
        let rest = s.drop_first();
        trimmed_start_splits(rest);
        assert(t =~= s.skip(s.len() - t.len()));
        assert forall|i: int| 0 <= i < s.len() - t.len() implies is_space(#[trigger] s[i]) by {
            if i > 0 {
                assert(s[i] == rest[i - 1]);
            }
        }
    } else {
        assert(t =~= s.skip(0));
    }
}

proof fn trimmed_end_splits(s: Seq<char>)
    ensures
        trimmed_end(s).len() <= s.len(),
        trimmed_end(s) == s.take(trimmed_end(s).len() as int),
        forall|i: int| trimmed_end(s).len() <= i < s.len() ==> is_space(#[trigger] s[i]),
        trimmed_end(s).len() > 0 ==> !is_space(trimmed_end(s).last()),
    decreases s.len(),
{
    let t = trimmed_end(s);
    if s.len() > 0 && is_space(s.last()) {
        let rest = s.drop_last();
        trimmed_end_splits(rest);
        assert(t =~= s.take(t.len() as int));
        assert forall|i: int| t.len() <= i < s.len() implies is_space(#[trigger] s[i]) by {
            if i < rest.len() {
                assert(s[i] == rest[i]);
            }
        }
    } else {
        assert(t =~= s.take(s.len() as int));
    }
}

/// A text without the occurrences of a character at its end does not end with it, and only
/// occurrences of that character are gone.
pub proof fn trailing_characters_are_gone(s: Seq<char>, c: char)
    ensures
        ({
            let t = without_trailing(s, c);
            &&& t.len() > 0 ==> t.last() != c
            &&& t.len() <= s.len()
            &&& t == s.take(t.len() as int)
            &&& forall|i: int| t.len() <= i < s.len() ==> #[trigger] s[i] == c
        }),
    decreases s.len(),
{
    let t = without_trailing(s, c);
    if s.len() > 0 && s.last() == c {
        let rest = s.drop_last();
        trailing_characters_are_gone(rest, c);
        assert(t =~= s.take(t.len() as int));
        assert forall|i: int| t.len() <= i < s.len() implies #[trigger] s[i] == c by {
            if i < rest.len() {
                assert(s[i] == rest[i]);
            }
        }
    } else {
        assert(t =~= s.take(s.len() as int));
    }
}

/// The number that decimal digits stand for.
pub open spec fn digits_value(s: Seq<char>) -> int
    decreases s.len(),
{
    if s.len() == 0 {
        0
    } else {
        10 * digits_value(s.drop_last()) + (s.last() as int - '0' as int)
    }
}

/// A number in decimal is digits alone, stands for the number, and starts with a zero only where
/// it is zero.
pub proof fn decimals_stand_for_their_number(n: nat)
    ensures
        digits_value(decimal(n)) == n,
        decimal(n).len() > 0,
        forall|i: int| 0 <= i < decimal(n).len() ==> '0' <= #[trigger] decimal(n)[i] <= '9',
        decimal(n)[0] == '0' ==> n == 0,
    decreases n,
{
    if n < 10 {
        assert(decimal(n).drop_last() =~= Seq::empty());
        assert(digits_value(decimal(n).drop_last()) == 0);
    } else {
        decimals_stand_for_their_number(n / 10);
        assert(decimal(n).drop_last() =~= decimal(n / 10));
    }
}

proof fn decimal_of_thousands(n: nat)
    requires
        n >= 1000,
    ensures
        decimal(n) == decimal(n / 1000) + three_digits(n % 1000),
{
    reveal_with_fuel(decimal, 4);
    assert(n / 10 / 10 == n / 100);
    assert(n / 100 / 10 == n / 1000);
    assert(n / 10 % 10 == n % 1000 / 10 % 10);
    assert(n / 100 % 10 == n % 1000 / 100);
    assert(n % 10 == n % 1000 % 10);
    assert(decimal(n) =~= decimal(n / 1000) + three_digits(n % 1000));
}

/// The text without its commas.
pub open spec fn without_commas(s: Seq<char>) -> Seq<char> {
    s.filter(|c: char| c != ',')
}

/// A count without its commas is the number in decimal, and the commas are the characters that
/// stand four, eight, twelve and so on from the end.
pub proof fn counts_are_decimals_in_groups(n: nat)
    ensures
        without_commas(grouped(n)) == decimal(n),
        forall|i: int|
            0 <= i < grouped(n).len() ==> (#[trigger] grouped(n)[i] == ',' <==> (grouped(n).len()
                - i) % 4 == 0),
        grouped(n).len() % 4 != 0,
{
    commas_drop_out(n);
    commas_stand_in_fours(n);
}

proof fn short_decimal(n: nat)
    requires
        n < 1000,
    ensures
        1 <= decimal(n).len() <= 3,
{
    reveal_with_fuel(decimal, 4);
}

proof fn digits_are_kept(n: nat)
    ensures
        without_commas(decimal(n)) == decimal(n),
{
    decimals_stand_for_their_number(n);
    all_kept(decimal(n), |c: char| c != ',');
}

proof fn commas_drop_out(n: nat)
    ensures
        without_commas(grouped(n)) == decimal(n),
    decreases n,
{
    if n < 1000 {
        digits_are_kept(n);
    } else {
        let keep = |c: char| c != ',';
        commas_drop_out(n / 1000);
        decimal_of_thousands(n);
        reveal_strlit(",");
        let front = grouped(n / 1000);
        let tail = three_digits(n % 1000);
        assert(","@ =~= seq![',']);
        Seq::filter_distributes_over_add(front + seq![','], tail, keep);
        Seq::filter_distributes_over_add(front, seq![','], keep);
        all_kept(tail, keep);
        assert(seq![','].filter(keep) =~= Seq::empty()) by {
            reveal_with_fuel(Seq::filter, 2);
            assert(seq![','].drop_last() =~= Seq::empty());
            assert(seq![','].drop_last().filter(keep) =~= Seq::empty());
        }
        assert(decimal(n / 1000) + Seq::empty() =~= decimal(n / 1000));
    }
}

proof fn commas_stand_in_fours(n: nat)
    ensures
        forall|i: int|
            0 <= i < grouped(n).len() ==> (#[trigger] grouped(n)[i] == ',' <==> (grouped(n).len()
                - i) % 4 == 0),
        grouped(n).len() % 4 != 0,
    decreases n,
{
    let g = grouped(n);
    if n < 1000 {
        short_decimal(n);
        decimals_stand_for_their_number(n);
    } else {
        commas_stand_in_fours(n / 1000);
        reveal_strlit(",");
        let front = grouped(n / 1000);
        let tail = three_digits(n % 1000);
        assert(","@ =~= seq![',']);
        assert(g.len() == front.len() + 4);
        assert forall|i: int| 0 <= i < g.len() implies (#[trigger] g[i] == ',' <==> (g.len() - i)
            % 4 == 0) by {
            if i < front.len() {
                assert(g[i] == front[i]);
            } else if i > front.len() {
                assert(g[i] == tail[i - front.len() - 1]);
            }
        }
    }
}

proof fn all_kept(s: Seq<char>, keep: spec_fn(char) -> bool)
    requires
        forall|i: int| 0 <= i < s.len() ==> keep(#[trigger] s[i]),
    ensures
        s.filter(keep) == s,
    decreases s.len(),
{
    reveal(Seq::filter);
    if s.len() > 0 {
        all_kept(s.drop_last(), keep);
        assert(s.drop_last().push(s.last()) =~= s);
    }
}

proof fn nearest_is_near(num: nat, den: nat)
    requires
        den > 0,
    ensures
        2 * (nearest(num, den) * den - num) <= den,
        2 * (num - nearest(num, den) * den) <= den,
{
    let below = num / den;
    let rest = num % den;
    vstd::arithmetic::div_mod::lemma_fundamental_div_mod(num as int, den as int);
    assert((below + 1) * den == below * den + den) by (nonlinear_arith);
    assert(den * below == below * den) by (nonlinear_arith);
}

proof fn doublings_reach(n: nat)
    requires
        n > 0,
    ensures
        n * pow2(doublings(n)) >= 0x10_0000_0000_0000 * 1_000_000,
        pow2(doublings(n)) > 0,
    decreases 2 * 0x10_0000_0000_0000 * 1_000_000 - n,
{
    vstd::arithmetic::power2::lemma2_to64();
    vstd::arithmetic::power2::lemma_pow2_pos(doublings(n));
    if n < 0x10_0000_0000_0000 * 1_000_000 {
        doublings_reach(2 * n);
        let k = doublings(2 * n);
        vstd::arithmetic::power2::lemma_pow2_unfold(k + 1);
        assert(n * (2 * pow2(k)) == (2 * n) * pow2(k)) by (nonlinear_arith);
    } else {
        assert(n * 1 == n);
    }
}

proof fn excess_is_bounded(n: nat, k: nat)
    requires
        n < 0x20_0000_0000_0000 * pow2(k),
    ensures
        excess_bits(n) <= k,
    decreases k,
{
    vstd::arithmetic::power2::lemma2_to64();
    if n >= 0x20_0000_0000_0000 {
        if k == 0 {
            assert(pow2(0) == 1);
        } else {
            vstd::arithmetic::power2::lemma_pow2_unfold(k);
            let half = pow2((k - 1) as nat);
            assert(n / 2 < 0x20_0000_0000_0000 * half) by (nonlinear_arith)
                requires
                    n < 0x20_0000_0000_0000 * (2 * half),
            ;
            excess_is_bounded(n / 2, (k - 1) as nat);
        }
    }
}

proof fn doubles_are_near(ns: nat)
    requires
        ns <= u64::MAX,
    ensures
        ns < 0x20_0000_0000_0000 ==> as_double(ns) == ns,
        -1024 <= as_double(ns) - ns <= 1024,
{
    vstd::arithmetic::power2::lemma2_to64();
    let e = excess_bits(ns);
    excess_is_bounded(ns, 11);
    vstd::arithmetic::power2::lemma_pow2_pos(e);
    if e < 11 {
        vstd::arithmetic::power2::lemma_pow2_strictly_increases(e, 11);
    }
    nearest_is_near(ns, pow2(e));
    if ns < 0x20_0000_0000_0000 {
        assert(e == 0);
        assert(nearest(ns, 1) == ns) by {
            assert(ns / 1nat == ns);
            assert(ns % 1nat == 0);
        }
        assert(nearest(ns, 1) * 1 == ns) by (nonlinear_arith)
            requires
                nearest(ns, 1) == ns,
        ;
    }
}

/// Below two to the power of fifty-three nanoseconds (a hundred days), no number of thousandths
/// of a millisecond is nearer to the time than the one shown, and no time at all is shown more
/// than four thousandths of a millisecond off.
pub proof fn times_are_rounded_to_the_nearest(ns: nat)
    requires
        ns <= u64::MAX,
    ensures
        ns < 0x20_0000_0000_0000 ==> -500 <= 1000 * shown_thousandths(ns) - ns <= 500,
        -4000 <= 1000 * shown_thousandths(ns) - ns <= 4000,
{
    let n = as_double(ns);
    doubles_are_near(ns);
    if n == 0 {
        vstd::arithmetic::power2::lemma2_to64();
        assert(doublings(n) == 0);
        assert(millionth(n) == 0);
    } else {
        let k = doublings(n);
        let scale = pow2(k);
        doublings_reach(n);
        let m = millionth(n);
        let t = shown_thousandths(ns);
        nearest_is_near(n * scale, 1_000_000);
        nearest_is_near(m * 1000, scale);
        let up = 1000 * t - n;
        assert(2 * (up * scale) <= 1000 * scale + 1_000_000) by (nonlinear_arith)
            requires
                up == 1000 * t - n,
                2 * (t * scale - m * 1000) <= scale,
                2 * (m * 1_000_000 - n * scale) <= 1_000_000,
        ;
        assert(-(2 * (up * scale)) <= 1000 * scale + 1_000_000) by (nonlinear_arith)
            requires
                up == 1000 * t - n,
                2 * (m * 1000 - t * scale) <= scale,
                2 * (n * scale - m * 1_000_000) <= 1_000_000,
        ;
        assert(scale >= 240) by (nonlinear_arith)
            requires
                n * scale >= 0x10_0000_0000_0000 * 1_000_000,
                n <= 0x1_0000_0000_0000_0400,
        ;
        assert(-2600 <= up <= 2600) by (nonlinear_arith)
            requires
                2 * (up * scale) <= 1000 * scale + 1_000_000,
                -(2 * (up * scale)) <= 1000 * scale + 1_000_000,
                scale >= 240,
        ;
        if ns < 0x20_0000_0000_0000 {
            assert(scale > 500_000) by (nonlinear_arith)
                requires
                    n * scale >= 0x10_0000_0000_0000 * 1_000_000,
                    n < 0x20_0000_0000_0000,
            ;
            assert(-500 <= up <= 500) by (nonlinear_arith)
                requires
                    2 * (up * scale) <= 1000 * scale + 1_000_000,
                    -(2 * (up * scale)) <= 1000 * scale + 1_000_000,
                    scale > 500_000,
            ;
        }
    }
}

/// A text of letters, digits, `-`, `.`, `_` and `~` is its own part of a path.
pub proof fn unreserved_texts_stay_in_paths(s: Seq<char>)
    requires
        forall|i: int| 0 <= i < s.len() ==> is_path_char(#[trigger] s[i]) && s[i] != '%',
    ensures
        path_part(s) == s,
{
    assert(vstd::utf8::is_ascii_chars(s));
    vstd::utf8::is_ascii_chars_encode_utf8(s);
    let bytes = encode_utf8(s);
    assert forall|i: int| 0 <= i < bytes.len() implies is_unreserved(#[trigger] bytes[i]) by {
        assert(s[i] as u8 == bytes[i]);
        assert(is_path_char(s[i]));
    }
    unreserved_bytes_stay(bytes);
    assert(path_part(s) =~= s);
}

proof fn unreserved_bytes_stay(bytes: Seq<u8>)
    requires
        forall|i: int| 0 <= i < bytes.len() ==> is_unreserved(#[trigger] bytes[i]),
    ensures
        path_bytes(bytes) == Seq::new(bytes.len(), |i: int| bytes[i] as char),
    decreases bytes.len(),
{
    if bytes.len() > 0 {
        unreserved_bytes_stay(bytes.drop_last());
    }
    assert(path_bytes(bytes) =~= Seq::new(bytes.len(), |i: int| bytes[i] as char));
}

/// A code writes every byte as one character, which is not a percent sign, or as a whole escape,
/// and no two bytes alike.
spec fn tells_bytes(code: spec_fn(u8) -> Seq<char>) -> bool {
    &&& forall|b: u8|
        #![trigger code(b)]
        (code(b).len() == 1 && code(b)[0] != '%') || code(b) == escaped(b)
    &&& forall|a: u8, b: u8| #[trigger] code(a) == #[trigger] code(b) ==> a == b
}

proof fn escapes_differ(a: u8, b: u8)
    requires
        escaped(a) == escaped(b),
    ensures
        a == b,
{
    let m = a as nat;
    let n = b as nat;
    assert(escaped(a)[1] == escaped(b)[1]);
    assert(escaped(a)[2] == escaped(b)[2]);
    assert(hex_digit(m / 16) == hex_digit(n / 16));
    assert(hex_digit(m % 16) == hex_digit(n % 16));
    assert(m / 16 == n / 16);
    assert(m % 16 == n % 16);
}

proof fn escapes_are_whole(bytes: Seq<u8>, code: spec_fn(u8) -> Seq<char>)
    requires
        tells_bytes(code),
    ensures
        forall|i: int|
            0 <= i < encoded(bytes, code).len() && #[trigger] encoded(bytes, code)[i] == '%' ==> i
                + 2 < encoded(bytes, code).len(),
        encoded(bytes, code).len() == 0 ==> bytes.len() == 0,
    decreases bytes.len(),
{
    if bytes.len() > 0 {
        escapes_are_whole(bytes.drop_last(), code);
        let before = encoded(bytes.drop_last(), code);
        let last = code(bytes.last());
        let all = encoded(bytes, code);
        assert forall|i: int| 0 <= i < all.len() && #[trigger] all[i] == '%' implies i + 2
            < all.len() by {
            if i < before.len() {
                assert(before[i] == '%');
            } else {
                assert(all[i] == last[i - before.len()]);
            }
        }
    }
}

/// What bytes are written as by a code that tells them apart tells them.
proof fn encoded_bytes_differ(a: Seq<u8>, b: Seq<u8>, code: spec_fn(u8) -> Seq<char>)
    requires
        tells_bytes(code),
        encoded(a, code) == encoded(b, code),
    ensures
        a == b,
    decreases a.len(),
{
    escapes_are_whole(a, code);
    escapes_are_whole(b, code);
    if a.len() == 0 || b.len() == 0 {
        assert(a =~= b);
    } else {
        let whole = encoded(a, code);
        let x = encoded(a.drop_last(), code);
        let y = encoded(b.drop_last(), code);
        let p = code(a.last());
        let q = code(b.last());
        escapes_are_whole(a.drop_last(), code);
        escapes_are_whole(b.drop_last(), code);
        assert(whole == x + p);
        assert(whole == y + q);
        if p.len() != q.len() {
            if p.len() == 3 {
                assert(whole[whole.len() - 3] == p[0]);
                assert(y[y.len() - 2] == '%');
            } else {
                assert(whole[whole.len() - 3] == q[0]);
                assert(x[x.len() - 2] == '%');
            }
            assert(false);
        }
        assert(x =~= whole.take(x.len() as int));
        assert(y =~= whole.take(x.len() as int));
        assert(p =~= whole.skip(x.len() as int));
        assert(q =~= whole.skip(x.len() as int));
        encoded_bytes_differ(a.drop_last(), b.drop_last(), code);
        assert(a =~= a.drop_last().push(a.last()));
        assert(b =~= b.drop_last().push(b.last()));
    }
}

proof fn path_code_tells_bytes()
    ensures
        tells_bytes(path_code()),
{
    assert forall|a: u8, b: u8| #[trigger] path_code()(a) == #[trigger] path_code()(b) implies a
        == b by {
        assert(path_byte(a)[0] == path_byte(b)[0]);
        if !is_unreserved(a) && !is_unreserved(b) {
            escapes_differ(a, b);
        }
    }
}

proof fn form_code_tells_bytes()
    ensures
        tells_bytes(form_code()),
{
    assert forall|a: u8, b: u8| #[trigger] form_code()(a) == #[trigger] form_code()(b) implies a
        == b by {
        assert(form_byte(a)[0] == form_byte(b)[0]);
        if form_byte(a).len() == 3 && form_byte(b).len() == 3 {
            escapes_differ(a, b);
        }
    }
}

/// Two texts that differ are different parts of a path: no two challenges, jobs, users or
/// solutions share a path.
pub proof fn path_parts_differ(a: Seq<char>, b: Seq<char>)
    requires
        a != b,
    ensures
        path_part(a) != path_part(b),
{
    if path_part(a) == path_part(b) {
        path_code_tells_bytes();
        encoded_bytes_differ(encode_utf8(a), encode_utf8(b), path_code());
        vstd::utf8::encode_utf8_decode_utf8(a);
        vstd::utf8::encode_utf8_decode_utf8(b);
    }
}

proof fn text_less_is_strict(a: Seq<char>)
    ensures
        !text_less(a, a),
    decreases a.len(),
{
    if a.len() > 0 {
        text_less_is_strict(a.drop_first());
    }
}

/// In an object whose keys ascend, every member is found under its key.
pub proof fn members_are_found(members: Seq<(Seq<char>, JValue)>, i: int)
    requires
        keys_ascend(members),
        0 <= i < members.len(),
    ensures
        member_called(members, members[i].0) == Some(members[i].1),
    decreases members.len(),
{
    if i > 0 {
        assert(text_less(members[0].0, members[i].0));
        text_less_is_strict(members[i].0);
        let rest = members.drop_first();
        assert(keys_ascend(rest)) by {
            assert forall|j: int, k: int| 0 <= j < k < rest.len() implies text_less(
                (#[trigger] rest[j]).0,
                (#[trigger] rest[k]).0,
            ) by {
                assert(rest[j] == members[j + 1]);
                assert(rest[k] == members[k + 1]);
            }
        }
        assert(rest[i - 1] == members[i]);
        members_are_found(rest, i - 1);
    }
}

/// What is found in a well-formed document is well formed.
pub proof fn found_values_are_well_formed(v: JValue, key: Seq<char>)
    requires
        v.wf(),
    ensures
        v.get(key) matches Some(found) ==> found.wf(),
{
    if v is Object {
        found_member_is_well_formed(v->Object_0, key);
    }
}

proof fn found_member_is_well_formed(members: Seq<(Seq<char>, JValue)>, key: Seq<char>)
    requires
        forall|i: int| 0 <= i < members.len() ==> (#[trigger] members[i]).1.wf(),
    ensures
        member_called(members, key) matches Some(found) ==> found.wf(),
    decreases members.len(),
{
    if members.len() > 0 && members[0].0 != key {
        let rest = members.drop_first();
        assert forall|i: int| 0 <= i < rest.len() implies (#[trigger] rest[i]).1.wf() by {
            assert(rest[i] == members[i + 1]);
        }
        found_member_is_well_formed(rest, key);
    }
}

/// Between two questions about a login goes by at least a second, and five seconds more where
/// the server asks to slow down without saying how far.
pub proof fn logins_are_asked_for_in_seconds(interval: u64, poll: AuthPollResponse)
    requires
        interval >= 1,
    ensures
        next_interval(interval, poll) >= 1,
        poll.status@ == "slow_down"@ && poll.interval is None ==> next_interval(interval, poll)
            == interval + 5,
        poll.interval matches Some(n) ==> (n >= 1 ==> next_interval(interval, poll) == n),
{
}

proof fn four_members_are_found(
    a: (Seq<char>, JValue),
    b: (Seq<char>, JValue),
    c: (Seq<char>, JValue),
    d: (Seq<char>, JValue),
)
    ensures
        member_called(seq![a, b, c, d], a.0) == Some(a.1),
        a.0 != b.0 ==> member_called(seq![a, b, c, d], b.0) == Some(b.1),
        a.0 != c.0 && b.0 != c.0 ==> member_called(seq![a, b, c, d], c.0) == Some(c.1),
        a.0 != d.0 && b.0 != d.0 && c.0 != d.0 ==> member_called(seq![a, b, c, d], d.0) == Some(
            d.1,
        ),
{
    reveal_with_fuel(member_called, 5);
    let all = seq![a, b, c, d];
    assert(all.drop_first() =~= seq![b, c, d]);
    assert(all.drop_first().drop_first() =~= seq![c, d]);
    assert(all.drop_first().drop_first().drop_first() =~= seq![d]);
}

/// A configuration that is read from its file as it was kept is loaded as it was, with the token
/// that was kept last, or with none where that was forgotten.
pub proof fn kept_tokens_are_loaded<P, E>(kept: ConfigStore<P>, r: Result<ConfigStore<P>, E>)
    requires
        loads(kept.path, ConfigFile::Read(kept.config), r),
    ensures
        r matches Ok(store) && store.path == kept.path && string_view(store.config.token)
            == string_view(kept.config.token),
{
}

/// A token that was stored is told neither in words nor as JSON; one that was not stored is told.
pub proof fn stored_tokens_are_not_told(token: Seq<char>, other: Seq<char>, user: Option<JValue>)
    ensures
        login_value(false, token, user) == login_value(false, other, user),
        auth_login_text(login_value(false, token, user)) == "Authenticated\n"@ + user_line(
            user_or_null(user),
        ) + "Token stored locally\n"@,
        auth_login_text(login_value(true, token, user)) == "Authenticated\n"@ + user_line(
            user_or_null(user),
        ) + line("Token: "@, token),
{
    reveal_strlit("authenticated");
    reveal_strlit("stored");
    reveal_strlit("token");
    reveal_strlit("user");
    assert("authenticated"@.len() == 13);
    assert("stored"@.len() == 6);
    assert("token"@.len() == 5);
    assert("user"@.len() == 4);
    let u = user_or_null(user);
    let yes = ("authenticated"@, JValue::Bool(true));
    let stored = ("stored"@, JValue::Bool(true));
    let unstored = ("stored"@, JValue::Bool(false));
    let hidden = ("token"@, JValue::Null);
    let told = ("token"@, JValue::Text(token));
    let who = ("user"@, u);
    four_members_are_found(yes, stored, hidden, who);
    four_members_are_found(yes, unstored, told, who);
    let v = login_value(false, token, user);
    assert(v->Object_0 =~= seq![yes, stored, hidden, who]);
    assert(v.get("user"@) == Some(u));
    assert(v.truth_at("stored"@) == Some(true));
    let w = login_value(true, token, user);
    assert(w->Object_0 =~= seq![yes, unstored, told, who]);
    assert(w.get("user"@) == Some(u));
    assert(w.truth_at("stored"@) == Some(false));
    assert(w.text_at("token"@) == Some(token));
}

/// The user that a login is for, null where it is not said.
pub open spec fn user_or_null(user: Option<JValue>) -> JValue {
    match user {
        Some(u) => u,
        None => JValue::Null,
    }
}

/// Nothing is shown of the source and the compiler options of a solution whose source is hidden:
/// two that are otherwise alike are shown alike.
pub proof fn hidden_sources_are_not_shown(v: JValue, other: JValue)
    requires
        !v.flag("source_visible"@),
        forall|key: Seq<char>|
            key != "source"@ && key != "compiler_options"@ ==> #[trigger] v.get(key) == other.get(
                key,
            ),
    ensures
        solution_text(v) == solution_text(other),
{
    reveal_strlit("source");
    reveal_strlit("compiler_options");
    reveal_strlit("source_visible");
    reveal_strlit("id");
    reveal_strlit("challenge_id");
    reveal_strlit("user_display_name");
    reveal_strlit("user_id");
    reveal_strlit("agent");
    reveal_strlit("language");
    reveal_strlit("is_public");
    reveal_strlit("jobs_url");
    assert("source"@.len() == 6);
    assert("compiler_options"@.len() == 16);
    assert("source_visible"@.len() == 14);
    assert("id"@.len() == 2);
    assert("challenge_id"@.len() == 12);
    assert("user_display_name"@.len() == 17);
    assert("user_id"@.len() == 7);
    assert("agent"@.len() == 5);
    assert("language"@.len() == 8);
    assert("is_public"@.len() == 9);
    assert("jobs_url"@.len() == 8);
    assert(v.get("source_visible"@) == other.get("source_visible"@));
    assert(v.get("id"@) == other.get("id"@));
    assert(v.get("challenge_id"@) == other.get("challenge_id"@));
    assert(v.get("user_display_name"@) == other.get("user_display_name"@));
    assert(v.get("user_id"@) == other.get("user_id"@));
    assert(v.get("agent"@) == other.get("agent"@));
    assert(v.get("language"@) == other.get("language"@));
    assert(v.get("is_public"@) == other.get("is_public"@));
    assert(v.get("jobs_url"@) == other.get("jobs_url"@));
}

/// What the client tells of a submission whose jobs have finished is never found wanting, and
/// shows the submission and all of its finished jobs.
pub proof fn finished_submissions_are_told(submission: JValue, finished: Seq<JValue>)
    ensures
        flaw(Report::SubmissionWithJobs, wait_value(submission, finished)) is None,
        words(Report::SubmissionWithJobs, wait_value(submission, finished)) == submission_text(
            submission,
        ) + "\nFinished jobs:\n"@ + job_rows_text(finished),
{
    reveal_strlit("jobs");
    reveal_strlit("submission");
    assert("jobs"@.len() == 4);
    assert("submission"@.len() == 10);
    reveal_with_fuel(member_called, 3);
    let members = wait_value(submission, finished)->Object_0;
    assert(members.drop_first() =~= seq![("submission"@, submission)]);
}

/// Every name that an agent can have is its own part of a path and its own safe file name, and
/// has at most 64 characters.
pub proof fn agent_names_stay_as_they_are(name: Seq<char>)
    requires
        is_agent_name(name),
    ensures
        name.len() <= 64,
        path_part(name) == name,
        safe_name(name) == name,
{
    assert(vstd::utf8::is_ascii_chars(name)) by {
        assert forall|i: int| 0 <= i < name.len() implies '\0' <= #[trigger] name[i] <= '\u{7f}' by {
            assert(is_safe(name[i]));
        }
    }
    vstd::utf8::is_ascii_chars_encode_utf8(name);
    assert forall|i: int| 0 <= i < name.len() implies is_path_char(#[trigger] name[i]) && name[i]
        != '%' by {
        assert(is_safe(name[i]));
    }
    unreserved_texts_stay_in_paths(name);
    assert(safe_name(name) =~= name) by {
        assert forall|i: int| 0 <= i < name.len() implies #[trigger] safe_name(name)[i]
            == name[i] by {
            assert(is_safe(name[i]));
        }
    }
}

/// Every heading and every cell of a table fits into its column, and no column is wider than the
/// longest of them.
pub proof fn columns_fit(headings: Seq<Seq<char>>, rows: Seq<Seq<Seq<char>>>, c: int)
    requires
        0 <= c < headings.len(),
    ensures
        ({
            let width = column_widths(headings, rows)[c];
            &&& byte_len(headings[c]) <= width
            &&& forall|i: int|
                0 <= i < rows.len() && c < (#[trigger] rows[i]).len() ==> byte_len(rows[i][c])
                    <= width
            &&& width == byte_len(headings[c]) || exists|i: int|
                0 <= i < rows.len() && c < (#[trigger] rows[i]).len() && byte_len(rows[i][c])
                    == width
        }),
{
    column_fits(headings[c], rows, c);
}

proof fn column_fits(heading: Seq<char>, rows: Seq<Seq<Seq<char>>>, c: int)
    ensures
        byte_len(heading) <= column_width(heading, rows, c),
        forall|i: int|
            0 <= i < rows.len() && c < (#[trigger] rows[i]).len() ==> byte_len(rows[i][c])
                <= column_width(heading, rows, c),
        column_width(heading, rows, c) == byte_len(heading) || exists|i: int|
            0 <= i < rows.len() && c < (#[trigger] rows[i]).len() && byte_len(rows[i][c])
                == column_width(heading, rows, c),
    decreases rows.len(),
{
    if rows.len() > 0 {
        let front = rows.drop_last();
        column_fits(heading, front, c);
        let width = column_width(heading, rows, c);
        assert forall|i: int| 0 <= i < rows.len() && c < (#[trigger] rows[i]).len() implies byte_len(
            rows[i][c],
        ) <= width by {
            if i < front.len() {
                assert(rows[i] == front[i]);
            }
        }
        if width == column_width(heading, front, c) {
            if width != byte_len(heading) {
                let i = choose|i: int|
                    0 <= i < front.len() && c < (#[trigger] front[i]).len() && byte_len(front[i][c])
                        == width;
                assert(rows[i] == front[i]);
            }
        } else {
            let i = rows.len() - 1;
            assert(rows[i] == rows.last());
        }
    }
}

/// How many characters the columns of a table take, with the spaces between them.
pub open spec fn table_width(widths: Seq<nat>) -> nat
    decreases widths.len(),
{
    if widths.len() == 0 {
        0
    } else if widths.len() == 1 {
        widths[0]
    } else {
        table_width(widths.drop_last()) + 2 + widths.last()
    }
}

proof fn joined_width(cells: Seq<Seq<char>>, widths: Seq<nat>)
    requires
        cells.len() == widths.len(),
        forall|i: int| 0 <= i < cells.len() ==> (#[trigger] cells[i]).len() == widths[i],
    ensures
        joined(cells, "  "@).len() == table_width(widths),
    decreases cells.len(),
{
    reveal_strlit("  ");
    if cells.len() > 1 {
        assert forall|i: int| 0 <= i < cells.drop_last().len() implies (
        #[trigger] cells.drop_last()[i]).len() == widths.drop_last()[i] by {
            assert(cells.drop_last()[i] == cells[i]);
        }
        joined_width(cells.drop_last(), widths.drop_last());
    }
}

proof fn padded_row_width(row: Seq<Seq<char>>, widths: Seq<nat>)
    requires
        forall|c: int| 0 <= c < widths.len() ==> (#[trigger] cell_at(row, c)).len() <= widths[c],
    ensures
        table_line(padded_cells(row, widths)).len() == table_width(widths) + 1,
{
    reveal_strlit("\n");
    let cells = padded_cells(row, widths);
    assert forall|i: int| 0 <= i < cells.len() implies (#[trigger] cells[i]).len()
        == widths[i] by {
        assert(cell_at(row, i).len() <= widths[i]);
    }
    joined_width(cells, widths);
}

proof fn bytes_outnumber_characters(s: Seq<char>)
    ensures
        s.len() <= byte_len(s),
    decreases s.len(),
{
    if s.len() > 0 {
        bytes_outnumber_characters(s.drop_first());
        vstd::utf8::char_is_scalar(s[0]);
    }
}

/// The columns of a table stand under each other: the line of the headings, the line of dashes
/// and the lines of all rows have equally many characters. A row that is too short has a dash in
/// the columns that it lacks, so none of them may be empty throughout.
pub proof fn tables_are_aligned(headings: Seq<Seq<char>>, rows: Seq<Seq<Seq<char>>>)
    requires
        forall|i: int, c: int|
            0 <= i < rows.len() && (#[trigger] rows[i]).len() <= c < headings.len() ==> (
            #[trigger] column_widths(headings, rows)[c]) >= 1,
    ensures
        ({
            let widths = column_widths(headings, rows);
            let length = table_width(widths) + 1;
            &&& table_line(padded_cells(headings, widths)).len() == length
            &&& table_line(dashes(widths)).len() == length
            &&& forall|i: int|
                0 <= i < rows.len() ==> table_line(
                    padded_cells(#[trigger] rows[i], widths),
                ).len() == length
        }),
{
    let widths = column_widths(headings, rows);
    assert forall|c: int| 0 <= c < widths.len() implies (#[trigger] cell_at(headings, c)).len()
        <= widths[c] by {
        columns_fit(headings, rows, c);
        bytes_outnumber_characters(headings[c]);
    }
    padded_row_width(headings, widths);
    reveal_strlit("\n");
    joined_width(dashes(widths), widths);
    assert forall|i: int| 0 <= i < rows.len() implies table_line(
        padded_cells(#[trigger] rows[i], widths),
    ).len() == table_width(widths) + 1 by {
        let row = rows[i];
        assert forall|c: int| 0 <= c < widths.len() implies (#[trigger] cell_at(row, c)).len()
            <= widths[c] by {
            columns_fit(headings, rows, c);
            if c < row.len() {
                bytes_outnumber_characters(row[c]);
                assert(byte_len(rows[i][c]) <= widths[c]);
            } else {
                reveal_strlit("-");
                assert(column_widths(headings, rows)[c] >= 1);
            }
        }
        padded_row_width(row, widths);
    }
}

/// The columns of the list of challenges stand under each other: a text under a key is filled up
/// to the width of its column, whichever challenge it is of, and no column is narrower than its
/// heading.
pub proof fn challenge_lists_are_aligned(
    challenges: Seq<JValue>,
    key: Seq<char>,
    least: nat,
    i: int,
)
    requires
        0 <= i < challenges.len(),
        least >= 1,
    ensures
        ({
            let width = field_width(challenges, key, least);
            &&& width >= least
            &&& padded(challenges[i].field(key), width).len() == width
        }),
    decreases challenges.len(),
{
    reveal_strlit("-");
    let front = challenges.drop_last();
    field_width_is_enough(front, key, least);
    if i < front.len() {
        challenge_lists_are_aligned(front, key, least, i);
        assert(front[i] == challenges[i]);
        field_is_no_longer(challenges[i], key, field_width(front, key, least));
    } else {
        match challenges[i].text_at(key) {
            Some(t) => {
                bytes_outnumber_characters(t);
            },
            None => {},
        }
    }
}

proof fn field_width_is_enough(items: Seq<JValue>, key: Seq<char>, least: nat)
    ensures
        field_width(items, key, least) >= least,
    decreases items.len(),
{
    if items.len() > 0 {
        field_width_is_enough(items.drop_last(), key, least);
    }
}

proof fn field_is_no_longer(item: JValue, key: Seq<char>, width: nat)
    requires
        padded(item.field(key), width).len() == width,
    ensures
        item.field(key).len() <= width,
{
}

/// Whatever a key or a value of a query holds, it neither ends the pair, nor the query: none of
/// the marks that do is left in it.
pub proof fn query_texts_hold_no_marks(s: Seq<char>)
    ensures
        ({
            let t = form_bytes(encode_utf8(s));
            !t.contains('&') && !t.contains('=') && !t.contains('#') && !t.contains('?')
        }),
{
    let ok = |c: char| c != '&' && c != '=' && c != '#' && c != '?';
    encoded_chars(encode_utf8(s), form_code(), ok);
    let t = form_bytes(encode_utf8(s));
    assert forall|i: int| 0 <= i < t.len() implies t[i] != '&' && t[i] != '=' && t[i] != '#'
        && t[i] != '?' by {
        assert(ok(encoded(encode_utf8(s), form_code())[i]));
    }
}

/// Where two texts with a mark between two parts are the same, and neither of the first parts
/// holds the mark, the parts are the same.
proof fn first_parts_agree(
    a: Seq<char>,
    b: Seq<char>,
    mark: char,
    rest_a: Seq<char>,
    rest_b: Seq<char>,
)
    requires
        a + seq![mark] + rest_a == b + seq![mark] + rest_b,
        !a.contains(mark),
        !b.contains(mark),
    ensures
        a == b,
        rest_a == rest_b,
{
    let whole = a + seq![mark] + rest_a;
    assert(whole[a.len() as int] == mark);
    assert(whole[b.len() as int] == mark);
    if a.len() < b.len() {
        assert(b[a.len() as int] == mark);
        assert(b.contains(b[a.len() as int]));
    }
    if b.len() < a.len() {
        assert(a[b.len() as int] == mark);
        assert(a.contains(a[b.len() as int]));
    }
    assert(a =~= whole.take(a.len() as int));
    assert(b =~= whole.take(a.len() as int));
    assert(rest_a =~= whole.skip(a.len() as int + 1));
    assert(rest_b =~= whole.skip(a.len() as int + 1));
}

/// Where two texts with a mark between two parts are the same, and neither of the last parts
/// holds the mark, the parts are the same.
proof fn last_parts_agree(
    front_a: Seq<char>,
    front_b: Seq<char>,
    mark: char,
    a: Seq<char>,
    b: Seq<char>,
)
    requires
        front_a + seq![mark] + a == front_b + seq![mark] + b,
        !a.contains(mark),
        !b.contains(mark),
    ensures
        a == b,
        front_a == front_b,
{
    let whole = front_a + seq![mark] + a;
    assert(whole[front_a.len() as int] == mark);
    let other = front_b + seq![mark] + b;
    assert(whole.len() == other.len());
    assert(other[front_b.len() as int] == mark);
    if a.len() < b.len() {
        assert(other[front_a.len() as int] == b[front_a.len() - front_b.len() - 1]);
        assert(b[front_a.len() - front_b.len() - 1] == mark);
        assert(b.contains(mark));
    }
    if b.len() < a.len() {
        assert(a[front_b.len() - front_a.len() - 1] == mark);
        assert(a.contains(mark));
    }
    assert(front_a =~= whole.take(front_a.len() as int));
    assert(front_b =~= whole.take(front_a.len() as int));
    assert(a =~= whole.skip(front_a.len() as int + 1));
    assert(b =~= whole.skip(front_a.len() as int + 1));
}

proof fn form_pairs_differ(a: (Seq<char>, Seq<char>), b: (Seq<char>, Seq<char>))
    requires
        form_pair(a) == form_pair(b),
    ensures
        a == b,
{
    query_texts_hold_no_marks(a.0);
    query_texts_hold_no_marks(b.0);
    first_parts_agree(
        form_bytes(encode_utf8(a.0)),
        form_bytes(encode_utf8(b.0)),
        '=',
        form_bytes(encode_utf8(a.1)),
        form_bytes(encode_utf8(b.1)),
    );
    form_code_tells_bytes();
    encoded_bytes_differ(encode_utf8(a.0), encode_utf8(b.0), form_code());
    encoded_bytes_differ(encode_utf8(a.1), encode_utf8(b.1), form_code());
    vstd::utf8::encode_utf8_decode_utf8(a.0);
    vstd::utf8::encode_utf8_decode_utf8(b.0);
    vstd::utf8::encode_utf8_decode_utf8(a.1);
    vstd::utf8::encode_utf8_decode_utf8(b.1);
}

proof fn form_pair_holds_no_ampersand(pair: (Seq<char>, Seq<char>))
    ensures
        !form_pair(pair).contains('&'),
{
    query_texts_hold_no_marks(pair.0);
    query_texts_hold_no_marks(pair.1);
    let key = form_bytes(encode_utf8(pair.0));
    let value = form_bytes(encode_utf8(pair.1));
    let text = form_pair(pair);
    assert forall|i: int| 0 <= i < text.len() implies text[i] != '&' by {
        if i < key.len() {
            assert(key.contains(key[i]));
        } else if i > key.len() {
            assert(value.contains(value[i - key.len() - 1]));
        }
    }
}

proof fn form_queries_agree(a: Seq<(Seq<char>, Seq<char>)>, b: Seq<(Seq<char>, Seq<char>)>)
    requires
        form_query(a) == form_query(b),
    ensures
        a == b,
    decreases a.len(),
{
    if a.len() == 0 || b.len() == 0 {
        if a.len() > 0 {
            assert(form_query(a).len() > 0);
        }
        if b.len() > 0 {
            assert(form_query(b).len() > 0);
        }
        assert(a =~= b);
    } else {
        form_pair_holds_no_ampersand(a.last());
        form_pair_holds_no_ampersand(b.last());
        let x = form_query(a.drop_last());
        let y = form_query(b.drop_last());
        if a.len() == 1 && b.len() == 1 {
            form_pairs_differ(a[0], b[0]);
        } else if a.len() == 1 {
            assert(form_query(b)[y.len() as int] == '&');
            assert(form_query(a).contains('&'));
        } else if b.len() == 1 {
            assert(form_query(a)[x.len() as int] == '&');
            assert(form_query(b).contains('&'));
        } else {
            last_parts_agree(x, y, '&', form_pair(a.last()), form_pair(b.last()));
            form_pairs_differ(a.last(), b.last());
            form_queries_agree(a.drop_last(), b.drop_last());
            assert(a =~= a.drop_last().push(a.last()));
            assert(b =~= b.drop_last().push(b.last()));
        }
        assert(a =~= b);
    }
}

/// Two queries that differ are written differently: what the server reads back can be nothing
/// but the pairs that were asked for.
pub proof fn queries_differ(a: Seq<(Seq<char>, Seq<char>)>, b: Seq<(Seq<char>, Seq<char>)>)
    requires
        a != b,
    ensures
        form_query(a) != form_query(b),
{
    if form_query(a) == form_query(b) {
        form_queries_agree(a, b);
    }
}

} // verus!
