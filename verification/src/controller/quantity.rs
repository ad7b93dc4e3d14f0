//! Resource quantities: byte counts with decimal and binary suffixes.
use vstd::arithmetic::power::pow;
use vstd::arithmetic::power2::pow2;
use vstd::prelude::*;

use crate::natural::Natural;
use crate::rounding::{scale, scaled};
use crate::text::{
    all_digits, chars, digits_value, is_digit, is_number, is_white, lemma_run_length, parse_u128,
    run_length, same, slice, trim, trimmed, trimmed_texts_stay, unsigned_value, without_plus,
};

verus! {

/// The characters a quantity's number may be made of.
pub open spec fn is_numeric(c: char) -> bool {
    is_digit(c) || c == '.' || c == '-' || c == '+'
}

/// What a suffix multiplies by: a base and a power of it.
pub open spec fn multiplier(suffix: Seq<char>) -> Option<(u32, u32)> {
    if suffix == "Ki"@ {
        Some((1024, 1))
    } else if suffix == "Mi"@ {
        Some((1024, 2))
    } else if suffix == "Gi"@ {
        Some((1024, 3))
    } else if suffix == "Ti"@ {
        Some((1024, 4))
    } else if suffix == "Pi"@ {
        Some((1024, 5))
    } else if suffix == "Ei"@ {
        Some((1024, 6))
    } else if suffix == "k"@ {
        Some((1000, 1))
    } else if suffix == "M"@ {
        Some((1000, 2))
    } else if suffix == "G"@ {
        Some((1000, 3))
    } else if suffix == "T"@ {
        Some((1000, 4))
    } else if suffix == "P"@ {
        Some((1000, 5))
    } else if suffix == "E"@ {
        Some((1000, 6))
    } else {
        None
    }
}

/// The text without one leading sign.
pub open spec fn unsigned_part(s: Seq<char>) -> Seq<char> {
    if s.len() > 0 && (s[0] == '+' || s[0] == '-') {
        s.skip(1)
    } else {
        s
    }
}

/// Where the decimal point of a number stands; its length if there is none.
pub open spec fn point(s: Seq<char>) -> nat {
    run_length(s, |c: char| c != '.')
}

/// The digits of a decimal number, without its point.
pub open spec fn digits_of(s: Seq<char>) -> Seq<char> {
    if point(s) < s.len() {
        s.take(point(s) as int) + s.skip(point(s) as int + 1)
    } else {
        s
    }
}

/// How many of a decimal number's digits stand behind its point.
pub open spec fn places(s: Seq<char>) -> nat {
    if point(s) < s.len() {
        (s.len() - point(s) - 1) as nat
    } else {
        0
    }
}

/// Is this a decimal number: at least one digit, and at most one point?
pub open spec fn is_decimal(s: Seq<char>) -> bool {
    digits_of(s).len() > 0 && all_digits(digits_of(s))
}

/// The bytes of a signed number with a multiplier. The arithmetic is that of
/// double precision: number and product are rounded to 53 binary digits, and
/// what is left is rounded down, to at most 128 bits. A negative number that
/// double precision can tell from zero has no bytes.
pub open spec fn bytes_of(number: Seq<char>, base: u32, power: u32) -> Option<nat> {
    let s = unsigned_part(number);
    if !is_decimal(s) {
        None
    } else {
        let p = digits_value(digits_of(s));
        let q = pow(10, places(s)) as nat;
        if number[0] == '-' && p * pow2(1075) > q {
            None
        } else {
            let n = scaled(p, q, pow(base as int, power as nat) as nat);
            if number[0] == '-' {
                Some(0)
            } else if n <= u128::MAX {
                Some(n)
            } else {
                Some(u128::MAX as nat)
            }
        }
    }
}

/// The bytes of a quantity with a suffix.
pub open spec fn suffixed_bytes(text: Seq<char>) -> Option<nat> {
    let s = trimmed(text);
    let n = run_length(s, |c: char| is_numeric(c));
    if n == 0 || n == s.len() {
        None
    } else {
        match multiplier(s.skip(n as int)) {
            Some((base, power)) => bytes_of(s.take(n as int), base, power),
            None => None,
        }
    }
}

/// The bytes of a quantity, or of a plain byte count.
pub open spec fn bytes_or_suffixed(text: Seq<char>) -> Option<nat> {
    match unsigned_value(trimmed(text), u128::MAX as nat) {
        Some(n) => Some(n),
        None => suffixed_bytes(text),
    }
}

fn suffix_multiplier(suffix: &str) -> (r: Option<(u32, u32)>)
    ensures
        r == multiplier(suffix@),
{
    if same(suffix, "Ki") {
        Some((1024, 1))
    } else if same(suffix, "Mi") {
        Some((1024, 2))
    } else if same(suffix, "Gi") {
        Some((1024, 3))
    } else if same(suffix, "Ti") {
        Some((1024, 4))
    } else if same(suffix, "Pi") {
        Some((1024, 5))
    } else if same(suffix, "Ei") {
        Some((1024, 6))
    } else if same(suffix, "k") {
        Some((1000, 1))
    } else if same(suffix, "M") {
        Some((1000, 2))
    } else if same(suffix, "G") {
        Some((1000, 3))
    } else if same(suffix, "T") {
        Some((1000, 4))
    } else if same(suffix, "P") {
        Some((1000, 5))
    } else if same(suffix, "E") {
        Some((1000, 6))
    } else {
        None
    }
}

/// No suffix multiplies by more than 2^60.
proof fn lemma_multiplier(suffix: Seq<char>)
    ensures
        multiplier(suffix) matches Some((base, power)) ==> base > 0 && 0 < pow(
            base as int,
            power as nat,
        ) <= pow2(60),
{
    vstd::arithmetic::power2::lemma2_to64();
    vstd::arithmetic::power2::lemma2_to64_rest();
    reveal_with_fuel(pow, 8);
}

/// The number that digits write, if they are all digits.
fn read_digits(v: &Vec<char>) -> (r: Option<Natural>)
    ensures
        r is Some == all_digits(v@),
        r matches Some(p) ==> p@ == digits_value(v@),
{
    let mut p = Natural::zero();
    assert(v@.take(0) =~= Seq::<char>::empty());
    for i in 0..v.len()
        invariant
            all_digits(v@.take(i as int)),
            p@ == digits_value(v@.take(i as int)),
    {
        let c = v[i];
        if c < '0' || c > '9' {
            assert(!is_digit(v@[i as int]));
            return None;
        }
        proof {
            let t = v@.take(i + 1);
            assert(t.drop_last() =~= v@.take(i as int));
            assert forall|j: int| 0 <= j < t.len() implies is_digit(#[trigger] t[j]) by {
                if j < i {
                    assert(is_digit(v@.take(i as int)[j]));
                }
            }
        }
        let d: u32 = c as u32 - '0' as u32;
        p = p.times_plus(10, d);
    }
    assert(v@.take(v@.len() as int) =~= v@);
    Some(p)
}

/// Ten to some power.
fn power_of_ten(n: usize) -> (r: Natural)
    ensures
        r@ == pow(10, n as nat),
        r@ > 0,
{
    let mut q = Natural::from_u64(1);
    proof {
        vstd::arithmetic::power::lemma_pow0(10);
    }
    for i in 0..n
        invariant
            q@ == pow(10, i as nat),
            q@ > 0,
    {
        proof {
            reveal(pow);
            assert(pow(10, (i + 1) as nat) == 10 * pow(10, i as nat));
        }
        q = q.times_plus(10, 0);
    }
    q
}

/// The parts of a decimal number: its digits as one number, and ten to the
/// number of those behind the point.
fn decimal_parts(v: &Vec<char>) -> (r: Option<(Natural, Natural)>)
    ensures
        r is Some == is_decimal(v@),
        r matches Some((p, q)) ==> {
            &&& p@ == digits_value(digits_of(v@))
            &&& q@ == pow(10, places(v@))
            &&& q@ > 0
        },
{
    let ghost no_point = |c: char| c != '.';
    let mut at: usize = 0;
    while at < v.len() && v[at] != '.'
        invariant
            at <= v@.len(),
            no_point == (|c: char| c != '.'),
            forall|i: int| 0 <= i < at ==> no_point(#[trigger] v@[i]),
        decreases v@.len() - at,
    {
        at += 1;
    }
    proof {
        lemma_run_length(v@, no_point, at as int);
    }
    let mut digits: Vec<char> = Vec::new();
    let mut behind: usize = 0;
    for i in 0..v.len()
        invariant
            at <= v@.len(),
            i <= at ==> digits@ == v@.take(i as int) && behind == 0,
            i > at ==> digits@ == v@.take(at as int) + v@.subrange(at + 1, i as int) && behind == i
                - at - 1,
    {
        if i != at {
            digits.push(v[i]);
            if i > at {
                behind += 1;
            }
        }
        proof {
            if i < at {
                assert(digits@ =~= v@.take(i + 1));
            } else {
                assert(digits@ =~= v@.take(at as int) + v@.subrange(at + 1, i + 1));
            }
        }
    }
    proof {
        if at < v@.len() {
            assert(v@.subrange(at + 1, v@.len() as int) =~= v@.skip(at + 1));
        } else {
            assert(v@.take(at as int) =~= v@);
        }
        assert(digits@ == digits_of(v@));
    }
    if digits.len() == 0 {
        return None;
    }
    match read_digits(&digits) {
        Some(p) => Some((p, power_of_ten(behind))),
        None => None,
    }
}

/// Parses a resource quantity into bytes (decimal and binary suffixes).
pub fn parse_quantity(q: &str) -> (r: Option<u128>)
    ensures
        r is Some == suffixed_bytes(q@) is Some,
        r matches Some(n) ==> suffixed_bytes(q@) == Some(n as nat),
{
    let text = trim(q);
    let v = chars(text.as_str());
    let ghost numeric = |c: char| is_numeric(c);
    let mut n: usize = 0;
    while n < v.len() && (('0' <= v[n] && v[n] <= '9') || v[n] == '.' || v[n] == '-' || v[n] == '+')
        invariant
            n <= v@.len(),
            numeric == (|c: char| is_numeric(c)),
            forall|i: int| 0 <= i < n ==> numeric(#[trigger] v@[i]),
        decreases v@.len() - n,
    {
        n += 1;
    }
    proof {
        lemma_run_length(v@, numeric, n as int);
    }
    if n == 0 || n == v.len() {
        return None;
    }
    let suffix = slice(&v, n, v.len());
    assert(suffix@ =~= v@.skip(n as int));
    proof {
        lemma_multiplier(suffix@);
    }
    let (base, power): (u32, u32) = match suffix_multiplier(suffix.as_str()) {
        Some(m) => m,
        None => return None,
    };
    let ghost number = v@.take(n as int);
    let negative = v[0] == '-';
    let from: usize = if negative || v[0] == '+' {
        1
    } else {
        0
    };
    let unsigned = chars(slice(&v, from, n).as_str());
    assert(unsigned@ =~= unsigned_part(number));
    match decimal_parts(&unsigned) {
        None => None,
        Some((p, q)) => {
            if negative {
                if q.less(&crate::rounding::shifted(&p, 1075)) {
                    None
                } else {
                    Some(0)
                }
            } else {
                Some(scale(&p, &q, base, power))
            }
        },
    }
}

/// Parses a quantity that may also be a plain byte count (no suffix).
pub fn parse_quantity_or_bytes(q: &str) -> (r: Option<u128>)
    ensures
        r is Some == bytes_or_suffixed(q@) is Some,
        r matches Some(n) ==> bytes_or_suffixed(q@) == Some(n as nat),
{
    match parse_u128(trim(q).as_str()) {
        Some(n) => Some(n),
        None => parse_quantity(q),
    }
}

/// A text of digits is neither trimmed nor rounded: it is that many bytes.
pub proof fn plain_numbers_are_bytes(text: Seq<char>)
    requires
        is_number(text),
        digits_value(text) <= u128::MAX,
    ensures
        bytes_or_suffixed(text) == Some(digits_value(text)),
{
    lemma_digits_are_not_trimmed(text);
}

/// Digits are no white space.
proof fn lemma_digits_are_not_trimmed(s: Seq<char>)
    requires
        s.len() > 0,
        is_digit(s[0]),
        !is_white(s.last()),
    ensures
        trimmed(s) == s,
{
}

/// What a suffix multiplies by: powers of 1024 with an `i`, of 1000 without.
pub open spec fn factor_of(suffix: Seq<char>, factor: nat) -> bool {
    ||| suffix == "Ki"@ && factor == 1_024
    ||| suffix == "Mi"@ && factor == 1_048_576
    ||| suffix == "Gi"@ && factor == 1_073_741_824
    ||| suffix == "Ti"@ && factor == 1_099_511_627_776
    ||| suffix == "Pi"@ && factor == 1_125_899_906_842_624
    ||| suffix == "Ei"@ && factor == 1_152_921_504_606_846_976
    ||| suffix == "k"@ && factor == 1_000
    ||| suffix == "M"@ && factor == 1_000_000
    ||| suffix == "G"@ && factor == 1_000_000_000
    ||| suffix == "T"@ && factor == 1_000_000_000_000
    ||| suffix == "P"@ && factor == 1_000_000_000_000_000
    ||| suffix == "E"@ && factor == 1_000_000_000_000_000_000
}

proof fn lemma_factor(suffix: Seq<char>, factor: nat)
    requires
        factor_of(suffix, factor),
    ensures
        multiplier(suffix) matches Some((base, power)) && pow(base as int, power as nat) == factor,
        0 < suffix.len() <= 2,
        !is_numeric(suffix[0]),
        !is_white(suffix.last()),
        factor > 0,
{
    reveal_with_fuel(pow, 8);
    reveal_strlit("Ki");
    reveal_strlit("Mi");
    reveal_strlit("Gi");
    reveal_strlit("Ti");
    reveal_strlit("Pi");
    reveal_strlit("Ei");
    reveal_strlit("k");
    reveal_strlit("M");
    reveal_strlit("G");
    reveal_strlit("T");
    reveal_strlit("P");
    reveal_strlit("E");
    assert("Ki"@.len() == 2 && "Ki"@[0] == 'K' && "Ki"@[1] == 'i');
    assert("Mi"@.len() == 2 && "Mi"@[0] == 'M' && "Mi"@[1] == 'i');
    assert("Gi"@.len() == 2 && "Gi"@[0] == 'G' && "Gi"@[1] == 'i');
    assert("Ti"@.len() == 2 && "Ti"@[0] == 'T' && "Ti"@[1] == 'i');
    assert("Pi"@.len() == 2 && "Pi"@[0] == 'P' && "Pi"@[1] == 'i');
    assert("Ei"@.len() == 2 && "Ei"@[0] == 'E' && "Ei"@[1] == 'i');
    assert("k"@.len() == 1 && "k"@[0] == 'k');
    assert("M"@.len() == 1 && "M"@[0] == 'M');
    assert("G"@.len() == 1 && "G"@[0] == 'G');
    assert("T"@.len() == 1 && "T"@[0] == 'T');
    assert("P"@.len() == 1 && "P"@[0] == 'P');
    assert("E"@.len() == 1 && "E"@[0] == 'E');
}

/// A whole number with a suffix is that many times what the suffix stands for,
/// exactly, up to the size from which doubles leave numbers out. A negative
/// number has no size, and one without a suffix is none of these.
pub proof fn suffixes_multiply(number: Seq<char>, suffix: Seq<char>, factor: nat)
    requires
        is_number(number),
        factor_of(suffix, factor),
    ensures
        digits_value(number) * factor <= pow2(53) ==> suffixed_bytes(number + suffix) == Some(
            digits_value(number) * factor,
        ) && bytes_or_suffixed(number + suffix) == Some(digits_value(number) * factor),
        digits_value(number) > 0 ==> suffixed_bytes(seq!['-'] + number + suffix) is None,
        suffixed_bytes(number) is None,
{
    lemma_factor(suffix, factor);
    let s = number + suffix;
    let p = |c: char| is_numeric(c);
    let n = number.len() as int;
    assert(is_digit(number[0]));
    assert(s[0] == number[0]);
    assert(s.last() == suffix.last());
    lemma_digits_are_not_trimmed(s);
    assert forall|i: int| 0 <= i < n implies p(#[trigger] s[i]) by {
        assert(s[i] == number[i]);
    }
    assert(s[n] == suffix[0]);
    lemma_run_length(s, p, n);
    assert(s.take(n) =~= number);
    assert(s.skip(n) =~= suffix);
    lemma_whole(number);
    let base = (multiplier(suffix)->0).0;
    let power = (multiplier(suffix)->0).1;
    let value = digits_value(number);
    vstd::arithmetic::power::lemma_pow0(10);
    if value * factor <= pow2(53) {
        crate::rounding::small_whole_numbers_scale_exactly(value, factor);
        lemma_two_to_the_53();
        assert(bytes_of(number, base, power) == Some(value * factor));
    }
    assert(without_plus(s) == s);
    assert(!is_digit(s[n]));
    // the negative number
    let minus = seq!['-'] + number;
    let t = minus + suffix;
    assert(t =~= seq!['-'] + number + suffix);
    assert(t[0] == '-');
    assert(trimmed(t) == t);
    assert forall|i: int| 0 <= i < n + 1 implies p(#[trigger] t[i]) by {
        if i > 0 {
            assert(t[i] == number[i - 1]);
        }
    }
    assert(t[n + 1] == suffix[0]);
    lemma_run_length(t, p, n + 1);
    assert(t.take(n + 1) =~= minus);
    assert(t.skip(n + 1) =~= suffix);
    assert(minus.skip(1) =~= number);
    if value > 0 {
        vstd::arithmetic::power2::lemma_pow2_adds(1, 1074);
        vstd::arithmetic::power2::lemma_pow2_pos(1074);
        vstd::arithmetic::power2::lemma2_to64();
        assert(value * pow2(1075) > 1) by (nonlinear_arith)
            requires
                value > 0,
                pow2(1075) == pow2(1) * pow2(1074),
                pow2(1) == 2,
                pow2(1074) > 0,
        ;
    }
    // the number alone
    lemma_digits_are_not_trimmed(number);
    assert forall|i: int| 0 <= i < n implies p(#[trigger] number[i]) by {}
    lemma_run_length(number, p, n);
}

proof fn lemma_two_to_the_53()
    ensures
        pow2(53) <= u128::MAX,
{
    vstd::arithmetic::power2::lemma2_to64();
    vstd::arithmetic::power2::lemma2_to64_rest();
}

/// A text of digits has no point, so all of it counts and nothing stands behind
/// it.
proof fn lemma_whole(number: Seq<char>)
    requires
        is_number(number),
    ensures
        unsigned_part(number) == number,
        digits_of(number) == number,
        places(number) == 0,
        is_decimal(number),
        number[0] != '-',
{
    let p = |c: char| c != '.';
    assert(is_digit(number[0]));
    assert forall|i: int| 0 <= i < number.len() implies p(#[trigger] number[i]) by {
        assert(is_digit(number[i]));
    }
    lemma_run_length(number, p, number.len() as int);
}

/// A point shifts the digits: what stands behind it counts in tenths, hundredths
/// and so on.
pub proof fn points_shift_the_digits(whole: Seq<char>, fraction: Seq<char>)
    requires
        all_digits(whole),
        all_digits(fraction),
    ensures
        digits_of(whole + seq!['.'] + fraction) == whole + fraction,
        places(whole + seq!['.'] + fraction) == fraction.len(),
        is_decimal(whole + seq!['.'] + fraction) <==> whole.len() + fraction.len() > 0,
{
    let s = whole + seq!['.'] + fraction;
    let p = |c: char| c != '.';
    let n = whole.len() as int;
    assert forall|i: int| 0 <= i < n implies p(#[trigger] s[i]) by {
        assert(s[i] == whole[i]);
        assert(is_digit(whole[i]));
    }
    assert(s[n] == '.');
    lemma_run_length(s, p, n);
    assert(s.take(n) =~= whole);
    assert(s.skip(n + 1) =~= fraction);
    let d = whole + fraction;
    assert forall|i: int| 0 <= i < d.len() implies is_digit(#[trigger] d[i]) by {
        if i < n {
            assert(d[i] == whole[i]);
        } else {
            assert(d[i] == fraction[i - n]);
        }
    }
}

/// A decimal with a suffix is the double nearest to it, times the suffix, rounded
/// to a double and cut off.
pub proof fn decimals_are_scaled(number: Seq<char>, base: u32, power: u32)
    requires
        is_decimal(number),
        is_digit(number[0]),
    ensures
        ({
            let n = scaled(
                digits_value(digits_of(number)),
                pow(10, places(number)) as nat,
                pow(base as int, power as nat) as nat,
            );
            bytes_of(number, base, power) == Some(
                if n <= u128::MAX {
                    n
                } else {
                    u128::MAX as nat
                },
            )
        }),
{
}

/// No other suffix is known.
pub proof fn other_suffixes_are_unknown(suffix: Seq<char>)
    ensures
        multiplier(suffix) matches Some((base, power)) ==> factor_of(
            suffix,
            pow(base as int, power as nat) as nat,
        ),
{
    reveal_with_fuel(pow, 8);
}

/// White space around a quantity does not count.
pub proof fn white_space_does_not_count(text: Seq<char>)
    ensures
        suffixed_bytes(trimmed(text)) == suffixed_bytes(text),
        bytes_or_suffixed(trimmed(text)) == bytes_or_suffixed(text),
{
    trimmed_texts_stay(text);
}

/// A plus before a number changes nothing; a minus leaves only zero.
pub proof fn quantities_may_have_a_sign(number: Seq<char>, suffix: Seq<char>, factor: nat)
    requires
        is_number(number),
        factor_of(suffix, factor),
    ensures
        suffixed_bytes(seq!['+'] + number + suffix) == suffixed_bytes(number + suffix),
        digits_value(number) == 0 ==> suffixed_bytes(seq!['-'] + number + suffix) == Some(0nat),
{
    lemma_factor(suffix, factor);
    lemma_whole(number);
    lemma_signed(number, suffix, factor, '+');
    lemma_signed(number, suffix, factor, '-');
    let s = number + suffix;
    let p = |c: char| is_numeric(c);
    let n = number.len() as int;
    assert(is_digit(number[0]));
    assert(s[0] == number[0]);
    assert(s.last() == suffix.last());
    lemma_digits_are_not_trimmed(s);
    assert forall|i: int| 0 <= i < n implies p(#[trigger] s[i]) by {
        assert(s[i] == number[i]);
    }
    assert(s[n] == suffix[0]);
    lemma_run_length(s, p, n);
    assert(s.take(n) =~= number);
    assert(s.skip(n) =~= suffix);
    let base = (multiplier(suffix)->0).0;
    let power = (multiplier(suffix)->0).1;
    let plus = seq!['+'] + number;
    let minus = seq!['-'] + number;
    assert(plus.skip(1) =~= number);
    assert(minus.skip(1) =~= number);
    assert(bytes_of(plus, base, power) == bytes_of(number, base, power));
    vstd::arithmetic::power::lemma_pow0(10);
    if digits_value(number) == 0 {
        assert(0 * pow2(1075) == 0) by (nonlinear_arith);
        assert(bytes_of(minus, base, power) == Some(0nat));
    }
}

proof fn lemma_signed(number: Seq<char>, suffix: Seq<char>, factor: nat, sign: char)
    requires
        is_number(number),
        factor_of(suffix, factor),
        sign == '+' || sign == '-',
    ensures
        suffixed_bytes(seq![sign] + number + suffix) == bytes_of(
            seq![sign] + number,
            (multiplier(suffix)->0).0,
            (multiplier(suffix)->0).1,
        ),
{
    lemma_factor(suffix, factor);
    let p = |c: char| is_numeric(c);
    let n = number.len() as int;
    let signed = seq![sign] + number;
    let t = signed + suffix;
    assert(t =~= seq![sign] + number + suffix);
    assert(t[0] == sign);
    assert(t.last() == suffix.last());
    assert(trimmed(t) == t);
    assert forall|i: int| 0 <= i < n + 1 implies p(#[trigger] t[i]) by {
        if i > 0 {
            assert(t[i] == number[i - 1]);
            assert(is_digit(number[i - 1]));
        }
    }
    assert(t[n + 1] == suffix[0]);
    lemma_run_length(t, p, n + 1);
    assert(t.take(n + 1) =~= signed);
    assert(t.skip(n + 1) =~= suffix);
}

} // verus!
