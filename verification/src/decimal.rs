//! Decimal text: whole numbers, and numbers with a fraction held as integers
//! scaled by a power of ten.

use crate::scan::{
    first_index, is_first, lemma_first_index, lemma_first_index_absent, lemma_first_index_found,
};
use vstd::arithmetic::overflow::CheckedU64;
use vstd::prelude::*;
use vstd::string::StringExecFns;

verus! {

/// Whether `c` is one of the ten decimal digits.
pub open spec fn is_digit(c: char) -> bool {
    0x30 <= c as u32 <= 0x39
}

/// The number that the digit `c` stands for.
pub open spec fn digit_of(c: char) -> nat {
    (c as u32 - 0x30) as nat
}

/// The digit that stands for `d`, a number below ten.
pub open spec fn digit_char(d: nat) -> char {
    if d == 0 {
        '0'
    } else if d == 1 {
        '1'
    } else if d == 2 {
        '2'
    } else if d == 3 {
        '3'
    } else if d == 4 {
        '4'
    } else if d == 5 {
        '5'
    } else if d == 6 {
        '6'
    } else if d == 7 {
        '7'
    } else if d == 8 {
        '8'
    } else {
        '9'
    }
}

/// Whether `s` holds nothing but digits.
pub open spec fn all_digits(s: Seq<char>) -> bool {
    forall|i: int| 0 <= i < s.len() ==> is_digit(#[trigger] s[i])
}

/// The number that a sequence of digits denotes in base ten; zero for none.
pub open spec fn digits_value(s: Seq<char>) -> nat
    decreases s.len(),
{
    if s.len() == 0 {
        0
    } else {
        digits_value(s.drop_last()) * 10 + digit_of(s.last())
    }
}

/// Ten to the `n`.
pub open spec fn pow10(n: nat) -> nat
    decreases n,
{
    if n == 0 {
        1
    } else {
        10 * pow10((n - 1) as nat)
    }
}

/// Whether `s` begins with a minus sign.
pub open spec fn has_minus(s: Seq<char>) -> bool {
    s.len() > 0 && s[0] == '-'
}

/// `s` without its sign, if it begins with one.
pub open spec fn unsigned_part(s: Seq<char>) -> Seq<char> {
    if s.len() > 0 && (s[0] == '-' || s[0] == '+') {
        s.drop_first()
    } else {
        s
    }
}

/// The value of `magnitude` under the sign that `s` begins with.
pub open spec fn signed(s: Seq<char>, magnitude: nat) -> int {
    if has_minus(s) {
        -(magnitude as int)
    } else {
        magnitude as int
    }
}

/// The whole number that `s` denotes: an optional sign, then one digit or
/// more. Anything else denotes none.
pub open spec fn integer_text(s: Seq<char>) -> Option<int> {
    let body = unsigned_part(s);
    if body.len() > 0 && all_digits(body) {
        Some(signed(s, digits_value(body)))
    } else {
        None
    }
}

/// Whether `c` is the decimal point.
pub open spec fn is_point(c: char) -> bool {
    c == '.'
}

/// The characters that are decimal points.
pub open spec fn points() -> spec_fn(char) -> bool {
    |c: char| is_point(c)
}

/// The digits of `body` before its first point; all of it where it has none.
pub open spec fn whole_part(body: Seq<char>) -> Seq<char> {
    match first_index(body, points()) {
        Some(i) => body.take(i),
        None => body,
    }
}

/// What follows the first point of `body`; nothing where it has none.
pub open spec fn fraction_part(body: Seq<char>) -> Seq<char> {
    match first_index(body, points()) {
        Some(i) => body.skip(i + 1),
        None => Seq::empty(),
    }
}

/// The first `places` digits of `fraction` as a number, with zeros standing
/// in for the digits that `fraction` lacks. Further digits do not count.
pub open spec fn fraction_value(fraction: Seq<char>, places: nat) -> nat {
    let counted = if fraction.len() < places { fraction.len() } else { places };
    digits_value(fraction.take(counted as int)) * pow10((places - counted) as nat)
}

/// The number that `s` denotes, in units of ten to the minus `places`: an
/// optional sign, digits, and optionally a point and more digits, with one
/// digit at least. Anything else denotes none.
pub open spec fn decimal_text(s: Seq<char>, places: nat) -> Option<int> {
    let body = unsigned_part(s);
    let whole = whole_part(body);
    let fraction = fraction_part(body);
    if all_digits(whole) && all_digits(fraction) && whole.len() + fraction.len() > 0 {
        Some(signed(s, digits_value(whole) * pow10(places) + fraction_value(fraction, places)))
    } else {
        None
    }
}

/// The digits of `n` in base ten, without leading zeros.
pub open spec fn natural_digits(n: nat) -> Seq<char>
    decreases n,
{
    if n < 10 {
        seq![digit_char(n)]
    } else {
        natural_digits(n / 10).push(digit_char(n % 10))
    }
}

/// The digits of `f`, a number below ten to the `places`, written in
/// `places` places without the zeros at the end.
pub open spec fn fraction_digits(f: nat, places: nat) -> Seq<char>
    decreases places,
{
    if f == 0 || places == 0 {
        Seq::empty()
    } else {
        let unit = pow10((places - 1) as nat);
        seq![digit_char(f / unit)] + fraction_digits(f % unit, (places - 1) as nat)
    }
}

/// How `v`, a number in units of ten to the minus `places`, is written: a
/// minus sign where it is negative, the whole part, and, where the fraction
/// is not zero, a point and the fraction's digits up to the last that is not
/// zero.
pub open spec fn decimal_digits(v: int, places: nat) -> Seq<char> {
    let magnitude = (if v < 0 { -v } else { v }) as nat;
    let whole = magnitude / pow10(places);
    let fraction = magnitude % pow10(places);
    let sign = if v < 0 { seq!['-'] } else { Seq::empty() };
    let tail = if fraction == 0 { Seq::empty() } else { seq!['.'] + fraction_digits(fraction, places) };
    sign + natural_digits(whole) + tail
}

/// The number that `c` stands for, where it is a digit.
fn digit(c: char) -> (r: Option<u64>)
    ensures
        r is Some <==> is_digit(c),
        r matches Some(d) ==> d == digit_of(c),
{
    let u: u32 = c as u32;
    if 0x30 <= u && u <= 0x39 {
        Some((u - 0x30) as u64)
    } else {
        None
    }
}

/// The number that the digits of `s` from `from` up to `to` denote, or
/// nothing where one of these characters is no digit.
fn digits(s: &[char], from: usize, to: usize) -> (r: Option<CheckedU64>)
    requires
        from <= to <= s.len(),
    ensures
        r is Some <==> all_digits(s@.subrange(from as int, to as int)),
        r matches Some(v) ==> v@ == digits_value(s@.subrange(from as int, to as int)),
{
    let mut acc = CheckedU64::new(0);
    let mut i: usize = from;
    while i < to
        invariant
            from <= i <= to <= s.len(),
            all_digits(s@.subrange(from as int, i as int)),
            acc@ == digits_value(s@.subrange(from as int, i as int)),
        decreases to - i,
    {
        match digit(s[i]) {
            None => {
                assert(s@.subrange(from as int, to as int)[i - from] == s@[i as int]);
                return None;
            },
            Some(d) => {
                acc = acc.mul_value(10).add_value(d);
            },
        }
        proof {
            let next = s@.subrange(from as int, i + 1);
            assert(next.drop_last() =~= s@.subrange(from as int, i as int));
            assert(next.last() == s@[i as int]);
            assert forall|k: int| 0 <= k < next.len() implies is_digit(#[trigger] next[k]) by {
                if k < i - from {
                    assert(next[k] == s@.subrange(from as int, i as int)[k]);
                }
            }
        }
        i += 1;
    }
    Some(acc)
}

/// Ten to the `n`, however large.
fn power_of_ten(n: u32) -> (r: CheckedU64)
    ensures
        r@ == pow10(n as nat),
{
    let mut r = CheckedU64::new(1);
    let mut i: u32 = 0;
    while i < n
        invariant
            i <= n,
            r@ == pow10(i as nat),
        decreases n - i,
    {
        r = r.mul_value(10);
        i += 1;
    }
    r
}

/// `magnitude` under a sign, where the result fits.
fn with_sign(negative: bool, magnitude: &CheckedU64) -> (r: Option<i64>)
    ensures
        match r {
            Some(v) => v == (if negative { -(magnitude@ as int) } else { magnitude@ as int }),
            None => if negative {
                -(magnitude@ as int) < i64::MIN
            } else {
                magnitude@ > i64::MAX
            },
        },
{
    match magnitude.to_option() {
        None => None,
        Some(m) => {
            if negative {
                if m == 0x8000_0000_0000_0000 {
                    Some(i64::MIN)
                } else if m < 0x8000_0000_0000_0000 {
                    Some(-(m as i64))
                } else {
                    None
                }
            } else if m <= 0x7fff_ffff_ffff_ffff {
                Some(m as i64)
            } else {
                None
            }
        },
    }
}

/// Where the unsigned part of `s` begins.
fn after_sign(s: &[char]) -> (from: usize)
    ensures
        from <= s.len(),
        s@.skip(from as int) == unsigned_part(s@),
{
    if s.len() > 0 && (s[0] == '-' || s[0] == '+') {
        assert(s@.skip(1) =~= s@.drop_first());
        1
    } else {
        assert(s@.skip(0) =~= s@);
        0
    }
}

/// Reads a whole number: an optional sign, then one digit or more. Gives
/// nothing for any other text, and for a number that an `i64` cannot hold.
pub fn parse_integer(s: &[char]) -> (r: Option<i64>)
    ensures
        r matches Some(v) ==> integer_text(s@) == Some(v as int),
        r is None ==> (integer_text(s@) matches Some(v) ==> !(i64::MIN <= v <= i64::MAX)),
{
    let n: usize = s.len();
    let from = after_sign(s);
    let negative = n > 0 && s[0] == '-';
    assert(s@.subrange(from as int, n as int) =~= s@.skip(from as int));
    if from == n {
        return None;
    }
    match digits(s, from, n) {
        None => None,
        Some(magnitude) => with_sign(negative, &magnitude),
    }
}

/// Where the first point of `s` at or after `from` stands; the length of
/// `s` where there is none.
fn find_point(s: &[char], from: usize) -> (dot: usize)
    requires
        from <= s.len(),
    ensures
        from <= dot <= s.len(),
        whole_part(s@.skip(from as int)) == s@.subrange(from as int, dot as int),
        dot < s.len() ==> fraction_part(s@.skip(from as int)) == s@.skip(dot + 1),
        dot == s.len() ==> fraction_part(s@.skip(from as int)) == Seq::<char>::empty(),
{
    let mut dot: usize = from;
    while dot < s.len() && s[dot] != '.'
        invariant
            from <= dot <= s.len(),
            forall|k: int| from <= k < dot ==> !is_point(s@[k]),
        decreases s.len() - dot,
    {
        dot += 1;
    }
    proof {
        let body = s@.skip(from as int);
        let p = points();
        if dot < s.len() {
            assert(is_first(body, p, dot - from));
            lemma_first_index_found(body, p, dot - from);
            assert(body.take(dot - from) =~= s@.subrange(from as int, dot as int));
            assert(body.skip(dot - from + 1) =~= s@.skip(dot + 1));
        } else {
            lemma_first_index_absent(body, p);
            assert(body =~= s@.subrange(from as int, dot as int));
        }
    }
    dot
}

/// The value of the fraction that begins at `start`, in `places` places; or
/// nothing where one of its characters is no digit.
fn read_fraction(s: &[char], start: usize, places: u32) -> (r: Option<CheckedU64>)
    requires
        start <= s.len(),
    ensures
        r is Some <==> all_digits(s@.skip(start as int)),
        r matches Some(v) ==> v@ == fraction_value(s@.skip(start as int), places as nat),
{
    let n: usize = s.len();
    let counted: usize = if n - start > places as usize {
        places as usize
    } else {
        n - start
    };
    let cut: usize = start + counted;
    let ghost fraction = s@.skip(start as int);
    let ghost head = s@.subrange(start as int, cut as int);
    let ghost rest = s@.subrange(cut as int, n as int);
    proof {
        assert(fraction =~= head + rest);
        assert(fraction.take(counted as int) =~= head);
        assert(all_digits(fraction) <==> all_digits(head) && all_digits(rest)) by {
            if all_digits(fraction) {
                assert forall|k: int| 0 <= k < head.len() implies is_digit(#[trigger] head[k]) by {
                    assert(head[k] == fraction[k]);
                }
                assert forall|k: int| 0 <= k < rest.len() implies is_digit(#[trigger] rest[k]) by {
                    assert(rest[k] == fraction[counted + k]);
                }
            }
            if all_digits(head) && all_digits(rest) {
                assert forall|k: int| 0 <= k < fraction.len() implies is_digit(
                    #[trigger] fraction[k],
                ) by {
                    if k < counted {
                        assert(fraction[k] == head[k]);
                    } else {
                        assert(fraction[k] == rest[k - counted]);
                    }
                }
            }
        }
    }
    let head_value = match digits(s, start, cut) {
        None => {
            return None;
        },
        Some(v) => v,
    };
    if digits(s, cut, n).is_none() {
        return None;
    }
    let padding: u32 = places - counted as u32;
    Some(head_value.mul_checked(&power_of_ten(padding)))
}

/// Reads a number in units of ten to the minus `places`: an optional sign,
/// digits, and optionally a point and more digits, with one digit at least.
/// Digits beyond the first `places` of the fraction do not count. Gives
/// nothing for any other text, and for a number that an `i64` cannot hold.
pub fn parse_decimal(s: &[char], places: u32) -> (r: Option<i64>)
    ensures
        r matches Some(v) ==> decimal_text(s@, places as nat) == Some(v as int),
        r is None ==> (decimal_text(s@, places as nat) matches Some(v) ==> !(i64::MIN <= v
            <= i64::MAX)),
{
    let n: usize = s.len();
    let from = after_sign(s);
    let negative = n > 0 && s[0] == '-';
    let dot = find_point(s, from);
    let start: usize = if dot < n {
        dot + 1
    } else {
        n
    };
    assert(s@.skip(start as int) =~= fraction_part(unsigned_part(s@)));
    let whole_value = match digits(s, from, dot) {
        None => {
            return None;
        },
        Some(v) => v,
    };
    let fraction_value = match read_fraction(s, start, places) {
        None => {
            return None;
        },
        Some(v) => v,
    };
    if dot - from + (n - start) == 0 {
        return None;
    }
    let magnitude = whole_value.mul_checked(&power_of_ten(places)).add_checked(&fraction_value);
    with_sign(negative, &magnitude)
}

/// The powers of ten are positive and grow.
proof fn lemma_pow10_increases(i: nat, j: nat)
    requires
        i <= j,
    ensures
        0 < pow10(i) <= pow10(j),
    decreases j,
{
    if j > 0 {
        if i < j {
            lemma_pow10_increases(i, (j - 1) as nat);
        } else {
            lemma_pow10_increases((i - 1) as nat, (j - 1) as nat);
        }
    }
}

/// Ten to the `places`, for as many places as a `u64` has room for.
fn scale_of(places: u32) -> (r: u64)
    requires
        places <= 19,
    ensures
        r == pow10(places as nat),
{
    let mut r: u64 = 1;
    let mut i: u32 = 0;
    while i < places
        invariant
            i <= places <= 19,
            r == pow10(i as nat),
        decreases places - i,
    {
        proof {
            lemma_pow10_increases((i + 1) as nat, 19);
            assert(pow10(19) == 10_000_000_000_000_000_000) by {
                reveal_with_fuel(pow10, 20);
            }
        }
        r = r * 10;
        i += 1;
    }
    r
}

/// The digit that stands for `d`, as text.
fn digit_str(d: u64) -> (s: &'static str)
    requires
        d < 10,
    ensures
        s@ == seq![digit_char(d as nat)],
{
    proof {
        reveal_strlit("0");
        reveal_strlit("1");
        reveal_strlit("2");
        reveal_strlit("3");
        reveal_strlit("4");
        reveal_strlit("5");
        reveal_strlit("6");
        reveal_strlit("7");
        reveal_strlit("8");
        reveal_strlit("9");
    }
    let s = if d == 0 {
        "0"
    } else if d == 1 {
        "1"
    } else if d == 2 {
        "2"
    } else if d == 3 {
        "3"
    } else if d == 4 {
        "4"
    } else if d == 5 {
        "5"
    } else if d == 6 {
        "6"
    } else if d == 7 {
        "7"
    } else if d == 8 {
        "8"
    } else {
        "9"
    };
    assert(s@ =~= seq![digit_char(d as nat)]);
    s
}

/// Appends the digits of `n` to `out`.
pub fn push_natural(out: &mut String, n: u64)
    ensures
        final(out)@ == old(out)@ + natural_digits(n as nat),
    decreases n,
{
    if n >= 10 {
        push_natural(out, n / 10);
    }
    out.append(digit_str(n % 10));
    proof {
        if n >= 10 {
            assert(old(out)@ + natural_digits((n / 10) as nat) + seq![digit_char((n % 10) as nat)]
                =~= old(out)@ + natural_digits((n / 10) as nat).push(digit_char((n % 10) as nat)));
        }
    }
}

/// A fraction that is not zero begins with its digit of the first place, and
/// goes on with what its other places hold.
proof fn lemma_fraction_digits_step(f: nat, places: nat)
    requires
        f != 0,
        places > 0,
    ensures
        fraction_digits(f, places) == seq![digit_char(f / pow10((places - 1) as nat))]
            + fraction_digits(f % pow10((places - 1) as nat), (places - 1) as nat),
{
    lemma_pow10_increases(0, (places - 1) as nat);
}

/// The digit that `rest` has in the place of `unit`, and what `rest` holds
/// in the places below.
fn split_digit(rest: u64, unit: u64) -> (r: (u64, u64))
    requires
        unit > 0,
        rest < 10 * unit,
    ensures
        r.0 == rest as nat / unit as nat,
        r.1 == rest as nat % unit as nat,
        r.0 < 10,
        r.1 < unit,
{
    let d: u64 = rest / unit;
    let below: u64 = rest % unit;
    assert(d < 10 && below < unit) by (nonlinear_arith)
        requires
            unit > 0,
            rest < 10 * unit,
            d == rest / unit,
            below == rest % unit,
    ;
    (d, below)
}

/// Appends the digits of the fraction `f` to `out`, up to the last that is
/// not zero.
fn push_fraction(out: &mut String, f: u64, places: u32)
    requires
        places <= 19,
        f < pow10(places as nat),
    ensures
        final(out)@ == old(out)@ + fraction_digits(f as nat, places as nat),
{
    let mut rest: u64 = f;
    let mut left: u32 = places;
    let mut unit: u64 = scale_of(places);
    while rest != 0
        invariant
            left <= 19,
            unit == pow10(left as nat),
            rest < unit,
            out@ + fraction_digits(rest as nat, left as nat) == old(out)@ + fraction_digits(
                f as nat,
                places as nat,
            ),
        decreases left,
    {
        let ghost before = out@;
        let ghost tail = fraction_digits(rest as nat, left as nat);
        assert(left > 0);
        assert(unit == 10 * pow10((left - 1) as nat));
        let lower: u64 = unit / 10;
        let (d, below) = split_digit(rest, lower);
        proof {
            lemma_fraction_digits_step(rest as nat, left as nat);
            assert(tail == seq![digit_char(d as nat)] + fraction_digits(
                below as nat,
                (left - 1) as nat,
            ));
        }
        out.append(digit_str(d));
        assert(out@ + fraction_digits(below as nat, (left - 1) as nat) =~= before + tail);
        rest = below;
        unit = lower;
        left -= 1;
    }
}

/// Appends to `out` the number `v`, which is in units of ten to the minus
/// `places`.
pub fn push_decimal(out: &mut String, v: i64, places: u32)
    requires
        places <= 19,
    ensures
        final(out)@ == old(out)@ + decimal_digits(v as int, places as nat),
{
    let magnitude: u64 = if v == i64::MIN {
        0x8000_0000_0000_0000
    } else if v < 0 {
        (-v) as u64
    } else {
        v as u64
    };
    let scale = scale_of(places);
    proof {
        lemma_pow10_increases(0, places as nat);
        reveal_strlit("-");
        reveal_strlit(".");
    }
    let whole: u64 = magnitude / scale;
    let fraction: u64 = magnitude % scale;
    if v < 0 {
        out.append("-");
    }
    let ghost signed_out = out@;
    push_natural(out, whole);
    if fraction != 0 {
        out.append(".");
        push_fraction(out, fraction, places);
    }
    proof {
        let sign = if v < 0 { seq!['-'] } else { Seq::<char>::empty() };
        assert(signed_out =~= old(out)@ + sign);
        let tail = if fraction == 0 {
            Seq::<char>::empty()
        } else {
            seq!['.'] + fraction_digits(fraction as nat, places as nat)
        };
        assert(out@ =~= old(out)@ + (sign + natural_digits(whole as nat) + tail));
    }
}

/// Powers of ten multiply by adding their exponents.
proof fn lemma_pow10_adds(a: nat, b: nat)
    ensures
        pow10(a) * pow10(b) == pow10(a + b),
    decreases a,
{
    if a == 0 {
        assert(pow10(0) == 1);
        assert(a + b == b);
    } else {
        lemma_pow10_adds((a - 1) as nat, b);
        let less = pow10((a - 1) as nat);
        assert(pow10(a) == 10 * less);
        assert(pow10(a + b) == 10 * pow10((a + b - 1) as nat));
        assert(((a - 1) as nat) + b == (a + b - 1) as nat);
        assert((10 * less) * pow10(b) == 10 * (less * pow10(b))) by (nonlinear_arith);
    }
}

/// A digit in front counts for as many tens as digits follow it.
proof fn lemma_digits_value_prepend(c: char, s: Seq<char>)
    ensures
        digits_value(seq![c] + s) == digit_of(c) * pow10(s.len()) + digits_value(s),
    decreases s.len(),
{
    let all = seq![c] + s;
    if s.len() == 0 {
        assert(all.drop_last() =~= Seq::<char>::empty());
        assert(digits_value(all.drop_last()) == 0);
        assert(all.last() == c);
        assert(digits_value(all) == digit_of(c));
        assert(pow10(0) == 1);
        assert(digits_value(s) == 0);
    } else {
        let front = s.drop_last();
        assert(all.drop_last() =~= seq![c] + front);
        lemma_digits_value_prepend(c, front);
        assert(all.last() == s.last());
        let x = digit_of(c);
        let p = pow10(front.len());
        let y = digits_value(front);
        assert(pow10(s.len()) == 10 * p);
        assert(digits_value(all) == (x * p + y) * 10 + digit_of(s.last()));
        assert(digits_value(s) == y * 10 + digit_of(s.last()));
        assert((x * p + y) * 10 == x * (10 * p) + y * 10) by (nonlinear_arith);
    }
}

/// The digits of a number denote it.
proof fn lemma_natural_digits(n: nat)
    ensures
        natural_digits(n).len() > 0,
        all_digits(natural_digits(n)),
        digits_value(natural_digits(n)) == n,
    decreases n,
{
    let s = natural_digits(n);
    if n < 10 {
        assert(s.drop_last() =~= Seq::<char>::empty());
        assert(digits_value(s.drop_last()) == 0);
    } else {
        lemma_natural_digits(n / 10);
        assert(s.drop_last() =~= natural_digits(n / 10));
    }
}

/// The digits of a fraction denote it, in no more places than it has.
proof fn lemma_fraction_digits(f: nat, places: nat)
    requires
        f < pow10(places),
    ensures
        fraction_digits(f, places).len() <= places,
        all_digits(fraction_digits(f, places)),
        fraction_value(fraction_digits(f, places), places) == f,
    decreases places,
{
    let digits = fraction_digits(f, places);
    if f == 0 || places == 0 {
        assert(digits.take(0) =~= digits);
        assert(0 * pow10(places) == 0);
    } else {
        let unit = pow10((places - 1) as nat);
        lemma_pow10_increases(0, (places - 1) as nat);
        let d = f / unit;
        let rest = f % unit;
        assert(d < 10 && f == d * unit + rest && rest < unit) by (nonlinear_arith)
            requires
                f < 10 * unit,
                unit > 0,
                d == f / unit,
                rest == f % unit,
        ;
        let tail = fraction_digits(rest, (places - 1) as nat);
        lemma_fraction_digits(rest, (places - 1) as nat);
        assert(tail.take(tail.len() as int) =~= tail);
        assert(digits.take(digits.len() as int) =~= digits);
        lemma_digits_value_prepend(digit_char(d), tail);
        let room = (places - 1 - tail.len()) as nat;
        lemma_pow10_adds(tail.len(), room);
        assert((d * pow10(tail.len()) + digits_value(tail)) * pow10(room) == d * (pow10(tail.len())
            * pow10(room)) + digits_value(tail) * pow10(room)) by (nonlinear_arith);
    }
}

/// What is written reads back as the same number.
pub proof fn lemma_written_reads_back(v: int, places: nat)
    ensures
        decimal_text(decimal_digits(v, places), places) == Some(v),
{
    let magnitude = (if v < 0 { -v } else { v }) as nat;
    let scale = pow10(places);
    lemma_pow10_increases(0, places);
    let whole = natural_digits(magnitude / scale);
    let fraction = fraction_digits(magnitude % scale, places);
    lemma_natural_digits(magnitude / scale);
    assert(magnitude % scale < scale && magnitude == (magnitude / scale) * scale + magnitude
        % scale) by (nonlinear_arith)
        requires
            scale > 0,
    ;
    lemma_fraction_digits(magnitude % scale, places);
    let text = decimal_digits(v, places);
    let body = unsigned_part(text);
    let tail = if magnitude % scale == 0 {
        Seq::<char>::empty()
    } else {
        seq!['.'] + fraction
    };
    if v < 0 {
        assert(text[0] == '-');
        assert(body =~= whole + tail);
    } else {
        assert(text[0] == whole[0]);
        assert(is_digit(whole[0]));
        assert(body =~= whole + tail);
    }
    let p = points();
    if magnitude % scale == 0 {
        assert(body =~= whole);
        lemma_first_index(body, p);
        if first_index(body, p) is Some {
            assert(is_digit(body[first_index(body, p)->0]));
        }
        assert(fraction_part(body).take(0) =~= fraction_part(body));
        assert(0 * pow10(places) == 0);
    } else {
        assert forall|j: int| 0 <= j < whole.len() implies !p(#[trigger] body[j]) by {
            assert(is_digit(whole[j]));
        }
        assert(is_first(body, p, whole.len() as int));
        lemma_first_index_found(body, p, whole.len() as int);
        assert(body.take(whole.len() as int) =~= whole);
        assert(body.skip(whole.len() as int + 1) =~= fraction);
    }
}

} // verus!
