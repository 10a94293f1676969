//! Decimal and hexadecimal integers in text: the exact grammar of Rust's
//! `from_str` / `from_str_radix` for the integer types, and the digit strings
//! that `format!` writes.
use vstd::prelude::*;
use crate::text::span_ok;
use crate::cpuinfo::ascii_lower;

verus! {

/// An ASCII decimal digit.
pub open spec fn is_digit(c: char) -> bool {
    '0' <= c && c <= '9'
}

/// Value of a decimal digit.
pub open spec fn digit_val(c: char) -> nat {
    (c as int - '0' as int) as nat
}

/// An ASCII hexadecimal digit, either case.
pub open spec fn is_hex_digit(c: char) -> bool {
    ('0' <= c && c <= '9') || ('a' <= c && c <= 'f') || ('A' <= c && c <= 'F')
}

/// Value of a hexadecimal digit.
pub open spec fn hex_digit_val(c: char) -> nat {
    if '0' <= c && c <= '9' {
        (c as int - '0' as int) as nat
    } else if 'a' <= c && c <= 'f' {
        (c as int - 'a' as int + 10) as nat
    } else {
        (c as int - 'A' as int + 10) as nat
    }
}

/// Every character satisfies the digit predicate of the radix.
pub open spec fn all_digits(s: Seq<char>, radix: nat) -> bool {
    forall|i: int| 0 <= i < s.len() ==> (if radix == 16 { is_hex_digit(s[i]) } else { is_digit(s[i]) })
}

/// Value of a digit in the given radix (10 or 16).
pub open spec fn radix_digit_val(c: char, radix: nat) -> nat {
    if radix == 16 { hex_digit_val(c) } else { digit_val(c) }
}

/// Value of a digit string, most significant digit first.
pub open spec fn digits_value(s: Seq<char>, radix: nat) -> nat
    decreases s.len(),
{
    if s.len() == 0 {
        0
    } else {
        digits_value(s.drop_last(), radix) * radix + radix_digit_val(s.last(), radix)
    }
}

/// The digits of an unsigned number: an optional leading `+` removed.
pub open spec fn unsigned_body(s: Seq<char>) -> Seq<char> {
    if s.len() > 0 && s[0] == '+' {
        s.drop_first()
    } else {
        s
    }
}

/// Rust's `from_str_radix` for an unsigned type whose largest value is `max`:
/// an optional `+`, then at least one digit, and a value no larger than `max`.
pub open spec fn parse_unsigned(s: Seq<char>, radix: nat, max: nat) -> Option<nat> {
    let d = unsigned_body(s);
    if d.len() > 0 && all_digits(d, radix) && digits_value(d, radix) <= max {
        Some(digits_value(d, radix))
    } else {
        None
    }
}

/// Rust's `from_str` for `i64`: an optional sign, then at least one digit,
/// and a value within the range of `i64`.
pub open spec fn parse_i64_seq(s: Seq<char>) -> Option<int> {
    if s.len() > 0 && s[0] == '-' {
        let d = s.drop_first();
        if d.len() > 0 && all_digits(d, 10) && digits_value(d, 10) <= 0x8000_0000_0000_0000 {
            Some(-(digits_value(d, 10) as int))
        } else {
            None
        }
    } else {
        match parse_unsigned(s, 10, 0x7fff_ffff_ffff_ffff) {
            Some(v) => Some(v as int),
            None => None,
        }
    }
}

/// Appending digits never lowers the value.
pub proof fn lemma_digits_value_monotone(s: Seq<char>, radix: nat, i: int)
    requires
        0 <= i <= s.len(),
        radix >= 1,
    ensures
        digits_value(s.take(i), radix) <= digits_value(s, radix),
    decreases s.len() - i,
{
    if i < s.len() {
        lemma_digits_value_monotone(s, radix, i + 1);
        assert(s.take(i + 1).drop_last() =~= s.take(i));
        let a = digits_value(s.take(i), radix);
        assert(a * radix >= a) by (nonlinear_arith)
            requires
                radix >= 1,
        ;
    } else {
        assert(s.take(i) =~= s);
    }
}

/// Value of the digits in a span, with `None` when some character is not a
/// digit of the radix or the value exceeds `u64::MAX`.
fn digits_span_u64(v: &Vec<char>, lo: usize, hi: usize, radix: u64) -> (r: Option<u64>)
    requires
        span_ok(v@, lo as int, hi as int),
        radix == 10 || radix == 16,
    ensures
        match r {
            Some(x) => all_digits(v@.subrange(lo as int, hi as int), radix as nat) && digits_value(
                v@.subrange(lo as int, hi as int),
                radix as nat,
            ) == x,
            None => !all_digits(v@.subrange(lo as int, hi as int), radix as nat) || digits_value(
                v@.subrange(lo as int, hi as int),
                radix as nat,
            ) > u64::MAX,
        },
{
    let ghost s = v@.subrange(lo as int, hi as int);
    let mut acc: u64 = 0;
    let mut i = lo;
    assert(s.take(0) =~= Seq::<char>::empty());
    while i < hi
        invariant
            lo <= i <= hi,
            hi <= v.len(),
            radix == 10 || radix == 16,
            s == v@.subrange(lo as int, hi as int),
            all_digits(s.take(i - lo), radix as nat),
            digits_value(s.take(i - lo), radix as nat) == acc,
        decreases hi - i,
    {
        let c = v[i];
        assert(s[i - lo] == c);
        let d: u64;
        if radix == 16 {
            if '0' <= c && c <= '9' {
                d = (c as u64) - ('0' as u64);
            } else if 'a' <= c && c <= 'f' {
                d = (c as u64) - ('a' as u64) + 10;
            } else if 'A' <= c && c <= 'F' {
                d = (c as u64) - ('A' as u64) + 10;
            } else {
                return None;
            }
        } else {
            if '0' <= c && c <= '9' {
                d = (c as u64) - ('0' as u64);
            } else {
                return None;
            }
        }
        assert(d == radix_digit_val(c, radix as nat));
        assert(s.take(i - lo + 1).drop_last() =~= s.take(i - lo));
        assert(s.take(i - lo + 1).last() == c);
        assert((acc as u128) * (radix as u128) <= 0xffff_ffff_ffff_ffffu128 * 16) by (nonlinear_arith)
            requires
                acc <= 0xffff_ffff_ffff_ffffu64,
                radix <= 16,
        ;
        let wide: u128 = (acc as u128) * (radix as u128) + (d as u128);
        if wide > u64::MAX as u128 {
            proof {
                lemma_digits_value_monotone(s, radix as nat, i - lo + 1);
            }
            return None;
        }
        acc = wide as u64;
        i = i + 1;
    }
    assert(s.take(hi - lo) =~= s);
    Some(acc)
}

/// Parses a span as an unsigned integer in radix 10 or 16 whose largest value
/// is `max`, as `from_str_radix` does.
pub fn parse_unsigned_span(v: &Vec<char>, lo: usize, hi: usize, radix: u64, max: u64) -> (r:
    Option<u64>)
    requires
        span_ok(v@, lo as int, hi as int),
        radix == 10 || radix == 16,
    ensures
        match r {
            Some(x) => parse_unsigned(v@.subrange(lo as int, hi as int), radix as nat, max as nat)
                == Some(x as nat),
            None => parse_unsigned(v@.subrange(lo as int, hi as int), radix as nat, max as nat)
                is None,
        },
{
    let ghost s = v@.subrange(lo as int, hi as int);
    let mut a = lo;
    if lo < hi && v[lo] == '+' {
        a = lo + 1;
        assert(s.drop_first() =~= v@.subrange(a as int, hi as int));
    } else {
        assert(s =~= v@.subrange(a as int, hi as int));
    }
    if a == hi {
        return None;
    }
    match digits_span_u64(v, a, hi, radix) {
        Some(x) => {
            if x <= max {
                Some(x)
            } else {
                None
            }
        },
        None => None,
    }
}

/// `str::parse::<u64>` on a span.
pub fn parse_u64_span(v: &Vec<char>, lo: usize, hi: usize) -> (r: Option<u64>)
    requires
        span_ok(v@, lo as int, hi as int),
    ensures
        match r {
            Some(x) => parse_unsigned(v@.subrange(lo as int, hi as int), 10, u64::MAX as nat)
                == Some(x as nat),
            None => parse_unsigned(v@.subrange(lo as int, hi as int), 10, u64::MAX as nat) is None,
        },
{
    parse_unsigned_span(v, lo, hi, 10, u64::MAX)
}

/// `str::parse::<u32>` on a span.
pub fn parse_u32_span(v: &Vec<char>, lo: usize, hi: usize) -> (r: Option<u32>)
    requires
        span_ok(v@, lo as int, hi as int),
    ensures
        match r {
            Some(x) => parse_unsigned(v@.subrange(lo as int, hi as int), 10, u32::MAX as nat)
                == Some(x as nat),
            None => parse_unsigned(v@.subrange(lo as int, hi as int), 10, u32::MAX as nat) is None,
        },
{
    match parse_unsigned_span(v, lo, hi, 10, u32::MAX as u64) {
        Some(x) => Some(x as u32),
        None => None,
    }
}

/// `u32::from_str_radix(.., 16)` on a span.
pub fn parse_hex_u32_span(v: &Vec<char>, lo: usize, hi: usize) -> (r: Option<u32>)
    requires
        span_ok(v@, lo as int, hi as int),
    ensures
        match r {
            Some(x) => parse_unsigned(v@.subrange(lo as int, hi as int), 16, u32::MAX as nat)
                == Some(x as nat),
            None => parse_unsigned(v@.subrange(lo as int, hi as int), 16, u32::MAX as nat) is None,
        },
{
    match parse_unsigned_span(v, lo, hi, 16, u32::MAX as u64) {
        Some(x) => Some(x as u32),
        None => None,
    }
}

/// `str::parse::<i64>` on a span.
pub fn parse_i64_span(v: &Vec<char>, lo: usize, hi: usize) -> (r: Option<i64>)
    requires
        span_ok(v@, lo as int, hi as int),
    ensures
        match r {
            Some(x) => parse_i64_seq(v@.subrange(lo as int, hi as int)) == Some(x as int),
            None => parse_i64_seq(v@.subrange(lo as int, hi as int)) is None,
        },
{
    let ghost s = v@.subrange(lo as int, hi as int);
    if lo < hi && v[lo] == '-' {
        assert(s.drop_first() =~= v@.subrange(lo + 1, hi as int));
        if lo + 1 == hi {
            return None;
        }
        match digits_span_u64(v, lo + 1, hi, 10) {
            Some(x) => {
                if x <= 0x8000_0000_0000_0000u64 {
                    if x == 0x8000_0000_0000_0000u64 {
                        Some(i64::MIN)
                    } else {
                        Some(-(x as i64))
                    }
                } else {
                    None
                }
            },
            None => None,
        }
    } else {
        match parse_unsigned_span(v, lo, hi, 10, 0x7fff_ffff_ffff_ffffu64) {
            Some(x) => Some(x as i64),
            None => None,
        }
    }
}

/// The character of a decimal or hexadecimal digit value (lower case).
pub open spec fn digit_char(d: nat) -> char {
    if d < 10 {
        (d + '0' as nat) as char
    } else {
        (d - 10 + 'a' as nat) as char
    }
}

/// The digits of `n` in the given radix without leading zeros, as `format!`
/// writes them with `{}` (radix 10) or `{:x}` (radix 16).
pub open spec fn radix_string(n: nat, radix: nat) -> Seq<char>
    recommends
        radix >= 2,
    decreases n,
{
    if radix < 2 || n < radix {
        seq![digit_char(n)]
    } else {
        proof {
            assert(n / radix < n) by (nonlinear_arith)
                requires
                    radix >= 2,
                    n >= radix,
            ;
        }
        radix_string(n / radix, radix).push(digit_char(n % radix))
    }
}

/// `s` padded on the left with `'0'` to at least `width` characters.
pub open spec fn zero_pad(s: Seq<char>, width: nat) -> Seq<char> {
    if s.len() >= width {
        s
    } else {
        Seq::new((width - s.len()) as nat, |i: int| '0') + s
    }
}

fn digit_to_char(d: u64) -> (c: char)
    requires
        d < 16,
    ensures
        c == digit_char(d as nat),
{
    if d < 10 {
        ((d as u8) + 48u8) as char
    } else {
        ((d as u8) + 87u8) as char
    }
}

/// Appends the digits of `n` in radix 10 or 16.
pub fn push_radix(out: &mut String, n: u64, radix: u64)
    requires
        radix == 10 || radix == 16,
    ensures
        final(out)@ == old(out)@ + radix_string(n as nat, radix as nat),
    decreases n,
{
    if n >= radix {
        push_radix(out, n / radix, radix);
    }
    let c = digit_to_char(n % radix);
    crate::text::push_char(out, c);
    proof {
        if n >= radix {
            assert(radix_string(n as nat, radix as nat) =~= radix_string(
                (n / radix) as nat,
                radix as nat,
            ).push(c));
        } else {
            assert(n % radix == n);
        }
    }
}

/// The decimal digits of `n`, as `n.to_string()` writes them.
pub fn decimal_string(n: u64) -> (s: String)
    ensures
        s@ == radix_string(n as nat, 10),
{
    let mut s = String::new();
    push_radix(&mut s, n, 10);
    s
}

/// Appends `n` in radix 10 or 16, padded with zeros to `width` characters.
pub fn push_padded(out: &mut String, n: u64, radix: u64, width: usize)
    requires
        radix == 10 || radix == 16,
    ensures
        final(out)@ == old(out)@ + zero_pad(radix_string(n as nat, radix as nat), width as nat),
{
    let mut digits = String::new();
    push_radix(&mut digits, n, radix);
    let len = crate::text::chars_of(digits.as_str()).len();
    let ghost d = digits@;
    let ghost start = out@;
    if len < width {
        let mut k: usize = 0;
        while k < width - len
            invariant
                k <= width - len,
                len < width,
                out@ == start + Seq::new(k as nat, |i: int| '0'),
            decreases width - len - k,
        {
            crate::text::push_char(out, '0');
            assert(Seq::new((k + 1) as nat, |i: int| '0') =~= Seq::new(k as nat, |i: int| '0').push(
                '0',
            ));
            k = k + 1;
        }
    }
    let dv = crate::text::chars_of(digits.as_str());
    let n_d = dv.len();
    crate::text::push_span(out, &dv, 0, n_d);
    assert(dv@.subrange(0, n_d as int) =~= d);
    proof {
        if len < width {
            assert(start + Seq::new((width - len) as nat, |i: int| '0') + d =~= start + (Seq::new(
                (width - len) as nat,
                |i: int| '0',
            ) + d));
        } else {
            assert(start + d =~= start + zero_pad(d, width as nat));
        }
    }
}


/// The digit character of a value below the radix is a digit of the radix
/// with that value.
pub proof fn lemma_digit_char(d: nat, radix: nat)
    requires
        radix == 10 || radix == 16,
        d < radix,
    ensures
        radix == 16 ==> is_hex_digit(digit_char(d)),
        radix == 10 ==> is_digit(digit_char(d)),
        radix_digit_val(digit_char(d), radix) == d,
        digit_char(d) != '+',
        digit_char(d) != 'x',
{
    if d < 10 {
        assert((d + '0' as nat) as char as int == d + 48);
    } else {
        assert((d - 10 + 'a' as nat) as char as int == d + 87);
    }
}

/// The digits of a number in radix 10 or 16 are digits of the radix whose
/// value is the number, and only zero starts with `'0'`.
pub proof fn lemma_radix_string(n: nat, radix: nat)
    requires
        radix == 10 || radix == 16,
    ensures
        all_digits(radix_string(n, radix), radix),
        digits_value(radix_string(n, radix), radix) == n,
        radix_string(n, radix).len() >= 1,
        radix_string(n, radix)[0] == '0' <==> n == 0,
    decreases n,
{
    let s = radix_string(n, radix);
    if n < radix {
        lemma_digit_char(n, radix);
        assert(s == seq![digit_char(n)]);
        assert(s.drop_last() =~= Seq::<char>::empty());
        assert(s.last() == digit_char(n));
        assert(digits_value(s.drop_last(), radix) == 0);
        if n != 0 {
            if n < 10 {
                assert((n + '0' as nat) as char as int == n + 48);
            } else {
                assert((n - 10 + 'a' as nat) as char as int == n + 87);
            }
        }
    } else {
        let q = n / radix;
        assert(q < n) by (nonlinear_arith)
            requires
                radix >= 2,
                n >= radix,
                q == n / radix,
        ;
        assert(q >= 1) by (nonlinear_arith)
            requires
                radix >= 2,
                n >= radix,
                q == n / radix,
        ;
        lemma_radix_string(q, radix);
        lemma_digit_char(n % radix, radix);
        let p = radix_string(q, radix);
        assert(s == p.push(digit_char(n % radix)));
        assert(s.drop_last() =~= p);
        assert(s.last() == digit_char(n % radix));
        assert(digits_value(s, radix) == digits_value(p, radix) * radix + radix_digit_val(
            digit_char(n % radix),
            radix,
        ));
        assert(n == q * radix + n % radix) by (nonlinear_arith)
            requires
                radix >= 2,
                q == n / radix,
        ;
        assert forall|i: int| 0 <= i < s.len() implies (if radix == 16 {
            is_hex_digit(s[i])
        } else {
            is_digit(s[i])
        }) by {
            if i < p.len() {
                assert(s[i] == p[i]);
            }
        }
        assert(s[0] == p[0]);
    }
}

/// Leading zeros do not change the value of a digit string.
pub proof fn lemma_leading_zeros(k: nat, s: Seq<char>, radix: nat)
    requires
        radix == 10 || radix == 16,
    ensures
        digits_value(Seq::new(k, |i: int| '0') + s, radix) == digits_value(s, radix),
    decreases s.len() + k,
{
    let z = Seq::new(k, |i: int| '0');
    if s.len() == 0 {
        assert(z + s =~= z);
        if k > 0 {
            let z1 = Seq::new((k - 1) as nat, |i: int| '0');
            assert(z.drop_last() =~= z1 + Seq::<char>::empty());
            lemma_leading_zeros((k - 1) as nat, Seq::<char>::empty(), radix);
        }
    } else {
        assert((z + s).drop_last() =~= z + s.drop_last());
        assert((z + s).last() == s.last());
        lemma_leading_zeros(k, s.drop_last(), radix);
    }
}

/// The digits of a number, zero-padded, are digits of the radix whose value
/// is the number.
pub proof fn lemma_zero_pad(n: nat, radix: nat, width: nat)
    requires
        radix == 10 || radix == 16,
    ensures
        all_digits(zero_pad(radix_string(n, radix), width), radix),
        digits_value(zero_pad(radix_string(n, radix), width), radix) == n,
        zero_pad(radix_string(n, radix), width).len() >= width,
        zero_pad(radix_string(n, radix), width).len() >= 1,
{
    lemma_radix_string(n, radix);
    let s = radix_string(n, radix);
    if s.len() < width {
        let k = (width - s.len()) as nat;
        lemma_leading_zeros(k, s, radix);
        let z = Seq::new(k, |i: int| '0');
        assert forall|i: int| 0 <= i < (z + s).len() implies (if radix == 16 {
            is_hex_digit((z + s)[i])
        } else {
            is_digit((z + s)[i])
        }) by {
            if i >= k {
                assert((z + s)[i] == s[i - k]);
            }
        }
    }
}

/// Writing a number in radix 10 or 16 (zero-padded to any width) and
/// reading it back with `from_str_radix` gives the number, when it fits the
/// type read.
pub proof fn law_radix_roundtrip(n: nat, radix: nat, width: nat, max: nat)
    requires
        radix == 10 || radix == 16,
        n <= max,
    ensures
        parse_unsigned(zero_pad(radix_string(n, radix), width), radix, max) == Some(n),
{
    lemma_zero_pad(n, radix, width);
    lemma_radix_string(n, radix);
    let t = zero_pad(radix_string(n, radix), width);
    let s = radix_string(n, radix);
    lemma_digit_char(0, radix);
    if s.len() < width {
        assert(t[0] == '0');
    } else {
        assert(t == s);
        if n == 0 {
            assert(t[0] == '0');
        } else {
            assert(is_digit(t[0]) || is_hex_digit(t[0]));
        }
    }
    assert(t[0] != '+');
    assert(unsigned_body(t) == t);
}


/// A number below 16^k has at most k hexadecimal digits.
pub proof fn lemma_hex_len(n: nat, k: nat)
    requires
        1 <= k,
        n < pow16(k),
    ensures
        radix_string(n, 16).len() <= k,
    decreases k,
{
    if n >= 16 {
        let q = n / 16;
        assert(q < pow16((k - 1) as nat)) by {
            assert(pow16(k) == 16 * pow16((k - 1) as nat));
        }
        if k == 1 {
            assert(pow16(1) == 16);
        } else {
            lemma_hex_len(q, (k - 1) as nat);
        }
    }
}

/// A hexadecimal digit as `{:x}` writes it: `0`-`9` or lower-case `a`-`f`.
pub open spec fn is_lower_hex_digit(c: char) -> bool {
    ('0' <= c && c <= '9') || ('a' <= c && c <= 'f')
}

/// The hexadecimal digits of a number are all lower case.
pub proof fn lemma_radix_lower_hex(n: nat)
    ensures
        forall|i: int|
            0 <= i < radix_string(n, 16).len() ==> is_lower_hex_digit(
                #[trigger] radix_string(n, 16)[i],
            ),
    decreases n,
{
    let s = radix_string(n, 16);
    if n < 16 {
        assert(s == seq![digit_char(n)]);
        if n < 10 {
            assert((n + '0' as nat) as char as int == n + 48);
        } else {
            assert((n - 10 + 'a' as nat) as char as int == n + 87);
        }
    } else {
        let q = n / 16;
        let r = n % 16;
        lemma_radix_lower_hex(q);
        let p = radix_string(q, 16);
        assert(s == p.push(digit_char(r)));
        if r < 10 {
            assert((r + '0' as nat) as char as int == r + 48);
        } else {
            assert((r - 10 + 'a' as nat) as char as int == r + 87);
        }
        assert forall|i: int| 0 <= i < s.len() implies is_lower_hex_digit(#[trigger] s[i]) by {
            if i < p.len() {
                assert(s[i] == p[i]);
            }
        }
    }
}

/// 16 to the power `k`.
pub open spec fn pow16(k: nat) -> nat
    decreases k,
{
    if k == 0 {
        1
    } else {
        16 * pow16((k - 1) as nat)
    }
}


/// One step of the scanner of decimal floating-point text. States: 0 nothing
/// read, 1 integer digits, 2 a point with no digit before it, 3 a point after
/// digits or fraction digits, 4 the exponent mark, 5 the exponent sign,
/// 6 exponent digits, 7 rejected.
pub open spec fn float_step(st: u8, c: char) -> u8 {
    let d = is_digit(c);
    let e = c == 'e' || c == 'E';
    if st == 0 {
        if d { 1 } else if c == '.' { 2 } else { 7 }
    } else if st == 1 {
        if d { 1 } else if c == '.' { 3 } else if e { 4 } else { 7 }
    } else if st == 2 {
        if d { 3 } else { 7 }
    } else if st == 3 {
        if d { 3 } else if e { 4 } else { 7 }
    } else if st == 4 {
        if c == '+' || c == '-' { 5 } else if d { 6 } else { 7 }
    } else if st == 5 || st == 6 {
        if d { 6 } else { 7 }
    } else {
        7
    }
}

/// The scanner's state after reading `s`.
pub open spec fn float_state(s: Seq<char>) -> u8
    decreases s.len(),
{
    if s.len() == 0 {
        0
    } else {
        float_step(float_state(s.drop_last()), s.last())
    }
}

/// `s` is a decimal number as `f64::from_str` reads it:
/// `( Digit+ | Digit+ '.' Digit* | Digit* '.' Digit+ ) Exp?` with
/// `Exp ::= ('e' | 'E') Sign? Digit+`.
pub open spec fn is_float_number(s: Seq<char>) -> bool {
    let st = float_state(s);
    st == 1 || st == 3 || st == 6
}

/// `s` without one leading `+` or `-`.
pub open spec fn sign_stripped(s: Seq<char>) -> Seq<char> {
    if s.len() > 0 && (s[0] == '+' || s[0] == '-') {
        s.drop_first()
    } else {
        s
    }
}

/// The texts that `f64::from_str` accepts: an optional sign, then `inf`,
/// `infinity` or `nan` in any ASCII case, or a decimal number. Every such
/// text reads as a value (one too large for `f64` reads as infinity); any
/// other text, white space included, is an error.
pub open spec fn is_float_text(s: Seq<char>) -> bool {
    let b = sign_stripped(s);
    let l = b.map_values(|c: char| ascii_lower(c));
    ||| l == seq!['i', 'n', 'f']
    ||| l == seq!['i', 'n', 'f', 'i', 'n', 'i', 't', 'y']
    ||| l == seq!['n', 'a', 'n']
    ||| is_float_number(b)
}

fn float_step_exec(st: u8, c: char) -> (r: u8)
    ensures
        r == float_step(st, c),
{
    let d = '0' <= c && c <= '9';
    let e = c == 'e' || c == 'E';
    if st == 0 {
        if d { 1 } else if c == '.' { 2 } else { 7 }
    } else if st == 1 {
        if d { 1 } else if c == '.' { 3 } else if e { 4 } else { 7 }
    } else if st == 2 {
        if d { 3 } else { 7 }
    } else if st == 3 {
        if d { 3 } else if e { 4 } else { 7 }
    } else if st == 4 {
        if c == '+' || c == '-' { 5 } else if d { 6 } else { 7 }
    } else if st == 5 || st == 6 {
        if d { 6 } else { 7 }
    } else {
        7
    }
}

/// The characters of a span, lower-cased, are `w`.
fn span_eq_lower(v: &Vec<char>, lo: usize, hi: usize, w: &Vec<char>) -> (r: bool)
    requires
        span_ok(v@, lo as int, hi as int),
    ensures
        r == (v@.subrange(lo as int, hi as int).map_values(|c: char| ascii_lower(c)) == w@),
{
    let ghost l = v@.subrange(lo as int, hi as int).map_values(|c: char| ascii_lower(c));
    if hi - lo != w.len() {
        assert(l.len() != w@.len());
        return false;
    }
    let mut i: usize = 0;
    while i < w.len()
        invariant
            hi - lo == w.len(),
            span_ok(v@, lo as int, hi as int),
            l == v@.subrange(lo as int, hi as int).map_values(|c: char| ascii_lower(c)),
            i <= w.len(),
            forall|t: int| 0 <= t < i ==> l[t] == w@[t],
        decreases w.len() - i,
    {
        let c = crate::cpuinfo::lower(v[lo + i]);
        assert(l[i as int] == c);
        if c != w[i] {
            assert(l[i as int] != w@[i as int]);
            return false;
        }
        i = i + 1;
    }
    assert(l =~= w@);
    true
}

/// The scanner's state after reading a span.
fn float_state_span(v: &Vec<char>, lo: usize, hi: usize) -> (st: u8)
    requires
        span_ok(v@, lo as int, hi as int),
    ensures
        st == float_state(v@.subrange(lo as int, hi as int)),
{
    let mut st: u8 = 0;
    let mut i: usize = lo;
    assert(v@.subrange(lo as int, lo as int) =~= Seq::<char>::empty());
    while i < hi
        invariant
            lo <= i <= hi <= v.len(),
            st == float_state(v@.subrange(lo as int, i as int)),
        decreases hi - i,
    {
        assert(v@.subrange(lo as int, i + 1).drop_last() =~= v@.subrange(lo as int, i as int));
        assert(v@.subrange(lo as int, i + 1).last() == v@[i as int]);
        st = float_step_exec(st, v[i]);
        i = i + 1;
    }
    st
}

/// Whether a span is text that `f64::from_str` accepts.
pub fn float_text_span(v: &Vec<char>, lo: usize, hi: usize) -> (r: bool)
    requires
        span_ok(v@, lo as int, hi as int),
    ensures
        r == is_float_text(v@.subrange(lo as int, hi as int)),
{
    let a = if lo < hi && (v[lo] == '+' || v[lo] == '-') {
        lo + 1
    } else {
        lo
    };
    assert(v@.subrange(a as int, hi as int) =~= sign_stripped(v@.subrange(lo as int, hi as int)));
    let inf = vec!['i', 'n', 'f'];
    let infinity = vec!['i', 'n', 'f', 'i', 'n', 'i', 't', 'y'];
    let nan = vec!['n', 'a', 'n'];
    assert(inf@ == seq!['i', 'n', 'f']);
    assert(infinity@ == seq!['i', 'n', 'f', 'i', 'n', 'i', 't', 'y']);
    assert(nan@ == seq!['n', 'a', 'n']);
    if span_eq_lower(v, a, hi, &inf) || span_eq_lower(v, a, hi, &infinity) || span_eq_lower(
        v,
        a,
        hi,
        &nan,
    ) {
        return true;
    }
    let st = float_state_span(v, a, hi);
    st == 1 || st == 3 || st == 6
}

} // verus!
