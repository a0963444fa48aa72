//! Numbers as text: parsing in a radix (as std's `from_str_radix`) and
//! printing in hex and decimal.
use crate::text::{push_char, to_chars};
use vstd::string::StrSliceExecFns;
use vstd::prelude::*;

verus! {

/// Value of a digit character (any case), or -1 if it is not a digit of
/// radix 36.
pub open spec fn digit_value(c: char) -> int {
    if '0' <= c && c <= '9' {
        c as int - '0' as int
    } else if 'a' <= c && c <= 'z' {
        c as int - 'a' as int + 10
    } else if 'A' <= c && c <= 'Z' {
        c as int - 'A' as int + 10
    } else {
        -1
    }
}

/// Every character of `s` is a digit of `radix`.
pub open spec fn all_digits(s: Seq<char>, radix: int) -> bool {
    forall|i: int| 0 <= i < s.len() ==> 0 <= #[trigger] digit_value(s[i]) < radix
}

/// Value of the digits `s` in `radix`.
pub open spec fn digits_value(s: Seq<char>, radix: int) -> int
    decreases s.len(),
{
    if s.len() == 0 {
        0
    } else {
        digits_value(s.drop_last(), radix) * radix + digit_value(s.last())
    }
}

/// Digits after an optional leading `+`.
pub open spec fn unsigned_body(s: Seq<char>) -> Seq<char> {
    if s.len() > 0 && s[0] == '+' {
        s.drop_first()
    } else {
        s
    }
}

/// Unsigned number in `radix` that fits in `max`, as parsed by std's
/// `from_str_radix` for unsigned integer types.
pub open spec fn spec_parse_unsigned(s: Seq<char>, radix: int, max: int) -> Option<int> {
    let body = unsigned_body(s);
    if body.len() > 0 && all_digits(body, radix) && digits_value(body, radix) <= max {
        Some(digits_value(body, radix))
    } else {
        None
    }
}

/// Signed number in `radix` in the range of `i64`, as parsed by std's
/// `i64::from_str_radix`.
pub open spec fn spec_parse_i64(s: Seq<char>, radix: int) -> Option<int> {
    if s.len() > 0 && s[0] == '-' {
        let body = s.drop_first();
        if body.len() > 0 && all_digits(body, radix) && digits_value(body, radix) <= 0x8000_0000_0000_0000 {
            Some(-digits_value(body, radix))
        } else {
            None
        }
    } else {
        spec_parse_unsigned(s, radix, 0x7fff_ffff_ffff_ffff)
    }
}

proof fn lemma_digits_value_step(s: Seq<char>, i: int, radix: int)
    requires
        0 <= i < s.len(),
    ensures
        digits_value(s.subrange(0, i + 1), radix) == digits_value(s.subrange(0, i), radix) * radix
            + digit_value(s[i]),
{
    assert(s.subrange(0, i + 1).drop_last() =~= s.subrange(0, i));
}

proof fn lemma_digits_value_nonneg(s: Seq<char>, radix: int)
    requires
        all_digits(s, radix),
        radix >= 2,
    ensures
        digits_value(s, radix) >= 0,
    decreases s.len(),
{
    if s.len() > 0 {
        assert(all_digits(s.drop_last(), radix)) by {
            assert forall|i: int| 0 <= i < s.drop_last().len() implies 0 <= #[trigger] digit_value(
                s.drop_last()[i],
            ) < radix by {
                assert(s.drop_last()[i] == s[i]);
            }
        }
        lemma_digits_value_nonneg(s.drop_last(), radix);
        assert(0 <= digit_value(s[s.len() - 1]));
        assert(digits_value(s.drop_last(), radix) * radix >= 0) by (nonlinear_arith)
            requires
                digits_value(s.drop_last(), radix) >= 0,
                radix >= 2,
        ;
    }
}

/// Value of a digit character, or None.
pub(crate) fn digit_of(c: char, radix: u32) -> (r: Option<u64>)
    requires
        2 <= radix <= 36,
    ensures
        match r {
            Some(d) => 0 <= digit_value(c) < radix && d == digit_value(c),
            None => !(0 <= digit_value(c) < radix),
        },
{
    let d: u32 = if '0' <= c && c <= '9' {
        (c as u32) - ('0' as u32)
    } else if 'a' <= c && c <= 'z' {
        (c as u32) - ('a' as u32) + 10
    } else if 'A' <= c && c <= 'Z' {
        (c as u32) - ('A' as u32) + 10
    } else {
        return None;
    };
    if d < radix {
        Some(d as u64)
    } else {
        None
    }
}

/// Parse the digits `s[start..]` in `radix` up to the value `max`.
fn parse_digits(s: &Vec<char>, start: usize, radix: u32, max: u64) -> (r: Option<u64>)
    requires
        2 <= radix <= 36,
        start <= s@.len(),
    ensures
        ({
            let body = s@.subrange(start as int, s@.len() as int);
            r == (if body.len() > 0 && all_digits(body, radix as int) && digits_value(
                body,
                radix as int,
            ) <= max {
                Some(digits_value(body, radix as int) as u64)
            } else {
                None
            })
        }),
        r matches Some(v) ==> v <= max && v == digits_value(
            s@.subrange(start as int, s@.len() as int),
            radix as int,
        ),
{
    let ghost body = s@.subrange(start as int, s@.len() as int);
    if start == s.len() {
        return None;
    }
    let mut value: u64 = 0;
    let mut i: usize = start;
    while i < s.len()
        invariant
            start <= i <= s@.len(),
            body == s@.subrange(start as int, s@.len() as int),
            all_digits(body.subrange(0, i - start), radix as int),
            value == digits_value(body.subrange(0, i - start), radix as int),
            value <= max,
            2 <= radix <= 36,
        decreases s.len() - i,
    {
        let d = digit_of(s[i], radix);
        proof {
            lemma_digits_value_step(body, i - start, radix as int);
            assert(body[i - start] == s@[i as int]);
        }
        match d {
            None => {
                proof {
                    assert(!all_digits(body, radix as int)) by {
                        assert(body[i - start] == s@[i as int]);
                    }
                }
                return None;
            },
            Some(d) => {
                assert((value as u128) * (radix as u128) <= 0xffff_ffff_ffff_ffff * 36) by (nonlinear_arith)
                    requires
                        value <= 0xffff_ffff_ffff_ffffu64,
                        radix <= 36,
                ;
                let next = (value as u128) * (radix as u128) + (d as u128);
                if next > max as u128 {
                    proof {
                        lemma_digits_prefix_monotone(body, (i - start + 1) as int, radix as int);
                    }
                    return None;
                }
                value = next as u64;
                proof {
                    assert forall|k: int| 0 <= k < i - start + 1 implies 0 <= #[trigger] digit_value(
                        body.subrange(0, i - start + 1)[k],
                    ) < radix by {
                        if k < i - start {
                            assert(body.subrange(0, i - start + 1)[k] == body.subrange(0, i - start)[k]);
                        }
                    }
                }
            },
        }
        i = i + 1;
    }
    proof {
        assert(body.subrange(0, i - start) =~= body);
    }
    Some(value)
}

/// The value of a prefix of digits never exceeds the value of all digits.
proof fn lemma_digits_prefix_monotone(s: Seq<char>, k: int, radix: int)
    requires
        0 <= k <= s.len(),
        radix >= 2,
    ensures
        all_digits(s, radix) ==> digits_value(s.subrange(0, k), radix) <= digits_value(s, radix),
    decreases s.len() - k,
{
    if k < s.len() && all_digits(s, radix) {
        lemma_digits_prefix_monotone(s, k + 1, radix);
        lemma_digits_value_step(s, k, radix);
        let pre = s.subrange(0, k);
        assert(all_digits(pre, radix)) by {
            assert forall|i: int| 0 <= i < pre.len() implies 0 <= #[trigger] digit_value(pre[i])
                < radix by {
                assert(pre[i] == s[i]);
            }
        }
        lemma_digits_value_nonneg(pre, radix);
        assert(digits_value(pre, radix) <= digits_value(pre, radix) * radix) by (nonlinear_arith)
            requires
                digits_value(pre, radix) >= 0,
                radix >= 2,
        ;
        assert(0 <= digit_value(s[k]));
    } else if k == s.len() {
        assert(s.subrange(0, k) =~= s);
    }
}

/// A parsed unsigned number lies in `[0, max]`.
pub proof fn lemma_parse_unsigned_bounds(s: Seq<char>, radix: int, max: int)
    requires
        radix >= 2,
    ensures
        spec_parse_unsigned(s, radix, max) matches Some(v) ==> 0 <= v <= max,
{
    let body = unsigned_body(s);
    if body.len() > 0 && all_digits(body, radix) {
        lemma_digits_value_nonneg(body, radix);
    }
}

/// A signed number read in a radix lies in the range of `i64`.
pub proof fn lemma_parse_i64_bounds(s: Seq<char>, radix: int)
    requires
        radix >= 2,
    ensures
        spec_parse_i64(s, radix) matches Some(v) ==> i64::MIN <= v <= i64::MAX,
{
    if s.len() > 0 && s[0] == '-' {
        let body = s.drop_first();
        if body.len() > 0 && all_digits(body, radix) {
            lemma_digits_value_nonneg(body, radix);
        }
    } else {
        lemma_parse_unsigned_bounds(s, radix, 0x7fff_ffff_ffff_ffff);
    }
}

/// Parse an unsigned number (optional `+`, then digits) of at most `max`.
pub fn parse_unsigned(s: &str, radix: u32, max: u64) -> (r: Option<u64>)
    requires
        2 <= radix <= 36,
    ensures
        r == (match spec_parse_unsigned(s@, radix as int, max as int) {
            Some(v) => Some(v as u64),
            None => None,
        }),
        spec_parse_unsigned(s@, radix as int, max as int) matches Some(v) ==> 0 <= v <= max,
{
    proof {
        let body = unsigned_body(s@);
        if body.len() > 0 && all_digits(body, radix as int) {
            lemma_digits_value_nonneg(body, radix as int);
        }
    }
    let chars = to_chars(s);
    let start: usize = if chars.len() > 0 && chars[0] == '+' {
        1
    } else {
        0
    };
    assert(unsigned_body(s@) =~= chars@.subrange(start as int, chars@.len() as int));
    parse_digits(&chars, start, radix, max)
}

/// Parse a `u64` in `radix` (as `u64::from_str_radix`).
pub fn parse_u64(s: &str, radix: u32) -> (r: Option<u64>)
    requires
        2 <= radix <= 36,
    ensures
        r == (match spec_parse_unsigned(s@, radix as int, u64::MAX as int) {
            Some(v) => Some(v as u64),
            None => None,
        }),
{
    parse_unsigned(s, radix, u64::MAX)
}

/// Parse an `i64` in `radix` (as `i64::from_str_radix`).
pub fn parse_i64(s: &str, radix: u32) -> (r: Option<i64>)
    requires
        2 <= radix <= 36,
    ensures
        r == (match spec_parse_i64(s@, radix as int) {
            Some(v) => Some(v as i64),
            None => None,
        }),
{
    let chars = to_chars(s);
    if chars.len() > 0 && chars[0] == '-' {
        assert(s@.drop_first() =~= chars@.subrange(1, chars@.len() as int));
        match parse_digits(&chars, 1, radix, 0x8000_0000_0000_0000) {
            Some(v) => {
                assert(v <= 0x8000_0000_0000_0000u64);
                if v == 0x8000_0000_0000_0000 {
                    Some(i64::MIN)
                } else {
                    Some(-(v as i64))
                }
            },
            None => None,
        }
    } else {
        let start: usize = if chars.len() > 0 && chars[0] == '+' {
            1
        } else {
            0
        };
        assert(unsigned_body(s@) =~= chars@.subrange(start as int, chars@.len() as int));
        match parse_digits(&chars, start, radix, 0x7fff_ffff_ffff_ffff) {
            Some(v) => Some(v as i64),
            None => None,
        }
    }
}

/// Lower case hex digit of `d < 16`.
pub open spec fn hex_digit(d: int) -> char {
    if d < 10 {
        (('0' as int) + d) as char
    } else {
        (('a' as int) + d - 10) as char
    }
}

/// Digits of `n` in `radix` (2 to 16) without leading zeros ("0" for 0).
pub open spec fn spec_digits(n: nat, radix: nat) -> Seq<char>
    decreases n,
{
    if n < radix || radix < 2 {
        seq![hex_digit(n as int)]
    } else {
        proof {
            vstd::arithmetic::div_mod::lemma_div_decreases(n as int, radix as int);
        }
        spec_digits(n / radix, radix).push(hex_digit((n % radix) as int))
    }
}

/// Digits of `n` in `radix` padded with zeros on the left to `width`.
pub open spec fn spec_digits_padded(n: nat, radix: nat, width: nat) -> Seq<char> {
    let d = spec_digits(n, radix);
    if d.len() >= width {
        d
    } else {
        Seq::new((width - d.len()) as nat, |i: int| '0') + d
    }
}

fn digit_char(d: u64) -> (r: char)
    requires
        d < 16,
    ensures
        r == hex_digit(d as int),
{
    if d < 10 {
        ((('0' as u8) + (d as u8)) as char)
    } else {
        ((('a' as u8) + (d as u8) - 10) as char)
    }
}

/// Append the digits of `n` in `radix` to `out`.
fn push_digits(out: &mut String, n: u64, radix: u64)
    requires
        2 <= radix <= 16,
    ensures
        final(out)@ == old(out)@ + spec_digits(n as nat, radix as nat),
    decreases n,
{
    if n < radix {
        push_char(out, digit_char(n));
    } else {
        proof {
            vstd::arithmetic::div_mod::lemma_div_decreases(n as int, radix as int);
        }
        push_digits(out, n / radix, radix);
        push_char(out, digit_char(n % radix));
        assert(spec_digits(n as nat, radix as nat) == spec_digits((n / radix) as nat, radix as nat).push(
            hex_digit((n % radix) as int),
        ));
    }
}

/// `n` printed in `radix` (2 to 16), zero padded to `width` characters
/// (`format!("{:0width$x}")` for radix 16).
pub fn format_radix(n: u64, radix: u64, width: usize) -> (r: String)
    requires
        2 <= radix <= 16,
    ensures
        r@ == spec_digits_padded(n as nat, radix as nat, width as nat),
{
    let mut digits = String::new();
    push_digits(&mut digits, n, radix);
    assert(digits@ =~= spec_digits(n as nat, radix as nat));
    let len = count_chars(&digits);
    if len >= width {
        return digits;
    }
    let mut r = String::new();
    let mut i: usize = 0;
    while i < width - len
        invariant
            len < width,
            i <= width - len,
            r@ == Seq::new(i as nat, |k: int| '0'),
        decreases width - len - i,
    {
        push_char(&mut r, '0');
        i = i + 1;
        assert(r@ =~= Seq::new(i as nat, |k: int| '0'));
    }
    let chars = to_chars(digits.as_str());
    crate::text::append_chars(&mut r, &chars, 0, chars.len());
    assert(chars@.subrange(0, chars@.len() as int) =~= digits@);
    r
}

/// Number of characters of a string.
fn count_chars(s: &String) -> (r: usize)
    ensures
        r == s@.len(),
{
    s.as_str().unicode_len()
}

/// Lower case hex representation of `n` (`format!("{:x}")`).
pub fn to_hex(n: u64) -> (r: String)
    ensures
        r@ == spec_digits(n as nat, 16),
{
    let mut r = String::new();
    push_digits(&mut r, n, 16);
    assert(r@ =~= spec_digits(n as nat, 16));
    r
}

/// Decimal representation of `n` (`format!("{}")`).
pub fn to_dec(n: u64) -> (r: String)
    ensures
        r@ == spec_digits(n as nat, 10),
{
    let mut r = String::new();
    push_digits(&mut r, n, 10);
    assert(r@ =~= spec_digits(n as nat, 10));
    r
}

/// Two digit lower case hex representation of a byte (`format!("{:02x}")`).
pub fn byte_hex(b: u8) -> (r: String)
    ensures
        r@ == seq![hex_digit((b / 16) as int), hex_digit((b % 16) as int)],
{
    let mut r = String::new();
    push_char(&mut r, digit_char((b / 16) as u64));
    push_char(&mut r, digit_char((b % 16) as u64));
    assert(r@ =~= seq![hex_digit((b / 16) as int), hex_digit((b % 16) as int)]);
    r
}

/// Signed decimal representation (`format!("{}")` of an `i64`).
pub open spec fn spec_signed_dec(n: int) -> Seq<char> {
    if n < 0 {
        seq!['-'] + spec_digits((-n) as nat, 10)
    } else {
        spec_digits(n as nat, 10)
    }
}

/// Decimal representation of a signed number.
pub fn to_signed_dec(n: i64) -> (r: String)
    ensures
        r@ == spec_signed_dec(n as int),
{
    let mut r = String::new();
    let magnitude: u64 = if n < 0 {
        if n == i64::MIN {
            0x8000_0000_0000_0000
        } else {
            (-n) as u64
        }
    } else {
        n as u64
    };
    if n < 0 {
        push_char(&mut r, '-');
    }
    push_digits(&mut r, magnitude, 10);
    assert(r@ =~= spec_signed_dec(n as int));
    r
}

/// A hex digit reads back as its value.
pub proof fn lemma_hex_digit_value(d: int)
    requires
        0 <= d < 16,
    ensures
        digit_value(hex_digit(d)) == d,
        hex_digit(d) != '+',
        hex_digit(d) != ':',
        ('0' <= hex_digit(d) <= '9') || ('a' <= hex_digit(d) <= 'f'),
{
}

/// The digits of a number read back as the number.
pub proof fn lemma_digits_roundtrip(n: nat, radix: nat)
    requires
        2 <= radix <= 16,
    ensures
        spec_digits(n, radix).len() > 0,
        all_digits(spec_digits(n, radix), radix as int),
        digits_value(spec_digits(n, radix), radix as int) == n,
        forall|i: int|
            0 <= i < spec_digits(n, radix).len() ==> #[trigger] spec_digits(n, radix)[i] != '+'
                && spec_digits(n, radix)[i] != ':',
    decreases n,
{
    let d = spec_digits(n, radix);
    if n < radix {
        lemma_hex_digit_value(n as int);
        assert(d.drop_last() =~= Seq::<char>::empty());
        assert(digits_value(d.drop_last(), radix as int) == 0);
        assert(digits_value(d, radix as int) == 0 * radix + digit_value(d.last()));
    } else {
        vstd::arithmetic::div_mod::lemma_div_decreases(n as int, radix as int);
        let q = n / radix;
        let r = n % radix;
        lemma_digits_roundtrip(q, radix);
        lemma_hex_digit_value(r as int);
        let p = spec_digits(q, radix);
        assert(d == p.push(hex_digit(r as int)));
        assert(d.drop_last() =~= p);
        vstd::arithmetic::div_mod::lemma_fundamental_div_mod(n as int, radix as int);
        assert(q * radix + r == n) by (nonlinear_arith)
            requires
                n == radix * q + r,
        ;
        assert(d.last() == hex_digit(r as int));
        assert(digits_value(d, radix as int) == digits_value(p, radix as int) * radix + digit_value(d.last()));
        assert forall|i: int| 0 <= i < d.len() implies 0 <= #[trigger] digit_value(d[i]) < radix by {
            if i < p.len() {
                assert(d[i] == p[i]);
            }
        }
        assert forall|i: int| 0 <= i < d.len() implies #[trigger] d[i] != '+' && d[i] != ':' by {
            if i < p.len() {
                assert(d[i] == p[i]);
            }
        }
    }
}

/// The digits of a number parse back as the number, unsigned or signed.
pub proof fn lemma_parse_digits(n: nat, radix: nat, max: int)
    requires
        2 <= radix <= 16,
        n <= max,
    ensures
        spec_parse_unsigned(spec_digits(n, radix), radix as int, max) == Some(n as int),
        n <= i64::MAX ==> spec_parse_i64(spec_digits(n, radix), radix as int) == Some(n as int),
        spec_digits(n, radix)[0] != '-',
{
    lemma_digits_roundtrip(n, radix);
    let d = spec_digits(n, radix);
    assert(0 <= digit_value(d[0]));
    assert(unsigned_body(d) == d);
}

/// A signed number in decimal parses back as the number.
pub proof fn lemma_parse_signed_dec(n: int)
    requires
        i64::MIN <= n <= i64::MAX,
    ensures
        spec_parse_i64(spec_signed_dec(n), 10) == Some(n),
{
    if n < 0 {
        let s = spec_signed_dec(n);
        lemma_parse_digits((-n) as nat, 10, 0x8000_0000_0000_0000);
        lemma_digits_roundtrip((-n) as nat, 10);
        assert(s.drop_first() =~= spec_digits((-n) as nat, 10));
    } else {
        lemma_parse_digits(n as nat, 10, 0x7fff_ffff_ffff_ffff);
    }
}

/// The hex digits of a 64-bit number parse back as the number.
pub proof fn lemma_parse_hex_digits(n: u64)
    ensures
        spec_parse_unsigned(spec_digits(n as nat, 16), 16, u64::MAX as int) == Some(n as int),
{
    lemma_digits_roundtrip(n as nat, 16);
    let d = spec_digits(n as nat, 16);
    assert(d[0] != '+');
    assert(unsigned_body(d) == d);
}

/// A number below 2^64 has at most 64 digits in any radix.
pub proof fn lemma_digits_len(n: nat, radix: nat)
    requires
        n <= u64::MAX,
        radix >= 2,
    ensures
        spec_digits(n, radix).len() <= 64,
{
    vstd::arithmetic::power2::lemma2_to64();
    vstd::arithmetic::power2::lemma_pow2(64);
    lemma_digits_len_pow(n, radix, 64);
}

proof fn lemma_digits_len_pow(n: nat, radix: nat, k: nat)
    requires
        radix >= 2,
        k >= 1,
        n < vstd::arithmetic::power::pow(2, k),
    ensures
        spec_digits(n, radix).len() <= k,
    decreases k,
{
    if n < radix {
    } else {
        let q = n / radix;
        vstd::arithmetic::div_mod::lemma_div_decreases(n as int, radix as int);
        vstd::arithmetic::power::lemma_pow_positive(2, (k - 1) as nat);
        assert(vstd::arithmetic::power::pow(2, k) == 2 * vstd::arithmetic::power::pow(2, (k - 1) as nat)) by {
            vstd::arithmetic::power::lemma_pow_adds(2, 1, (k - 1) as nat);
            vstd::arithmetic::power::lemma_pow1(2);
        }
        assert(q < vstd::arithmetic::power::pow(2, (k - 1) as nat)) by {
            vstd::arithmetic::div_mod::lemma_fundamental_div_mod(n as int, radix as int);
            vstd::arithmetic::div_mod::lemma_mod_bound(n as int, radix as int);
            assert(q * radix <= n) by (nonlinear_arith)
                requires
                    n == radix * q + (n as int) % (radix as int),
                    (n as int) % (radix as int) >= 0,
            ;
            assert(q * 2 <= q * radix) by (nonlinear_arith)
                requires
                    radix >= 2,
            ;
        }
        if k == 1 {
            assert(vstd::arithmetic::power::pow(2, 0) == 1) by {
                vstd::arithmetic::power::lemma_pow0(2);
            }
            assert(n < 2);
        } else {
            lemma_digits_len_pow(q, radix, (k - 1) as nat);
        }
    }
}

/// Hex digits padded with a zero digit to an even number.
pub open spec fn padded_hex(v: Seq<char>) -> Seq<char> {
    if v.len() % 2 != 0 {
        v.push('0')
    } else {
        v
    }
}

/// Bytes of a hex text: each pair of digits is a byte (an odd last digit
/// is the high half of its byte).
pub open spec fn spec_hex_pairs(v: Seq<char>) -> Seq<u8> {
    let p = padded_hex(v);
    Seq::new((p.len() / 2) as nat, |i: int| (digit_value(p[2 * i]) * 16 + digit_value(p[2 * i + 1])) as u8)
}

/// Bytes of a text of hex digits.
pub fn hex_pairs(value: &str) -> (r: Vec<u8>)
    requires
        all_digits(value@, 16),
    ensures
        r@ == spec_hex_pairs(value@),
{
    let mut chars = to_chars(value);
    if chars.len() % 2 != 0 {
        chars.push('0');
    }
    let ghost p = padded_hex(value@);
    assert(chars@ =~= p);
    let mut r: Vec<u8> = Vec::new();
    let mut i: usize = 0;
    while i + 1 < chars.len()
        invariant
            chars@ == p,
            p.len() % 2 == 0,
            all_digits(p, 16),
            i % 2 == 0,
            i <= p.len(),
            r@ == Seq::new((i / 2) as nat, |k: int| (digit_value(p[2 * k]) * 16 + digit_value(p[2 * k + 1])) as u8),
        decreases chars.len() - i,
    {
        let hi = digit_of(chars[i], 16).unwrap();
        let lo = digit_of(chars[i + 1], 16).unwrap();
        assert(0 <= digit_value(p[i as int]) < 16);
        assert(0 <= digit_value(p[i + 1]) < 16);
        r.push((hi * 16 + lo) as u8);
        assert(r@ =~= Seq::new(((i + 2) / 2) as nat, |k: int| (digit_value(p[2 * k]) * 16 + digit_value(p[2 * k + 1])) as u8));
        i = i + 2;
    }
    assert(i == p.len());
    r
}

/// Whether a text holds hex digits only.
pub fn is_hex_text(s: &str) -> (r: bool)
    ensures
        r == all_digits(s@, 16),
{
    let chars = to_chars(s);
    let mut i: usize = 0;
    while i < chars.len()
        invariant
            chars@ == s@,
            i <= chars@.len(),
            forall|k: int| 0 <= k < i ==> 0 <= #[trigger] digit_value(s@[k]) < 16,
        decreases chars.len() - i,
    {
        if digit_of(chars[i], 16).is_none() {
            return false;
        }
        i = i + 1;
    }
    true
}

} // verus!
