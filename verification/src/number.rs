//! Strict base-10 decoding of the numbers that a field may hold: unsigned
//! and signed integers, and decimal fractions kept exact.

use vstd::prelude::*;
use vstd::string::StringExecFns;

verus! {

/// A decimal digit.
pub open spec fn is_digit(c: char) -> bool {
    48 <= c as u32 <= 57
}

/// The value of a decimal digit; 0 for any other character.
pub open spec fn digit_value(c: char) -> nat {
    if is_digit(c) {
        (c as u32 - 48) as nat
    } else {
        0
    }
}

/// Every character of `s` is a decimal digit.
pub open spec fn all_digits(s: Seq<char>) -> bool {
    forall|i: int| 0 <= i < s.len() ==> is_digit(#[trigger] s[i])
}

/// The number read when the digits of `s` follow a number `head` already
/// read: each digit moves what came before one decimal place up.
pub open spec fn extend(head: nat, s: Seq<char>) -> nat
    decreases s.len(),
{
    if s.len() == 0 {
        head
    } else {
        extend(head, s.drop_last()) * 10 + digit_value(s.last())
    }
}

/// The number that the digits of `s` write in base 10.
pub open spec fn digits_value(s: Seq<char>) -> nat {
    extend(0, s)
}

/// `tok` without a leading `+`.
pub open spec fn unsigned_digits(tok: Seq<char>) -> Seq<char> {
    if tok.len() > 0 && tok[0] == '+' {
        tok.drop_first()
    } else {
        tok
    }
}

/// `tok` without a leading `+` or `-`.
pub open spec fn signed_digits(tok: Seq<char>) -> Seq<char> {
    if tok.len() > 0 && (tok[0] == '+' || tok[0] == '-') {
        tok.drop_first()
    } else {
        tok
    }
}

/// `tok` starts with `-`.
pub open spec fn is_negative(tok: Seq<char>) -> bool {
    tok.len() > 0 && tok[0] == '-'
}

/// The unsigned integer that `tok` writes: an optional `+`, then one or more
/// decimal digits and nothing else, with a value of at most `max`.
pub open spec fn unsigned_of(tok: Seq<char>, max: nat) -> Option<nat> {
    let digits = unsigned_digits(tok);
    if digits.len() > 0 && all_digits(digits) && digits_value(digits) <= max {
        Some(digits_value(digits))
    } else {
        None
    }
}

/// The signed integer that `tok` writes: an optional `+` or `-`, then one or
/// more decimal digits and nothing else, with a value from `min` to `max`.
pub open spec fn signed_of(tok: Seq<char>, min: int, max: int) -> Option<int> {
    let digits = signed_digits(tok);
    let value = if is_negative(tok) {
        -(digits_value(digits) as int)
    } else {
        digits_value(digits) as int
    };
    if digits.len() > 0 && all_digits(digits) && min <= value <= max {
        Some(value)
    } else {
        None
    }
}

/// The `u64` that `tok` writes, if it writes one.
pub open spec fn u64_of(tok: Seq<char>) -> Option<u64> {
    match unsigned_of(tok, u64::MAX as nat) {
        Some(n) => Some(n as u64),
        None => None,
    }
}

/// The `u16` that `tok` writes, if it writes one.
pub open spec fn u16_of(tok: Seq<char>) -> Option<u16> {
    match unsigned_of(tok, u16::MAX as nat) {
        Some(n) => Some(n as u16),
        None => None,
    }
}

/// The `u8` that `tok` writes, if it writes one.
pub open spec fn u8_of(tok: Seq<char>) -> Option<u8> {
    match unsigned_of(tok, u8::MAX as nat) {
        Some(n) => Some(n as u8),
        None => None,
    }
}

/// The `i32` that `tok` writes, if it writes one.
pub open spec fn i32_of(tok: Seq<char>) -> Option<i32> {
    match signed_of(tok, i32::MIN as int, i32::MAX as int) {
        Some(n) => Some(n as i32),
        None => None,
    }
}

/// A decimal fraction, kept exact: the number `digits / 10^scale`, negated
/// where `negative` is set. `scale` is the count of digits that the text
/// had after its decimal point, so the text `1.50` is kept as 150 with
/// scale 2.
#[derive(Debug, Clone, Copy, PartialEq, Eq, Structural)]
pub struct Decimal {
    pub negative: bool,
    pub digits: u64,
    pub scale: usize,
}

/// The digits that `body` has before its decimal point.
pub open spec fn whole_part(body: Seq<char>) -> Seq<char> {
    body.take(crate::grammar::until(body, '.') as int)
}

/// The digits that `body` has after its decimal point; none where it has no
/// point.
pub open spec fn fraction_part(body: Seq<char>) -> Seq<char> {
    let p = crate::grammar::until(body, '.') as int;
    if p < body.len() {
        body.skip(p + 1)
    } else {
        Seq::empty()
    }
}

/// The decimal fraction that `tok` writes: an optional `+` or `-`, then
/// decimal digits with at most one `.` among them, before them or after
/// them. There is at least one digit, and the digits without the point
/// write a number of at most `u64::MAX`. No exponent is read, and no
/// name of a non-number.
pub open spec fn decimal_of(tok: Seq<char>) -> Option<Decimal> {
    let body = signed_digits(tok);
    let whole = whole_part(body);
    let fraction = fraction_part(body);
    if whole.len() + fraction.len() > 0 && all_digits(whole) && all_digits(fraction)
        && digits_value(whole + fraction) <= u64::MAX {
        Some(
            Decimal {
                negative: is_negative(tok),
                digits: digits_value(whole + fraction) as u64,
                scale: fraction.len() as usize,
            },
        )
    } else {
        None
    }
}

impl Decimal {
    /// The number zero, written without a fraction.
    pub open spec fn zero() -> Decimal {
        Decimal { negative: false, digits: 0, scale: 0 }
    }
}

/// Reading on never lowers the number read so far.
pub proof fn lemma_extend_grows(head: nat, s: Seq<char>, k: int)
    requires
        0 <= k <= s.len(),
    ensures
        extend(head, s.take(k)) <= extend(head, s),
    decreases s.len(),
{
    if k < s.len() {
        lemma_extend_grows(head, s.drop_last(), k);
        assert(s.drop_last().take(k) =~= s.take(k));
    } else {
        assert(s.take(k) =~= s);
    }
}

/// Reading `a` and then `b` is reading `a + b`.
pub proof fn lemma_extend_concat(head: nat, a: Seq<char>, b: Seq<char>)
    ensures
        extend(head, a + b) == extend(extend(head, a), b),
    decreases b.len(),
{
    if b.len() == 0 {
        assert(a + b =~= a);
    } else {
        lemma_extend_concat(head, a, b.drop_last());
        assert((a + b).drop_last() =~= a + b.drop_last());
    }
}

/// Tells whether `c` is a decimal digit.
pub fn digit(c: char) -> (r: bool)
    ensures
        r == is_digit(c),
{
    let n: u32 = c as u32;
    48 <= n && n <= 57
}

/// Reads the characters of `chars` from `from` up to `to` as digits that
/// follow the number `head`, and gives the number read where they are all
/// digits and it stays within `limit`.
pub fn read_digits(chars: &Vec<char>, from: usize, to: usize, head: u64, limit: u64) -> (r: Option<
    u64,
>)
    requires
        from <= to <= chars.len(),
        head <= limit,
    ensures
        r == ({
            let s = chars@.subrange(from as int, to as int);
            if all_digits(s) && extend(head as nat, s) <= limit {
                Some(extend(head as nat, s) as u64)
            } else {
                None
            }
        }),
{
    let ghost s = chars@.subrange(from as int, to as int);
    let mut acc: u64 = head;
    let mut i: usize = from;
    assert(s.take(0) =~= Seq::<char>::empty());
    while i < to
        invariant
            from <= i <= to <= chars.len(),
            s == chars@.subrange(from as int, to as int),
            all_digits(s.take(i - from)),
            acc == extend(head as nat, s.take(i - from)),
            acc <= limit,
        decreases to - i,
    {
        let c = chars[i];
        let ghost next = s.take(i - from + 1);
        proof {
            assert(next.drop_last() =~= s.take(i - from));
            assert(next.last() == c);
            lemma_extend_grows(head as nat, s, i - from + 1);
        }
        if !digit(c) {
            assert(!is_digit(s[i - from]));
            return None;
        }
        let d: u64 = (c as u32 - 48) as u64;
        if d > limit || acc > (limit - d) / 10 {
            assert(extend(head as nat, next) > limit);
            return None;
        }
        acc = acc * 10 + d;
        i += 1;
        assert forall|k: int| 0 <= k < next.len() implies is_digit(#[trigger] next[k]) by {
            if k < next.len() - 1 {
                assert(next[k] == s.take(i - from - 1)[k]);
            }
        }
    }
    assert(s.take(to - from) =~= s);
    Some(acc)
}

/// Decodes an unsigned integer of at most `limit`.
pub fn decode_unsigned(tok: &Vec<char>, limit: u64) -> (r: Option<u64>)
    ensures
        r == match unsigned_of(tok@, limit as nat) {
            Some(n) => Some(n as u64),
            None => None,
        },
{
    let n: usize = tok.len();
    let start: usize = if n > 0 && tok[0] == '+' {
        1
    } else {
        0
    };
    assert(tok@.subrange(start as int, n as int) =~= unsigned_digits(tok@));
    if start == n {
        return None;
    }
    read_digits(tok, start, n, 0, limit)
}

/// Decodes a `u64`.
pub fn decode_u64(tok: &Vec<char>) -> (r: Option<u64>)
    ensures
        r == u64_of(tok@),
{
    decode_unsigned(tok, u64::MAX)
}

/// Decodes a `u16`.
pub fn decode_u16(tok: &Vec<char>) -> (r: Option<u16>)
    ensures
        r == u16_of(tok@),
{
    match decode_unsigned(tok, 0xffff) {
        Some(n) => Some(n as u16),
        None => None,
    }
}

/// Decodes a `u8`.
pub fn decode_u8(tok: &Vec<char>) -> (r: Option<u8>)
    ensures
        r == u8_of(tok@),
{
    match decode_unsigned(tok, 0xff) {
        Some(n) => Some(n as u8),
        None => None,
    }
}

/// Decodes an `i32`.
pub fn decode_i32(tok: &Vec<char>) -> (r: Option<i32>)
    ensures
        r == i32_of(tok@),
{
    let n: usize = tok.len();
    let negative: bool = n > 0 && tok[0] == '-';
    let start: usize = if n > 0 && (tok[0] == '+' || tok[0] == '-') {
        1
    } else {
        0
    };
    assert(tok@.subrange(start as int, n as int) =~= signed_digits(tok@));
    if start == n {
        return None;
    }
    let limit: u64 = if negative {
        0x8000_0000
    } else {
        0x7fff_ffff
    };
    match read_digits(tok, start, n, 0, limit) {
        Some(m) => {
            if negative {
                Some((0 - (m as i64)) as i32)
            } else {
                Some(m as i32)
            }
        },
        None => None,
    }
}

/// Decodes a decimal fraction.
pub fn decode_decimal(tok: &Vec<char>) -> (r: Option<Decimal>)
    ensures
        r == decimal_of(tok@),
{
    let n: usize = tok.len();
    let negative: bool = n > 0 && tok[0] == '-';
    let start: usize = if n > 0 && (tok[0] == '+' || tok[0] == '-') {
        1
    } else {
        0
    };
    let ghost body = tok@.subrange(start as int, n as int);
    assert(body =~= signed_digits(tok@));
    let point: usize = crate::grammar::find(tok, start, n, '.');
    let after: usize = if point < n {
        point + 1
    } else {
        n
    };
    proof {
        assert(tok@.subrange(start as int, point as int) =~= whole_part(body));
        assert(tok@.subrange(after as int, n as int) =~= fraction_part(body));
        lemma_extend_concat(0, whole_part(body), fraction_part(body));
    }
    if (point - start) + (n - after) == 0 {
        return None;
    }
    match read_digits(tok, start, point, 0, u64::MAX) {
        Some(whole) => match read_digits(tok, after, n, whole, u64::MAX) {
            Some(digits) => Some(Decimal { negative, digits, scale: n - after }),
            None => None,
        },
        None => {
            proof {
                if all_digits(whole_part(body)) {
                    lemma_extend_grows(digits_value(whole_part(body)), fraction_part(body), 0);
                    assert(fraction_part(body).take(0) =~= Seq::<char>::empty());
                }
            }
            None
        },
    }
}

/// The character that writes the digit `d`.
pub open spec fn digit_char(d: nat) -> char {
    if d == 0 {
        '0'
    } else if d == 1 {
        '1'
    } else if d == 2 {
        '2'
    } else if d == 3 {
        '3'
    } else if d == 4 {
        '4'
    } else if d == 5 {
        '5'
    } else if d == 6 {
        '6'
    } else if d == 7 {
        '7'
    } else if d == 8 {
        '8'
    } else {
        '9'
    }
}

/// The digits that write `n` in base 10, without leading zeros.
pub open spec fn decimal_text(n: nat) -> Seq<char>
    decreases n,
{
    if n < 10 {
        seq![digit_char(n)]
    } else {
        decimal_text(n / 10).push(digit_char(n % 10))
    }
}

/// What is written of a number is decoded to that number: the text of `n`
/// is one or more digits and nothing else, and their value is `n`.
pub proof fn lemma_decimal_text_decodes(n: nat)
    ensures
        decimal_text(n).len() > 0,
        all_digits(decimal_text(n)),
        digits_value(decimal_text(n)) == n,
        unsigned_of(decimal_text(n), n) == Some(n),
    decreases n,
{
    let text = decimal_text(n);
    if n < 10 {
        assert(text.drop_last() =~= Seq::<char>::empty());
        assert(extend(0, text.drop_last()) == 0);
        assert(digit_value(text.last()) == n);
    } else {
        lemma_decimal_text_decodes(n / 10);
        assert(text.drop_last() =~= decimal_text(n / 10));
        assert(digit_value(text.last()) == n % 10);
        assert forall|i: int| 0 <= i < text.len() implies is_digit(#[trigger] text[i]) by {
            if i < text.len() - 1 {
                assert(text[i] == decimal_text(n / 10)[i]);
            }
        }
    }
    assert(extend(0, text) == extend(0, text.drop_last()) * 10 + digit_value(text.last()));
    assert(is_digit(text[0]));
    assert(unsigned_digits(text) == text);
}

/// The text of one digit.
fn digit_text(d: u64) -> (text: &'static str)
    requires
        d < 10,
    ensures
        text@ == seq![digit_char(d as nat)],
{
    proof {
        reveal_strlit("0");
        reveal_strlit("1");
        reveal_strlit("2");
        reveal_strlit("3");
        reveal_strlit("4");
        reveal_strlit("5");
        reveal_strlit("6");
        reveal_strlit("7");
        reveal_strlit("8");
        reveal_strlit("9");
    }
    let text = if d == 0 {
        "0"
    } else if d == 1 {
        "1"
    } else if d == 2 {
        "2"
    } else if d == 3 {
        "3"
    } else if d == 4 {
        "4"
    } else if d == 5 {
        "5"
    } else if d == 6 {
        "6"
    } else if d == 7 {
        "7"
    } else if d == 8 {
        "8"
    } else {
        "9"
    };
    assert(text@ =~= seq![digit_char(d as nat)]);
    text
}

/// Writes `n` in base 10 at the end of `out`.
pub fn write_number(out: &mut String, n: u64)
    ensures
        final(out)@ == old(out)@ + decimal_text(n as nat),
    decreases n,
{
    if n >= 10 {
        write_number(out, n / 10);
    }
    out.append(digit_text(n % 10));
    assert(out@ =~= old(out)@ + decimal_text(n as nat));
}

} // verus!
