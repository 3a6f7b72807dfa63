//! Base58, the text form of Solana keys and block hashes.
use num_bigint::BigUint;
use num_traits::ToPrimitive;
use vstd::prelude::*;
use vstd::slice::slice_to_vec;
use vstd::string::*;

use crate::text::{
    chars_of, find_char, find_char_at, find_char_none, find_in_range, joined, result_is, show_char,
    shown_char,
};

verus! {

// ---------------------------------------------------------------------------------------------
// Large numbers, held as their bytes, the most significant first
// ---------------------------------------------------------------------------------------------
/// The number that the bytes write, the most significant first.
pub open spec fn be_value(bytes: Seq<u8>) -> nat
    decreases bytes.len(),
{
    if bytes.len() == 0 {
        0
    } else {
        be_value(bytes.drop_last()) * 256 + bytes.last() as nat
    }
}

/// The bytes that write `n`, the most significant first: no zero byte in front, but one zero byte
/// for zero itself.
pub open spec fn be_bytes(n: nat) -> Seq<u8>
    decreases n,
{
    if n < 256 {
        seq![n as u8]
    } else {
        be_bytes(n / 256).push((n % 256) as u8)
    }
}

/// `%` of `num_bigint::BigUint`: the remainder of the number that the bytes write.
#[verifier::external_body]
fn big_rem(num: &[u8], base: u32) -> (r: u64)
    requires
        base > 0,
    ensures
        r == be_value(num@) % (base as nat),
{
    (BigUint::from_bytes_be(num) % &BigUint::from(base)).to_u64().unwrap()
}

/// `/` of `num_bigint::BigUint`: the quotient of the number that the bytes write, as
/// `BigUint::to_bytes_be` writes it.
#[verifier::external_body]
fn big_div(num: &[u8], base: u32) -> (r: Vec<u8>)
    requires
        base > 0,
    ensures
        r@ == be_bytes(be_value(num@) / (base as nat)),
{
    (BigUint::from_bytes_be(num) / &BigUint::from(base)).to_bytes_be()
}

/// `*` of `num_bigint::BigUint`: the product with the number that the bytes write, as
/// `BigUint::to_bytes_be` writes it.
#[verifier::external_body]
fn big_mul(num: &[u8], factor: u32) -> (r: Vec<u8>)
    ensures
        r@ == be_bytes(be_value(num@) * (factor as nat)),
{
    (BigUint::from_bytes_be(num) * &BigUint::from(factor)).to_bytes_be()
}

/// `+` of `num_bigint::BigUint`: the sum with the number that the bytes write, as
/// `BigUint::to_bytes_be` writes it.
#[verifier::external_body]
fn big_add(num: &[u8], term: u32) -> (r: Vec<u8>)
    ensures
        r@ == be_bytes(be_value(num@) + (term as nat)),
{
    (BigUint::from_bytes_be(num) + BigUint::from(term)).to_bytes_be()
}

/// The bytes of a number write that number.
pub proof fn be_bytes_value(n: nat)
    ensures
        be_value(be_bytes(n)) == n,
        be_bytes(n).len() >= 1,
        n > 0 ==> be_bytes(n)[0] != 0,
    decreases n,
{
    if n < 256 {
        assert(be_bytes(n).drop_last() == Seq::<u8>::empty());
        assert(be_value(Seq::<u8>::empty()) == 0);
    } else {
        be_bytes_value(n / 256);
        assert(be_bytes(n).drop_last() == be_bytes(n / 256));
    }
}

/// Tells whether the bytes write zero.
fn all_zero(bytes: &Vec<u8>) -> (r: bool)
    ensures
        r == (be_value(bytes@) == 0),
{
    let mut i: usize = 0;
    while i < bytes.len()
        invariant
            i <= bytes@.len(),
            be_value(bytes@.take(i as int)) == 0,
        decreases bytes.len() - i,
    {
        assert(bytes@.take(i + 1).drop_last() == bytes@.take(i as int));
        if bytes[i] != 0 {
            proof {
                be_value_grows(bytes@, i + 1);
            }
            return false;
        }
        i = i + 1;
    }
    assert(bytes@.take(i as int) == bytes@);
    true
}

/// More bytes at the end write no smaller a number.
proof fn be_value_grows(bytes: Seq<u8>, i: int)
    requires
        0 <= i <= bytes.len(),
    ensures
        be_value(bytes.take(i)) <= be_value(bytes),
    decreases bytes.len() - i,
{
    if i < bytes.len() {
        assert(bytes.take(i + 1).drop_last() == bytes.take(i));
        be_value_grows(bytes, i + 1);
    } else {
        assert(bytes.take(i) == bytes);
    }
}

// ---------------------------------------------------------------------------------------------
// The digits
// ---------------------------------------------------------------------------------------------
/// The base58 digits, in the order of their values.
pub open spec fn alphabet() -> Seq<char> {
    "123456789ABCDEFGHJKLMNPQRSTUVWXYZabcdefghijkmnopqrstuvwxyz"@
}

/// The code of the base58 digit of value `d`.
spec fn digit_code(d: int) -> int {
    if d < 9 {
        49 + d
    } else if d < 17 {
        65 + (d - 9)
    } else if d < 22 {
        74 + (d - 17)
    } else if d < 33 {
        80 + (d - 22)
    } else if d < 44 {
        97 + (d - 33)
    } else {
        109 + (d - 44)
    }
}

/// The alphabet has 58 digits, in the order of their codes.
proof fn alphabet_codes()
    ensures
        alphabet().len() == 58,
        forall|i: int| 0 <= i < 58 ==> #[trigger] alphabet()[i] as int == digit_code(i),
{
    reveal_strlit("123456789ABCDEFGHJKLMNPQRSTUVWXYZabcdefghijkmnopqrstuvwxyz");
    let a = alphabet();
    assert forall|i: int| 0 <= i < 58 implies #[trigger] a[i] as int == digit_code(i) by {
        assert(i == 0 || i == 1 || i == 2 || i == 3 || i == 4 || i == 5 || i == 6 || i == 7 || i
            == 8 || i == 9 || i == 10 || i == 11 || i == 12 || i == 13 || i == 14 || i == 15 || i
            == 16 || i == 17 || i == 18 || i == 19 || i == 20 || i == 21 || i == 22 || i == 23 || i
            == 24 || i == 25 || i == 26 || i == 27 || i == 28 || i == 29 || i == 30 || i == 31 || i
            == 32 || i == 33 || i == 34 || i == 35 || i == 36 || i == 37 || i == 38 || i == 39 || i
            == 40 || i == 41 || i == 42 || i == 43 || i == 44 || i == 45 || i == 46 || i == 47 || i
            == 48 || i == 49 || i == 50 || i == 51 || i == 52 || i == 53 || i == 54 || i == 55 || i
            == 56 || i == 57);
    }
}

/// The value that decoding takes a character for: the place in the alphabet of the character whose
/// code is the low byte of the character's own code. It is 58 where the alphabet has none.
pub open spec fn digit_value(c: char) -> int {
    find_char(alphabet(), (((c as u32) % 256) as u8) as char)
}

/// A digit's value is its place in the alphabet.
proof fn digit_value_of_digit(i: int)
    requires
        0 <= i < 58,
    ensures
        digit_value(alphabet()[i]) == i,
{
    alphabet_codes();
    let c = alphabet()[i];
    assert((((c as u32) % 256) as u8) as char == c);
    assert forall|j: int| 0 <= j < i implies #[trigger] alphabet()[j] != c by {
        assert(alphabet()[j] as int == digit_code(j));
    }
    find_char_at(alphabet(), c, i);
}

// ---------------------------------------------------------------------------------------------
// Encoding
// ---------------------------------------------------------------------------------------------
/// How many zero bytes the bytes start with.
pub open spec fn leading_zeros(bytes: Seq<u8>) -> nat
    decreases bytes.len(),
{
    if bytes.len() > 0 && bytes[0] == 0 {
        1 + leading_zeros(bytes.drop_first())
    } else {
        0
    }
}

/// The base58 digits of a number, none for zero.
pub open spec fn digits(n: nat) -> Seq<char>
    decreases n,
{
    if n == 0 {
        Seq::empty()
    } else {
        digits(n / 58).push(alphabet()[(n % 58) as int])
    }
}

/// The base58 text of some bytes: a `1` for each zero byte in front, then the digits of the number
/// that the bytes write.
pub open spec fn base58_text(bytes: Seq<u8>) -> Seq<char> {
    Seq::new(leading_zeros(bytes), |i: int| '1') + digits(be_value(bytes))
}

/// Writes bytes in base58.
pub fn base58_encode(bytes: &[u8]) -> (r: String)
    ensures
        r@ == base58_text(bytes@),
{
    let mut zeros: usize = 0;
    assert(bytes@.skip(0) == bytes@);
    while zeros < bytes.len() && bytes[zeros] == 0
        invariant
            zeros <= bytes@.len(),
            leading_zeros(bytes@) == zeros + leading_zeros(bytes@.skip(zeros as int)),
        decreases bytes.len() - zeros,
    {
        assert(bytes@.skip(zeros as int).drop_first() == bytes@.skip(zeros + 1));
        zeros = zeros + 1;
    }
    let symbols = chars_of("123456789ABCDEFGHJKLMNPQRSTUVWXYZabcdefghijkmnopqrstuvwxyz");
    proof {
        alphabet_codes();
    }
    let mut num: Vec<u8> = slice_to_vec(bytes);
    let mut low_first: Vec<char> = Vec::new();
    while !all_zero(&num)
        invariant
            symbols@ == alphabet(),
            alphabet().len() == 58,
            digits(be_value(bytes@)) == digits(be_value(num@)) + low_first@.reverse(),
        decreases be_value(num@),
    {
        let ghost before = be_value(num@);
        let rem = big_rem(num.as_slice(), 58);
        let c = symbols[rem as usize];
        num = big_div(num.as_slice(), 58);
        proof {
            be_bytes_value(before / 58);
            assert(digits(before) == digits(before / 58).push(c));
            assert(low_first@.push(c).reverse() == seq![c] + low_first@.reverse());
        }
        low_first.push(c);
    }
    let mut r = String::new();
    let mut i: usize = 0;
    while i < zeros
        invariant
            i <= zeros,
            r@ == Seq::new(i as nat, |i: int| '1'),
        decreases zeros - i,
    {
        r.push('1');
        i = i + 1;
    }
    let mut left: usize = low_first.len();
    while left > 0
        invariant
            left <= low_first@.len(),
            r@ == Seq::new(zeros as nat, |i: int| '1') + low_first@.reverse().take(
                low_first@.len() - left,
            ),
        decreases left,
    {
        left = left - 1;
        r.push(low_first[left]);
    }
    r
}

// ---------------------------------------------------------------------------------------------
// Decoding
// ---------------------------------------------------------------------------------------------
/// How many `1` the text starts with.
pub open spec fn leading_ones(s: Seq<char>) -> nat
    decreases s.len(),
{
    if s.len() > 0 && s[0] == '1' {
        1 + leading_ones(s.drop_first())
    } else {
        0
    }
}

/// The number that base58 digits write.
pub open spec fn digits_value(s: Seq<char>) -> nat
    decreases s.len(),
{
    if s.len() == 0 {
        0
    } else {
        (digits_value(s.drop_last()) * 58 + digit_value(s.last())) as nat
    }
}

/// The index of the first character that is no digit, or the length of `s` where all are.
pub open spec fn first_bad(s: Seq<char>) -> int
    decreases s.len(),
{
    if s.len() == 0 || digit_value(s[0]) >= 58 {
        0
    } else {
        1 + first_bad(s.drop_first())
    }
}

/// What decoding makes of a text: the bytes, or the message about the first character that is no
/// digit.
pub open spec fn base58_bytes(s: Seq<char>) -> Result<Seq<u8>, Seq<char>> {
    if s.len() == 0 {
        Ok(Seq::empty())
    } else if first_bad(s) < s.len() {
        Err("base58_decode: invalid character "@ + shown_char(s[first_bad(s)]))
    } else {
        Ok(Seq::new(leading_ones(s), |i: int| 0u8) + be_bytes(digits_value(s)))
    }
}

/// Reads base58.
///
/// The bytes are a zero byte for each `1` in front, then the bytes of the number that the digits
/// write, which for zero is one more zero byte.
pub fn base58_decode(s: &str) -> (r: Result<Vec<u8>, String>)
    ensures
        result_is(r, base58_bytes(s@)),
{
    let chars = chars_of(s);
    if chars.len() == 0 {
        return Ok(Vec::new());
    }
    let mut ones: usize = 0;
    assert(chars@.skip(0) == chars@);
    while ones < chars.len() && chars[ones] == '1'
        invariant
            ones <= chars@.len(),
            leading_ones(chars@) == ones + leading_ones(chars@.skip(ones as int)),
        decreases chars.len() - ones,
    {
        assert(chars@.skip(ones as int).drop_first() == chars@.skip(ones + 1));
        ones = ones + 1;
    }
    let symbols = chars_of("123456789ABCDEFGHJKLMNPQRSTUVWXYZabcdefghijkmnopqrstuvwxyz");
    proof {
        alphabet_codes();
        assert(symbols@.subrange(0, 58) == alphabet());
    }
    let mut num: Vec<u8> = vec![0];
    proof {
        be_bytes_value(0);
        assert(num@ == be_bytes(0));
    }
    let mut i: usize = 0;
    while i < chars.len()
        invariant
            s@ == chars@,
            i <= chars@.len(),
            chars@.len() > 0,
            symbols@.len() == 58,
            symbols@.subrange(0, 58) == alphabet(),
            num@ == be_bytes(digits_value(chars@.take(i as int))),
            first_bad(chars@) == i + first_bad(chars@.skip(i as int)),
        decreases chars.len() - i,
    {
        let c = chars[i];
        let low: u8 = ((c as u32) % 256) as u8;
        let idx = find_in_range(&symbols, 0, 58, low as char);
        if idx >= 58 {
            return Err(joined("base58_decode: invalid character ", show_char(c).as_str()));
        }
        let scaled = big_mul(num.as_slice(), 58);
        let ghost before = digits_value(chars@.take(i as int));
        proof {
            be_bytes_value(before);
            be_bytes_value(before * 58);
            assert(chars@.take(i + 1).drop_last() == chars@.take(i as int));
            assert(chars@.skip(i as int).drop_first() == chars@.skip(i + 1));
        }
        num = big_add(scaled.as_slice(), idx as u32);
        i = i + 1;
    }
    assert(chars@.take(i as int) == chars@);
    let mut r: Vec<u8> = Vec::new();
    let mut k: usize = 0;
    while k < ones
        invariant
            k <= ones,
            r@ == Seq::new(k as nat, |i: int| 0u8),
        decreases ones - k,
    {
        r.push(0);
        k = k + 1;
    }
    r.append(&mut num);
    Ok(r)
}

// ---------------------------------------------------------------------------------------------
// Laws
// ---------------------------------------------------------------------------------------------
/// Whether every byte is zero.
pub open spec fn zeros_only(bytes: Seq<u8>) -> bool {
    forall|i: int| 0 <= i < bytes.len() ==> bytes[i] == 0
}

/// Whether every character is a `1`.
pub open spec fn ones_only(s: Seq<char>) -> bool {
    forall|i: int| 0 <= i < s.len() ==> s[i] == '1'
}

proof fn leading_zeros_facts(bytes: Seq<u8>)
    ensures
        leading_zeros(bytes) <= bytes.len(),
        bytes.take(leading_zeros(bytes) as int) == Seq::new(leading_zeros(bytes), |i: int| 0u8),
        leading_zeros(bytes) < bytes.len() ==> bytes[leading_zeros(bytes) as int] != 0,
        leading_zeros(bytes) == bytes.len() ==> zeros_only(bytes),
    decreases bytes.len(),
{
    if bytes.len() > 0 && bytes[0] == 0 {
        let rest = bytes.drop_first();
        leading_zeros_facts(rest);
        let k = leading_zeros(rest) as int;
        assert forall|i: int| 0 <= i < k + 1 implies bytes[i] == 0 by {
            if i > 0 {
                assert(bytes[i] == rest[i - 1]);
                assert(rest.take(k)[i - 1] == 0);
            }
        }
        assert(bytes.take(k + 1) == Seq::new((k + 1) as nat, |i: int| 0u8));
    } else {
        assert(bytes.take(0) == Seq::new(0, |i: int| 0u8));
    }
}

proof fn leading_ones_facts(s: Seq<char>)
    ensures
        leading_ones(s) <= s.len(),
        s.take(leading_ones(s) as int) == Seq::new(leading_ones(s), |i: int| '1'),
        leading_ones(s) < s.len() ==> s[leading_ones(s) as int] != '1',
        leading_ones(s) == s.len() ==> ones_only(s),
    decreases s.len(),
{
    if s.len() > 0 && s[0] == '1' {
        let rest = s.drop_first();
        leading_ones_facts(rest);
        let k = leading_ones(rest) as int;
        assert forall|i: int| 0 <= i < k + 1 implies s[i] == '1' by {
            if i > 0 {
                assert(s[i] == rest[i - 1]);
                assert(rest.take(k)[i - 1] == '1');
            }
        }
        assert(s.take(k + 1) == Seq::new((k + 1) as nat, |i: int| '1'));
    } else {
        assert(s.take(0) == Seq::new(0, |i: int| '1'));
    }
}

/// Zeros in front of something that starts otherwise are counted exactly.
proof fn leading_zeros_of(k: nat, tail: Seq<u8>)
    requires
        tail.len() > 0 ==> tail[0] != 0,
    ensures
        leading_zeros(Seq::new(k, |i: int| 0u8) + tail) == k,
    decreases k,
{
    let all = Seq::new(k, |i: int| 0u8) + tail;
    if k == 0 {
        assert(all == tail);
    } else {
        leading_zeros_of((k - 1) as nat, tail);
        assert(all.drop_first() == Seq::new((k - 1) as nat, |i: int| 0u8) + tail);
    }
}

proof fn leading_ones_of(k: nat, tail: Seq<char>)
    requires
        tail.len() > 0 ==> tail[0] != '1',
    ensures
        leading_ones(Seq::new(k, |i: int| '1') + tail) == k,
    decreases k,
{
    let all = Seq::new(k, |i: int| '1') + tail;
    if k == 0 {
        assert(all == tail);
    } else {
        leading_ones_of((k - 1) as nat, tail);
        assert(all.drop_first() == Seq::new((k - 1) as nat, |i: int| '1') + tail);
    }
}

/// Zero bytes in front write nothing.
proof fn be_value_of_zeros(k: nat, tail: Seq<u8>)
    ensures
        be_value(Seq::new(k, |i: int| 0u8) + tail) == be_value(tail),
    decreases k + tail.len(),
{
    let all = Seq::new(k, |i: int| 0u8) + tail;
    if tail.len() > 0 {
        be_value_of_zeros(k, tail.drop_last());
        assert(all.drop_last() == Seq::new(k, |i: int| 0u8) + tail.drop_last());
    } else if k > 0 {
        be_value_of_zeros((k - 1) as nat, tail);
        assert(all.drop_last() == Seq::new((k - 1) as nat, |i: int| 0u8) + tail);
    } else {
        assert(all == tail);
    }
}

/// Bytes that start with no zero are the bytes of the number that they write.
proof fn be_bytes_of_value(bytes: Seq<u8>)
    requires
        bytes.len() > 0,
        bytes[0] != 0,
    ensures
        be_value(bytes) > 0,
        be_bytes(be_value(bytes)) == bytes,
    decreases bytes.len(),
{
    let front = bytes.drop_last();
    if front.len() == 0 {
        assert(be_value(front) == 0);
        assert(bytes == seq![bytes[0]]);
    } else {
        be_bytes_of_value(front);
        let n = be_value(bytes);
        assert(n / 256 == be_value(front));
        assert(n % 256 == bytes.last());
        assert(front.push(bytes.last()) == bytes);
    }
}

/// A `1` in front of digits writes nothing.
proof fn digits_value_of_ones(k: nat, tail: Seq<char>)
    ensures
        digits_value(Seq::new(k, |i: int| '1') + tail) == digits_value(tail),
    decreases k + tail.len(),
{
    let all = Seq::new(k, |i: int| '1') + tail;
    if tail.len() > 0 {
        digits_value_of_ones(k, tail.drop_last());
        assert(all.drop_last() == Seq::new(k, |i: int| '1') + tail.drop_last());
    } else if k > 0 {
        digits_value_of_ones((k - 1) as nat, tail);
        assert(all.drop_last() == Seq::new((k - 1) as nat, |i: int| '1') + tail);
        alphabet_codes();
        assert(alphabet()[0] as int == digit_code(0));
        digit_value_of_digit(0);
    } else {
        assert(all == tail);
    }
}

/// The digits of a number are digits, write that number and start with no `1`.
proof fn digits_facts(n: nat)
    ensures
        forall|i: int| 0 <= i < digits(n).len() ==> digit_value(#[trigger] digits(n)[i]) < 58,
        digits_value(digits(n)) == n,
        n > 0 ==> digits(n).len() > 0 && digits(n)[0] != '1',
    decreases n,
{
    if n > 0 {
        digits_facts(n / 58);
        alphabet_codes();
        let d = (n % 58) as int;
        digit_value_of_digit(d);
        assert(digits(n).drop_last() == digits(n / 58));
        assert forall|i: int| 0 <= i < digits(n).len() implies digit_value(
            #[trigger] digits(n)[i],
        ) < 58 by {
            if i < digits(n / 58).len() {
                assert(digits(n)[i] == digits(n / 58)[i]);
            }
        }
        if n / 58 == 0 {
            assert(alphabet()[d] as int == digit_code(d));
        }
    }
}

/// Digits of the alphabet that start with no `1` are the digits of the number that they write.
proof fn digits_of_value(s: Seq<char>)
    requires
        s.len() > 0,
        s[0] != '1',
        forall|i: int| 0 <= i < s.len() ==> alphabet().contains(#[trigger] s[i]),
    ensures
        digits_value(s) > 0,
        digits(digits_value(s)) == s,
    decreases s.len(),
{
    alphabet_codes();
    let front = s.drop_last();
    let c = s.last();
    assert(alphabet().contains(s[s.len() - 1]));
    let d = alphabet().index_of(c);
    digit_value_of_digit(d);
    let n = digits_value(s);
    if front.len() == 0 {
        assert(digits_value(front) == 0);
        assert(alphabet()[0] as int == digit_code(0));
        assert(d > 0);
        assert(digits(n / 58) == Seq::<char>::empty());
        assert(s == seq![c]);
    } else {
        assert forall|i: int| 0 <= i < front.len() implies alphabet().contains(
            #[trigger] front[i],
        ) by {
            assert(front[i] == s[i]);
        }
        digits_of_value(front);
        assert(n / 58 == digits_value(front));
        assert(n % 58 == d);
        assert(front.push(c) == s);
    }
}

/// A text all of whose characters are digits has no bad character.
proof fn no_bad(s: Seq<char>)
    requires
        forall|i: int| 0 <= i < s.len() ==> digit_value(#[trigger] s[i]) < 58,
    ensures
        first_bad(s) == s.len(),
    decreases s.len(),
{
    if s.len() > 0 {
        assert(digit_value(s[0]) < 58);
        assert forall|i: int| 0 <= i < s.drop_first().len() implies digit_value(
            #[trigger] s.drop_first()[i],
        ) < 58 by {
            assert(s.drop_first()[i] == s[i + 1]);
        }
        no_bad(s.drop_first());
    }
}

/// Decoding what was encoded gives the bytes back, unless they are one or more zero bytes and
/// nothing else.
pub proof fn decoding_undoes_encoding(bytes: Seq<u8>)
    requires
        bytes.len() == 0 || !zeros_only(bytes),
    ensures
        base58_bytes(base58_text(bytes)) == Ok::<Seq<u8>, Seq<char>>(bytes),
{
    if bytes.len() == 0 {
        assert(bytes == Seq::<u8>::empty());
        assert(base58_text(bytes) == Seq::<char>::empty());
    } else {
        let k = leading_zeros(bytes);
        let tail = bytes.skip(k as int);
        let text = base58_text(bytes);
        leading_zeros_facts(bytes);
        assert(bytes == Seq::new(k, |i: int| 0u8) + tail);
        be_value_of_zeros(k, tail);
        be_bytes_of_value(tail);
        let n = be_value(bytes);
        digits_facts(n);
        leading_ones_of(k, digits(n));
        digits_value_of_ones(k, digits(n));
        alphabet_codes();
        assert(alphabet()[0] as int == digit_code(0));
        digit_value_of_digit(0);
        assert forall|i: int| 0 <= i < text.len() implies digit_value(#[trigger] text[i]) < 58 by {
            if i < k {
                assert(text[i] == '1');
            } else {
                assert(text[i] == digits(n)[i - k]);
            }
        }
        no_bad(text);
        assert(text.len() > 0);
    }
}

/// Encoding what was decoded gives the text back, for a text of base58 digits that is empty or
/// holds something other than `1`.
pub proof fn encoding_undoes_decoding(s: Seq<char>)
    requires
        forall|i: int| 0 <= i < s.len() ==> alphabet().contains(#[trigger] s[i]),
        s.len() == 0 || !ones_only(s),
    ensures
        base58_bytes(s) is Ok,
        base58_text(base58_bytes(s)->Ok_0) == s,
{
    if s.len() == 0 {
        assert(base58_text(Seq::<u8>::empty()) == Seq::<char>::empty());
    } else {
        alphabet_codes();
        assert forall|i: int| 0 <= i < s.len() implies digit_value(#[trigger] s[i]) < 58 by {
            assert(alphabet().contains(s[i]));
            digit_value_of_digit(alphabet().index_of(s[i]));
        }
        no_bad(s);
        let k = leading_ones(s);
        let tail = s.skip(k as int);
        leading_ones_facts(s);
        assert(s == Seq::new(k, |i: int| '1') + tail);
        digits_value_of_ones(k, tail);
        assert forall|i: int| 0 <= i < tail.len() implies alphabet().contains(#[trigger] tail[i]) by {
            assert(tail[i] == s[i + k]);
        }
        digits_of_value(tail);
        let v = digits_value(s);
        be_bytes_value(v);
        leading_zeros_of(k, be_bytes(v));
        be_value_of_zeros(k, be_bytes(v));
    }
}

/// One or more zero bytes and nothing else come back from base58 with one zero byte more.
pub proof fn zeros_gain_one(k: nat)
    requires
        k > 0,
    ensures
        base58_bytes(base58_text(Seq::new(k, |i: int| 0u8))) == Ok::<Seq<u8>, Seq<char>>(
            Seq::new(k + 1, |i: int| 0u8),
        ),
{
    let bytes = Seq::new(k, |i: int| 0u8);
    let none = Seq::<char>::empty();
    leading_zeros_of(k, Seq::empty());
    be_value_of_zeros(k, Seq::empty());
    assert(bytes == Seq::new(k, |i: int| 0u8) + Seq::<u8>::empty());
    let text = base58_text(bytes);
    assert(text == Seq::new(k, |i: int| '1') + none);
    leading_ones_of(k, none);
    digits_value_of_ones(k, none);
    alphabet_codes();
    assert(alphabet()[0] as int == digit_code(0));
    digit_value_of_digit(0);
    no_bad(text);
    assert(Seq::new(k, |i: int| 0u8) + be_bytes(0) == Seq::new(k + 1, |i: int| 0u8));
}

/// Whether a character is an ASCII letter or digit.
pub open spec fn alphanumeric(c: char) -> bool {
    '0' <= c <= '9' || 'A' <= c <= 'Z' || 'a' <= c <= 'z'
}

/// A base58 text is made of letters and digits of the alphabet.
pub proof fn text_is_of_the_alphabet(bytes: Seq<u8>)
    ensures
        forall|i: int|
            0 <= i < base58_text(bytes).len() ==> alphabet().contains(
                #[trigger] base58_text(bytes)[i],
            ) && alphanumeric(base58_text(bytes)[i]),
{
    let text = base58_text(bytes);
    let k = leading_zeros(bytes);
    let n = be_value(bytes);
    alphabet_codes();
    digits_are_of_the_alphabet(n);
    assert(alphabet()[0] as int == digit_code(0));
    assert forall|i: int| 0 <= i < text.len() implies alphabet().contains(#[trigger] text[i])
        && alphanumeric(text[i]) by {
        if i < k {
            assert(text[i] == alphabet()[0]);
        } else {
            assert(text[i] == digits(n)[i - k]);
        }
    }
}

proof fn digits_are_of_the_alphabet(n: nat)
    ensures
        forall|i: int|
            0 <= i < digits(n).len() ==> alphabet().contains(#[trigger] digits(n)[i])
                && alphanumeric(digits(n)[i]),
    decreases n,
{
    if n > 0 {
        digits_are_of_the_alphabet(n / 58);
        alphabet_codes();
        let d = (n % 58) as int;
        assert(alphabet()[d] as int == digit_code(d));
        assert forall|i: int| 0 <= i < digits(n).len() implies alphabet().contains(
            #[trigger] digits(n)[i],
        ) && alphanumeric(digits(n)[i]) by {
            if i < digits(n / 58).len() {
                assert(digits(n)[i] == digits(n / 58)[i]);
            } else {
                assert(digits(n)[i] == alphabet()[d]);
            }
        }
    }
}

/// The alphabet is the 58 ASCII digits and letters other than `0`, `O`, `I` and `l`, in the order of
/// their codes.
pub proof fn the_alphabet()
    ensures
        alphabet().len() == 58,
        forall|i: int|
            0 <= i < 58 ==> alphanumeric(#[trigger] alphabet()[i]) && alphabet()[i] != '0'
                && alphabet()[i] != 'O' && alphabet()[i] != 'I' && alphabet()[i] != 'l',
        forall|i: int, j: int|
            0 <= i < j < 58 ==> (#[trigger] alphabet()[i]) < (#[trigger] alphabet()[j]),
{
    alphabet_codes();
    assert forall|i: int| 0 <= i < 58 implies alphanumeric(#[trigger] alphabet()[i]) && alphabet()[i]
        != '0' && alphabet()[i] != 'O' && alphabet()[i] != 'I' && alphabet()[i] != 'l' by {
        assert(alphabet()[i] as int == digit_code(i));
    }
    assert forall|i: int, j: int| 0 <= i < j < 58 implies (#[trigger] alphabet()[i]) < (
    #[trigger] alphabet()[j]) by {
        assert(alphabet()[i] as int == digit_code(i));
        assert(alphabet()[j] as int == digit_code(j));
    }
}

/// The character whose code is the low byte of that of a character. For an ASCII character it is
/// the character itself.
pub open spec fn low_byte(c: char) -> char {
    (((c as u32) % 256) as u8) as char
}

/// The number that bytes write in base 256.
pub open spec fn number_in_bytes(bytes: Seq<u8>) -> int {
    bytes.fold_left(0, |n: int, b: u8| n * 256 + b as int)
}

/// The number that characters write in base 58, each by its place in the alphabet.
pub open spec fn number_in_digits(s: Seq<char>) -> int {
    s.fold_left(0, |n: int, c: char| n * 58 + alphabet().index_of(low_byte(c)))
}

proof fn number_in_bytes_is_be_value(bytes: Seq<u8>)
    ensures
        number_in_bytes(bytes) == be_value(bytes),
    decreases bytes.len(),
{
    let f = |n: int, b: u8| n * 256 + b as int;
    if bytes.len() > 0 {
        number_in_bytes_is_be_value(bytes.drop_last());
        assert(bytes.fold_left(0, f) == f(bytes.drop_last().fold_left(0, f), bytes.last()));
    }
}

/// The place of a character in the alphabet is its value.
proof fn place_is_value(c: char)
    requires
        alphabet().contains(low_byte(c)),
    ensures
        0 <= digit_value(c) < 58,
        alphabet().index_of(low_byte(c)) == digit_value(c),
{
    the_alphabet();
    let d = low_byte(c);
    let i = alphabet().index_of(d);
    assert(0 <= i < 58 && alphabet()[i] == d);
    assert forall|j: int| 0 <= j < i implies #[trigger] alphabet()[j] != d by {
        assert(alphabet()[j] < alphabet()[i]);
    }
    find_char_at(alphabet(), d, i);
}

/// A character that is not in the alphabet has no value.
proof fn no_place_no_value(c: char)
    requires
        !alphabet().contains(low_byte(c)),
    ensures
        digit_value(c) == 58,
{
    the_alphabet();
    let d = low_byte(c);
    assert forall|j: int| 0 <= j < 58 implies #[trigger] alphabet()[j] != d by {
        assert(alphabet().contains(alphabet()[j]));
    }
    find_char_none(alphabet(), d);
}

proof fn number_in_digits_is_value(s: Seq<char>)
    requires
        forall|i: int| 0 <= i < s.len() ==> alphabet().contains(low_byte(#[trigger] s[i])),
    ensures
        number_in_digits(s) == digits_value(s),
    decreases s.len(),
{
    let f = |n: int, c: char| n * 58 + alphabet().index_of(low_byte(c));
    if s.len() > 0 {
        let front = s.drop_last();
        assert forall|i: int| 0 <= i < front.len() implies alphabet().contains(
            low_byte(#[trigger] front[i]),
        ) by {
            assert(front[i] == s[i]);
        }
        number_in_digits_is_value(front);
        assert(alphabet().contains(low_byte(s[s.len() - 1])));
        place_is_value(s.last());
        assert(s.fold_left(0, f) == f(front.fold_left(0, f), s.last()));
    }
}

/// The base58 text of some zero bytes and then bytes that start otherwise is a `1` for each of
/// these zeros and then digits of the alphabet, the first of which is no `1`, that write the same
/// number in base 58 as the bytes do in base 256.
pub proof fn base58_writes_the_number(zeros: nat, tail: Seq<u8>)
    requires
        tail.len() > 0 ==> tail[0] != 0,
    ensures
        ({
            let text = base58_text(Seq::new(zeros, |i: int| 0u8) + tail);
            let rest = text.skip(zeros as int);
            &&& text.len() >= zeros
            &&& text.take(zeros as int) == Seq::new(zeros, |i: int| '1')
            &&& rest.len() > 0 <==> tail.len() > 0
            &&& rest.len() > 0 ==> rest[0] != '1'
            &&& forall|i: int| 0 <= i < rest.len() ==> alphabet().contains(#[trigger] rest[i])
            &&& number_in_digits(rest) == number_in_bytes(tail)
        }),
{
    let bytes = Seq::new(zeros, |i: int| 0u8) + tail;
    let text = base58_text(bytes);
    let rest = text.skip(zeros as int);
    leading_zeros_of(zeros, tail);
    be_value_of_zeros(zeros, tail);
    let n = be_value(tail);
    assert(text.take(zeros as int) == Seq::new(zeros, |i: int| '1'));
    assert(rest == digits(n));
    digits_facts(n);
    digits_are_of_the_alphabet(n);
    if tail.len() > 0 {
        be_bytes_of_value(tail);
    }
    assert forall|i: int| 0 <= i < rest.len() implies alphabet().contains(
        low_byte(#[trigger] rest[i]),
    ) by {
        assert(alphanumeric(digits(n)[i]));
        assert(low_byte(rest[i]) == rest[i]);
    }
    number_in_digits_is_value(rest);
    number_in_bytes_is_be_value(tail);
}

/// What is decoded of some `1` and then digits that start otherwise is a zero byte for each of these
/// `1` and then the bytes that write the same number in base 256 as the digits do in base 58: no
/// zero byte in front, but one zero byte for zero itself.
pub proof fn base58_reads_the_number(ones: nat, tail: Seq<char>)
    requires
        tail.len() > 0 ==> tail[0] != '1',
        ones + tail.len() > 0,
        forall|i: int| 0 <= i < tail.len() ==> alphabet().contains(low_byte(#[trigger] tail[i])),
    ensures
        ({
            let decoded = base58_bytes(Seq::new(ones, |i: int| '1') + tail);
            let rest = decoded->Ok_0.skip(ones as int);
            &&& decoded is Ok
            &&& decoded->Ok_0.len() > ones
            &&& decoded->Ok_0.take(ones as int) == Seq::new(ones, |i: int| 0u8)
            &&& rest[0] == 0 ==> rest.len() == 1
            &&& number_in_bytes(rest) == number_in_digits(tail)
        }),
{
    let s = Seq::new(ones, |i: int| '1') + tail;
    the_alphabet();
    alphabet_codes();
    assert(alphabet()[0] as int == digit_code(0));
    digit_value_of_digit(0);
    assert forall|i: int| 0 <= i < s.len() implies digit_value(#[trigger] s[i]) < 58 by {
        if i >= ones {
            assert(s[i] == tail[i - ones]);
            place_is_value(s[i]);
        } else {
            assert(s[i] == alphabet()[0]);
        }
    }
    no_bad(s);
    leading_ones_of(ones, tail);
    digits_value_of_ones(ones, tail);
    number_in_digits_is_value(tail);
    let n = digits_value(tail);
    be_bytes_value(n);
    let decoded = base58_bytes(s)->Ok_0;
    assert(decoded.take(ones as int) == Seq::new(ones, |i: int| 0u8));
    assert(decoded.skip(ones as int) == be_bytes(n));
    number_in_bytes_is_be_value(be_bytes(n));
    if n == 0 {
        assert(be_bytes(n) == seq![0u8]);
    }
}

/// A text with a character that is not in the alphabet is refused, and the message shows the first
/// such character; nothing is decoded to nothing.
pub proof fn base58_refuses_what_is_no_digit(good: Seq<char>, bad: char, behind: Seq<char>)
    requires
        forall|i: int| 0 <= i < good.len() ==> alphabet().contains(low_byte(#[trigger] good[i])),
        !alphabet().contains(low_byte(bad)),
    ensures
        base58_bytes(good.push(bad) + behind) == Err::<Seq<u8>, Seq<char>>(
            "base58_decode: invalid character "@ + shown_char(bad),
        ),
        base58_bytes(Seq::empty()) == Ok::<Seq<u8>, Seq<char>>(Seq::empty()),
{
    first_bad_at(good, bad, behind);
    assert((good.push(bad) + behind)[good.len() as int] == bad);
}

proof fn first_bad_at(good: Seq<char>, bad: char, behind: Seq<char>)
    requires
        forall|i: int| 0 <= i < good.len() ==> alphabet().contains(low_byte(#[trigger] good[i])),
        !alphabet().contains(low_byte(bad)),
    ensures
        first_bad(good.push(bad) + behind) == good.len(),
    decreases good.len(),
{
    let s = good.push(bad) + behind;
    if good.len() == 0 {
        assert(s[0] == bad);
        no_place_no_value(bad);
    } else {
        let rest = good.drop_first();
        assert(s[0] == good[0]);
        place_is_value(good[0]);
        assert forall|i: int| 0 <= i < rest.len() implies alphabet().contains(
            low_byte(#[trigger] rest[i]),
        ) by {
            assert(rest[i] == good[i + 1]);
        }
        first_bad_at(rest, bad, behind);
        assert(s.drop_first() == rest.push(bad) + behind);
    }
}

} // verus!
