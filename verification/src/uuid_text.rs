//! UUIDs as the `uuid` crate reads, draws and writes them.
//!
//! The relay takes a UUID as one 128-bit number. Reading one from a text,
//! drawing one at random and writing one down are left to the `uuid`
//! crate. The three functions that call it are the only ones in this
//! library whose contracts are taken on trust; each says in its comment
//! what it takes on trust.

use vstd::prelude::*;

verus! {

/// What `uuid::Uuid::parse_str` makes of a text: the UUID that it reads,
/// taken as one number, or the error with which it refuses the text, taken
/// as the text with which the error describes itself.
pub uninterp spec fn uuid_reading(text: Seq<char>) -> Result<u128, Seq<char>>;

/// `uuid::Uuid::parse_str`, with the UUID it returns taken as one number
/// (`Uuid::as_u128`) and the error it returns as the text with which the
/// error describes itself (its `Display`). What it returns depends on the
/// text alone.
#[verifier::external_body]
pub(crate) fn parse_uuid(text: &str) -> (parsed: Result<u128, String>)
    ensures
        match parsed {
            Ok(value) => uuid_reading(text@) == Ok::<u128, Seq<char>>(value),
            Err(reason) => uuid_reading(text@) == Err::<u128, Seq<char>>(reason@),
        },
{
    match uuid::Uuid::parse_str(text) {
        Ok(id) => Ok(id.as_u128()),
        Err(error) => Err(error.to_string()),
    }
}

/// `value` carries the marks of a random UUID: version 4 in bits 76 to
/// 79, and the variant `10` in bits 62 and 63.
pub open spec fn is_random_uuid(value: u128) -> bool {
    &&& (value >> 76u128) & 0xf == 4
    &&& (value >> 62u128) & 0x3 == 2
}

/// `uuid::Uuid::new_v4`, taken as one number. Each call draws anew from
/// the operating system's random source, so nothing is known of the result
/// but the version and variant marks that every such UUID carries. It
/// panics where the operating system has no random bytes to give.
#[verifier::external_body]
pub(crate) fn random_uuid() -> (value: u128)
    ensures
        is_random_uuid(value),
{
    uuid::Uuid::new_v4().as_u128()
}

/// The sixteen hexadecimal digits, lower case.
pub open spec fn hex_digit(nibble: int) -> char {
    "0123456789abcdef"@[nibble]
}

/// The `count` lowest hexadecimal digits of `value`, the highest first.
pub open spec fn hex_digits(value: nat, count: nat) -> Seq<char>
    decreases count,
{
    if count == 0 {
        seq![]
    } else {
        hex_digits(value / 16, (count - 1) as nat).push(hex_digit((value % 16) as int))
    }
}

/// A 128-bit value written as a UUID: 32 lower-case hexadecimal digits in
/// groups of 8, 4, 4, 4 and 12 with a hyphen between two groups.
pub open spec fn hyphenated(value: u128) -> Seq<char> {
    let digits = hex_digits(value as nat, 32);
    digits.subrange(0, 8) + seq!['-'] + digits.subrange(8, 12) + seq!['-'] + digits.subrange(
        12,
        16,
    ) + seq!['-'] + digits.subrange(16, 20) + seq!['-'] + digits.subrange(20, 32)
}

/// The `Display` of `uuid::Uuid` for the UUID made of `value`
/// (`Uuid::from_u128`): the hyphenated lower-case form, which is one of
/// the forms that `Uuid::parse_str` reads, as the same UUID.
#[verifier::external_body]
pub(crate) fn write_uuid(value: u128) -> (text: String)
    ensures
        text@ == hyphenated(value),
        uuid_reading(text@) is Ok,
        uuid_reading(text@)->Ok_0 == value,
{
    uuid::Uuid::from_u128(value).to_string()
}

/// `value` without its `count` lowest hexadecimal digits.
spec fn shifted(value: nat, count: nat) -> nat
    decreases count,
{
    if count == 0 {
        value
    } else {
        shifted(value / 16, (count - 1) as nat)
    }
}

/// Sixteen to the power of `count`.
spec fn sixteen_to(count: nat) -> nat
    decreases count,
{
    if count == 0 {
        1
    } else {
        16 * sixteen_to((count - 1) as nat)
    }
}

proof fn lemma_hex_digits_len(value: nat, count: nat)
    ensures
        hex_digits(value, count).len() == count,
    decreases count,
{
    if count > 0 {
        lemma_hex_digits_len(value / 16, (count - 1) as nat);
    }
}

proof fn lemma_hex_digit_is_injective(m: int, n: int)
    requires
        0 <= m < 16,
        0 <= n < 16,
        hex_digit(m) == hex_digit(n),
    ensures
        m == n,
{
    reveal_strlit("0123456789abcdef");
}

proof fn lemma_hex_digits_are_injective(v: nat, w: nat, count: nat)
    requires
        hex_digits(v, count) == hex_digits(w, count),
        shifted(v, count) == shifted(w, count),
    ensures
        v == w,
    decreases count,
{
    if count > 0 {
        let high_v = hex_digits(v / 16, (count - 1) as nat);
        let high_w = hex_digits(w / 16, (count - 1) as nat);
        assert(hex_digits(v, count).drop_last() =~= high_v);
        assert(hex_digits(w, count).drop_last() =~= high_w);
        assert(hex_digits(v, count).last() == hex_digit((v % 16) as int));
        assert(hex_digits(w, count).last() == hex_digit((w % 16) as int));
        lemma_hex_digit_is_injective((v % 16) as int, (w % 16) as int);
        lemma_hex_digits_are_injective(v / 16, w / 16, (count - 1) as nat);
    }
}

proof fn lemma_shifted_vanishes(value: nat, count: nat)
    requires
        value < sixteen_to(count),
    ensures
        shifted(value, count) == 0,
    decreases count,
{
    if count > 0 {
        lemma_shifted_vanishes(value / 16, (count - 1) as nat);
    }
}

proof fn lemma_u128_has_32_digits(value: u128)
    ensures
        shifted(value as nat, 32) == 0,
{
    assert(sixteen_to(32) == 0x1_0000_0000_0000_0000_0000_0000_0000_0000) by {
        reveal_with_fuel(sixteen_to, 33);
    }
    lemma_shifted_vanishes(value as nat, 32);
}

/// Two values that are written alike are the same value.
pub proof fn lemma_hyphenated_is_injective(a: u128, b: u128)
    requires
        hyphenated(a) == hyphenated(b),
    ensures
        a == b,
{
    let digits_a = hex_digits(a as nat, 32);
    let digits_b = hex_digits(b as nat, 32);
    lemma_hex_digits_len(a as nat, 32);
    lemma_hex_digits_len(b as nat, 32);
    let text_a = hyphenated(a);
    let text_b = hyphenated(b);
    assert forall|k: int| 0 <= k < 32 implies digits_a[k] == digits_b[k] by {
        let at = if k < 8 {
            k
        } else if k < 12 {
            k + 1
        } else if k < 16 {
            k + 2
        } else if k < 20 {
            k + 3
        } else {
            k + 4
        };
        assert(text_a[at] == digits_a[k]);
        assert(text_b[at] == digits_b[k]);
    }
    assert(digits_a =~= digits_b);
    lemma_u128_has_32_digits(a);
    lemma_u128_has_32_digits(b);
    lemma_hex_digits_are_injective(a as nat, b as nat, 32);
}

proof fn lemma_hex_digits_are_digits(value: nat, count: nat, at: int)
    requires
        0 <= at < count,
    ensures
        hex_digits(value, count).len() == count,
        exists|nibble: int| 0 <= nibble < 16 && hex_digits(value, count)[at] == hex_digit(nibble),
    decreases count,
{
    lemma_hex_digits_len(value, count);
    lemma_hex_digits_len(value / 16, (count - 1) as nat);
    if at == count - 1 {
        assert(hex_digits(value, count)[at] == hex_digit((value % 16) as int));
    } else {
        lemma_hex_digits_are_digits(value / 16, (count - 1) as nat, at);
    }
}

/// A UUID is written with 36 characters, none of which is a slash.
pub proof fn lemma_hyphenated_is_one_segment(value: u128)
    ensures
        hyphenated(value).len() == 36,
        forall|at: int| 0 <= at < 36 ==> hyphenated(value)[at] != '/',
{
    let digits = hex_digits(value as nat, 32);
    lemma_hex_digits_len(value as nat, 32);
    reveal_strlit("0123456789abcdef");
    assert forall|at: int| 0 <= at < 36 implies hyphenated(value)[at] != '/' by {
        if at == 8 || at == 13 || at == 18 || at == 23 {
        } else {
            let k = if at < 8 {
                at
            } else if at < 13 {
                at - 1
            } else if at < 18 {
                at - 2
            } else if at < 23 {
                at - 3
            } else {
                at - 4
            };
            assert(hyphenated(value)[at] == digits[k]);
            lemma_hex_digits_are_digits(value as nat, 32, k);
        }
    }
}

} // verus!
