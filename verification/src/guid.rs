//! Fresh identifiers from the `uuid` crate.

use vstd::prelude::*;

use crate::text::spec_is_whitespace;

verus! {

/// A lowercase hexadecimal digit.
pub open spec fn is_lower_hex(c: char) -> bool {
    ('0' <= c && c <= '9') || ('a' <= c && c <= 'f')
}

/// The hyphenated form `8-4-4-4-12` of a UUID: lowercase hex digits with
/// hyphens at positions 8, 13, 18 and 23.
pub open spec fn is_hyphenated_uuid(s: Seq<char>) -> bool {
    &&& s.len() == 36
    &&& forall|i: int|
        0 <= i < 36 ==> if i == 8 || i == 13 || i == 18 || i == 23 {
            s[i] == '-'
        } else {
            is_lower_hex(#[trigger] s[i])
        }
}

/// A random (version 4) UUID as its 128-bit value: `uuid::Uuid::new_v4`,
/// read back with `Uuid::as_u128`. The random bits are not claimed; the
/// version digit (the thirteenth hex digit) is 4 and the variant digit (the
/// seventeenth) is 8, 9, a or b, as `new_v4` masks them in.
#[verifier::external_body]
fn uuid_new_v4_bits() -> (r: u128)
    ensures
        nibble(r, 12) == 4,
        8 <= nibble(r, 16) < 12,
{
    uuid::Uuid::new_v4().as_u128()
}

/// A time-ordered (version 7) UUID as its 128-bit value: `uuid::Uuid::now_v7`,
/// read back with `Uuid::as_u128`. Nothing is claimed of the value. It reads
/// the system clock, and `now_v7` panics when that clock is set before 1970;
/// no argument can rule that out.
#[verifier::external_body]
pub(crate) fn uuid_now_v7_bits() -> u128 {
    uuid::Uuid::now_v7().as_u128()
}

/// `16^n`.
pub open spec fn pow16(n: nat) -> int
    decreases n,
{
    if n == 0 {
        1
    } else {
        16 * pow16((n - 1) as nat)
    }
}

/// The lowercase hexadecimal digit of `v` (0 to 15).
pub open spec fn hex_digit(v: int) -> char {
    if v < 10 {
        ('0' as int + v) as char
    } else {
        ('a' as int + v - 10) as char
    }
}

/// The `k`-th of the 32 hexadecimal digits of `bits`, most significant first.
pub open spec fn nibble(bits: u128, k: int) -> int {
    (bits as int / pow16((31 - k) as nat)) % 16
}

/// Which of the 32 digits stands at position `i` of the hyphenated form.
pub open spec fn digit_at(i: int) -> int {
    if i < 8 {
        i
    } else if i < 13 {
        i - 1
    } else if i < 18 {
        i - 2
    } else if i < 23 {
        i - 3
    } else {
        i - 4
    }
}

/// The text that `uuid::Uuid`'s `Display` writes for the UUID with this
/// value: its 32 hexadecimal digits, most significant first and in lower
/// case, with hyphens at positions 8, 13, 18 and 23.
pub open spec fn uuid_text(bits: u128) -> Seq<char> {
    Seq::new(
        36,
        |i: int|
            if i == 8 || i == 13 || i == 18 || i == 23 {
                '-'
            } else {
                hex_digit(nibble(bits, digit_at(i)))
            },
    )
}

/// `Uuid::from_u128(bits).to_string()`: `Display` for `Uuid` writes the
/// lowercase hyphenated form of the 128-bit value, big-endian (`uuid_text`).
#[verifier::external_body]
pub(crate) fn uuid_to_string(bits: u128) -> (r: String)
    ensures
        r@ == uuid_text(bits),
{
    uuid::Uuid::from_u128(bits).to_string()
}

/// The text of every UUID is in the hyphenated form.
pub proof fn lemma_uuid_text_hyphenated(bits: u128)
    ensures
        is_hyphenated_uuid(uuid_text(bits)),
{
    let s = uuid_text(bits);
    assert forall|i: int| 0 <= i < 36 implies if i == 8 || i == 13 || i == 18 || i == 23 {
        s[i] == '-'
    } else {
        is_lower_hex(#[trigger] s[i])
    } by {
        if !(i == 8 || i == 13 || i == 18 || i == 23) {
            let v = nibble(bits, digit_at(i));
            assert(0 <= v < 16);
        }
    }
}

/// A new random (version 4, RFC 4122 variant) GUID in hyphenated text form.
pub fn new_guid() -> (r: String)
    ensures
        is_hyphenated_uuid(r@),
        r@[14] == '4',
        r@[19] == '8' || r@[19] == '9' || r@[19] == 'a' || r@[19] == 'b',
        forall|i: int| 0 <= i < r@.len() ==> !spec_is_whitespace(#[trigger] r@[i]),
{
    let bits = uuid_new_v4_bits();
    let r = uuid_to_string(bits);
    proof {
        lemma_uuid_text_hyphenated(bits);
        assert(digit_at(14) == 12 && digit_at(19) == 16);
    }
    assert forall|i: int| 0 <= i < r@.len() implies !spec_is_whitespace(#[trigger] r@[i]) by {
        if i == 8 || i == 13 || i == 18 || i == 23 {
        } else {
            assert(is_lower_hex(r@[i]));
        }
    }
    r
}

} // verus!
