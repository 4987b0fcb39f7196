//! Account identifiers and how they are written.

use vstd::prelude::*;

verus! {

/// The lower-case hexadecimal digit for a number below sixteen.
pub open spec fn hex_char(n: nat) -> char {
    if n < 10 {
        ('0' as u32 + n) as char
    } else {
        ('a' as u32 + (n - 10)) as char
    }
}

/// The last `len` hexadecimal digits of `n`.
pub open spec fn hex_digits(n: nat, len: nat) -> Seq<char>
    decreases len,
{
    if len == 0 {
        Seq::empty()
    } else {
        hex_digits(n / 16, (len - 1) as nat).push(hex_char(n % 16))
    }
}

/// An identifier as it is written: its 32 hexadecimal digits in groups of 8,
/// 4, 4, 4 and 12, with hyphens between the groups.
pub open spec fn hyphenated(id: u128) -> Seq<char> {
    let d = hex_digits(id as nat, 32);
    d.subrange(0, 8) + seq!['-'] + d.subrange(8, 12) + seq!['-'] + d.subrange(12, 16) + seq!['-']
        + d.subrange(16, 20) + seq!['-'] + d.subrange(20, 32)
}

/// Calls the `Display` form of `uuid::Uuid`, made of the 128 bits by
/// `Uuid::from_u128`: the hyphenated form in lower case.
#[verifier::external_body]
pub(crate) fn id_text(id: u128) -> (r: String)
    ensures
        r@ == hyphenated(id),
{
    uuid::Uuid::from_u128(id).to_string()
}

/// The number that hexadecimal digits write.
pub open spec fn hex_value(digits: Seq<char>) -> nat
    decreases digits.len(),
{
    if digits.len() == 0 {
        0
    } else {
        let c = digits.last() as int;
        (hex_value(digits.drop_last()) * 16 + (if 48 <= c <= 57 {
            c - 48
        } else {
            c - 87
        })) as nat
    }
}

/// Sixteen to that power.
spec fn power_of_sixteen(n: nat) -> nat
    decreases n,
{
    if n == 0 {
        1
    } else {
        16 * power_of_sixteen((n - 1) as nat)
    }
}

/// Digits write the number that they were made of, where it is not too large.
proof fn lemma_hex_digits(n: nat, len: nat)
    requires
        n < power_of_sixteen(len),
    ensures
        hex_digits(n, len).len() == len,
        hex_value(hex_digits(n, len)) == n,
    decreases len,
{
    if len > 0 {
        let rest = hex_digits(n / 16, (len - 1) as nat);
        lemma_hex_digits(n / 16, (len - 1) as nat);
        assert(hex_digits(n, len).drop_last() == rest);
    }
}

/// An identifier is written in 36 characters, with hyphens at four places, and
/// the other characters are the hexadecimal digits that write it: it can be
/// read back.
pub proof fn law_identifier_reads_back(id: u128)
    ensures
        ({
            let s = hyphenated(id);
            &&& s.len() == 36
            &&& s[8] == '-' && s[13] == '-' && s[18] == '-' && s[23] == '-'
            &&& hex_value(
                s.subrange(0, 8) + s.subrange(9, 13) + s.subrange(14, 18) + s.subrange(19, 23)
                    + s.subrange(24, 36),
            ) == id
        }),
{
    let s = hyphenated(id);
    let d = hex_digits(id as nat, 32);
    reveal_with_fuel(power_of_sixteen, 33);
    assert(power_of_sixteen(32) == 0x1_0000_0000_0000_0000_0000_0000_0000_0000nat);
    lemma_hex_digits(id as nat, 32);
    assert(s.subrange(0, 8) + s.subrange(9, 13) + s.subrange(14, 18) + s.subrange(19, 23)
        + s.subrange(24, 36) =~= d);
}

} // verus!
