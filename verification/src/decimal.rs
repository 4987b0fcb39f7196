//! Numbers in base ten, as they are read and written.

use vstd::prelude::*;

verus! {

/// Whether `c` is one of the ten ASCII digits.
pub open spec fn is_digit(c: char) -> bool {
    '0' <= c <= '9'
}

/// The number that a text of digits writes in base ten.
pub open spec fn decimal_value(s: Seq<char>) -> nat
    decreases s.len(),
{
    if s.len() == 0 {
        0
    } else {
        (decimal_value(s.drop_last()) * 10 + (s.last() as u32 - '0' as u32)) as nat
    }
}

/// The digits of `s`: all of it but for a plus sign that it starts with.
pub open spec fn after_plus(s: Seq<char>) -> Seq<char> {
    if s.len() > 0 && s.first() == '+' {
        s.drop_first()
    } else {
        s
    }
}

/// The number of type `usize` that `s` writes: digits, at least one, which a
/// plus sign may precede.
pub open spec fn parsed_usize(s: Seq<char>) -> Option<usize> {
    let digits = after_plus(s);
    if digits.len() > 0 && (forall|i: int| 0 <= i < digits.len() ==> is_digit(#[trigger] digits[i]))
        && decimal_value(digits) <= usize::MAX {
        Some(decimal_value(digits) as usize)
    } else {
        None
    }
}

/// A text of digits writes no smaller a number than its first digits do.
proof fn lemma_decimal_value_grows(s: Seq<char>, n: int)
    requires
        0 <= n <= s.len(),
        forall|i: int| 0 <= i < s.len() ==> is_digit(#[trigger] s[i]),
    ensures
        decimal_value(s.take(n)) <= decimal_value(s),
    decreases s.len(),
{
    if n < s.len() {
        lemma_decimal_value_grows(s.drop_last(), n);
        assert(s.drop_last().take(n) == s.take(n));
    } else {
        assert(s.take(n) == s);
    }
}

/// Reads a number of type `usize`.
pub fn parse_usize(s: &[char]) -> (r: Option<usize>)
    ensures
        r == parsed_usize(s@),
{
    let d: &[char] = if s.len() > 0 && s[0] == '+' {
        assert(s@.drop_first() == s@.subrange(1, s@.len() as int));
        &s[1..s.len()]
    } else {
        s
    };
    assert(d@ == after_plus(s@));
    if d.len() == 0 {
        return None;
    }
    let mut value: usize = 0;
    let mut i: usize = 0;
    while i < d.len()
        invariant
            i <= d@.len(),
            d@ == after_plus(s@),
            d@.len() > 0,
            value == decimal_value(d@.take(i as int)),
            forall|j: int| 0 <= j < i ==> is_digit(#[trigger] d@[j]),
        decreases d@.len() - i,
    {
        let c = d[i];
        if !('0' <= c && c <= '9') {
            return None;
        }
        let digit: usize = (c as u8 - 48) as usize;
        let ghost next = d@.take(i + 1);
        assert(next.drop_last() == d@.take(i as int));
        assert(decimal_value(next) == value * 10 + digit);
        if value > (usize::MAX - digit) / 10 {
            proof {
                if forall|j: int| 0 <= j < d@.len() ==> is_digit(#[trigger] d@[j]) {
                    lemma_decimal_value_grows(d@, i + 1);
                }
            }
            return None;
        }
        value = value * 10 + digit;
        i += 1;
    }
    assert(d@.take(i as int) == d@);
    Some(value)
}

/// The digit that writes `n`, which is less than ten.
pub open spec fn digit_char(n: nat) -> char {
    ('0' as u32 + n) as char
}

/// The digits that write `n` in base ten, without zeros in front.
pub open spec fn decimal(n: nat) -> Seq<char>
    decreases n,
{
    if n < 10 {
        seq![digit_char(n)]
    } else {
        decimal(n / 10).push(digit_char(n % 10))
    }
}

/// Writes a number in base ten.
pub fn to_decimal(n: usize) -> (r: String)
    ensures
        r@ == decimal(n as nat),
    decreases n,
{
    let mut r = if n < 10 {
        String::new()
    } else {
        to_decimal(n / 10)
    };
    r.push((48 + (n % 10) as u8) as char);
    r
}

/// What `decimal` writes, `parsed_usize` reads back.
pub proof fn law_decimal_reads_back(n: usize)
    ensures
        parsed_usize(decimal(n as nat)) == Some(n),
{
    lemma_decimal(n as nat);
}

/// The digits that write `n` are digits, and their value is `n`.
pub proof fn lemma_decimal(n: nat)
    ensures
        decimal(n).len() > 0,
        decimal_value(decimal(n)) == n,
        forall|i: int| 0 <= i < decimal(n).len() ==> is_digit(#[trigger] decimal(n)[i]),
    decreases n,
{
    if n < 10 {
        assert(seq![digit_char(n)].drop_last() == Seq::<char>::empty());
        reveal_with_fuel(decimal_value, 2);
    } else {
        lemma_decimal(n / 10);
        assert(decimal(n).drop_last() == decimal(n / 10));
    }
}

/// A number is written with the digit of its last place behind the digits of
/// the rest, and a number below ten with its digit alone.
pub proof fn law_digits_of_a_number(n: nat, d: nat)
    requires
        d < 10,
    ensures
        decimal(d).len() == 1,
        decimal(d)[0] as int == 48 + d,
        n > 0 ==> decimal(10 * n + d).len() == decimal(n).len() + 1,
        n > 0 ==> decimal(10 * n + d).last() as int == 48 + d,
        n > 0 ==> decimal(10 * n + d).drop_last() == decimal(n),
{
    let m = 10 * n + d;
    assert(m / 10 == n && m % 10 == d);
    if n > 0 {
        assert(decimal(m) == decimal(n).push(digit_char(d)));
        assert(decimal(m).drop_last() =~= decimal(n));
    }
}

/// Reading a number takes it from its digits: a digit behind a number counts
/// for ten times that number and itself, unless that is too large; a digit
/// alone counts for itself; a plus sign in front makes no difference; and a
/// text that is empty, or has anything but digits behind such a sign, is no
/// number.
pub proof fn law_reads_digits(s: Seq<char>, c: char)
    ensures
        parsed_usize(Seq::empty()) is None,
        parsed_usize(seq!['+']) is None,
        48 <= c as u32 <= 57 ==> parsed_usize(seq![c]) == Some((c as u32 - 48) as usize),
        48 <= c as u32 <= 57 ==> (parsed_usize(s) matches Some(n) ==> parsed_usize(s.push(c)) == (
        if 10 * n + (c as u32 - 48) <= usize::MAX {
            Some((10 * n + (c as u32 - 48)) as usize)
        } else {
            None
        })),
        !(48 <= c as u32 <= 57) ==> parsed_usize(seq![c]) is None,
        !(48 <= c as u32 <= 57) && s.len() > 0 ==> parsed_usize(s.push(c)) is None,
        s.len() > 0 && parsed_usize(s) is None && !(s =~= seq!['+']) ==> parsed_usize(s.push(c))
            is None,
        s.len() > 0 && s[0] != '+' ==> parsed_usize(seq!['+'] + s) == parsed_usize(s),
{
    let d = after_plus(s);
    let one = seq![c];
    assert(one.drop_last() == Seq::<char>::empty());
    assert(decimal_value(Seq::<char>::empty()) == 0);
    assert(after_plus(seq!['+']) == Seq::<char>::empty());
    if 48 <= c as u32 <= 57 {
        assert(after_plus(one) == one);
        assert(decimal_value(one) == c as u32 - 48);
        assert(forall|i: int| 0 <= i < one.len() ==> is_digit(#[trigger] one[i]));
    }
    if !(48 <= c as u32 <= 57) && c != '+' {
        assert(after_plus(one) == one);
        assert(!is_digit(one[0]));
    }
    if s.len() > 0 {
        let t = s.push(c);
        let e = after_plus(t);
        assert(e =~= d.push(c));
        assert(e.last() == c);
        assert(e.drop_last() == d);
        if forall|i: int| 0 <= i < e.len() ==> is_digit(#[trigger] e[i]) {
            assert(is_digit(e[e.len() - 1]));
            assert forall|i: int| 0 <= i < d.len() implies is_digit(#[trigger] d[i]) by {
                assert(e[i] == d[i]);
            }
        }
        if forall|i: int| 0 <= i < d.len() ==> is_digit(#[trigger] d[i]) {
            if is_digit(c) {
                assert forall|i: int| 0 <= i < e.len() implies is_digit(#[trigger] e[i]) by {
                    if i < d.len() {
                        assert(e[i] == d[i]);
                    }
                }
            }
        }
        assert(decimal_value(e) == decimal_value(d) * 10 + (c as u32 - '0' as u32) || !is_digit(c));
        let plus = seq!['+'] + s;
        assert(plus.drop_first() == s);
    }
}

} // verus!
