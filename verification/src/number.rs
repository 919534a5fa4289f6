//! Decimal numbers as text.

use vstd::prelude::*;
use vstd::string::*;

use crate::chars::chars_of;

verus! {

pub open spec fn is_digit(c: char) -> bool {
    '0' <= c && c <= '9'
}

pub open spec fn all_digits(t: Seq<char>) -> bool {
    forall|i: int| 0 <= i < t.len() ==> is_digit(#[trigger] t[i])
}

/// What a text of digits amounts to.
pub open spec fn decimal(t: Seq<char>) -> nat
    decreases t.len(),
{
    if t.len() == 0 {
        0
    } else {
        decimal(t.drop_last()) * 10 + ((t.last() as int) - ('0' as int)) as nat
    }
}

/// The digits of `n`, without leading zeros.
pub open spec fn nat_text(n: nat) -> Seq<char>
    decreases n,
{
    let last = (('0' as int) + (n % 10)) as char;
    if n < 10 {
        seq![last]
    } else {
        nat_text(n / 10).push(last)
    }
}

/// The text of a number, with a minus sign in front of a negative one.
pub open spec fn int_text(n: int) -> Seq<char> {
    if n < 0 {
        seq!['-'] + nat_text((-n) as nat)
    } else {
        nat_text(n as nat)
    }
}

/// The number that a text stands for, of any size: digits, with or without a plus sign in
/// front.
pub open spec fn written_number(t: Seq<char>) -> Option<nat> {
    let digits = if t.len() > 0 && t[0] == '+' {
        t.drop_first()
    } else {
        t
    };
    if digits.len() > 0 && all_digits(digits) {
        Some(decimal(digits))
    } else {
        None
    }
}

/// The number that a text stands for, if it is `max` at most.
pub open spec fn parsed_number(t: Seq<char>, max: nat) -> Option<nat> {
    match written_number(t) {
        Some(n) => if n <= max {
            Some(n)
        } else {
            None
        },
        None => None,
    }
}

/// A prefix of a text of digits amounts to no more than the text.
proof fn lemma_decimal_prefix(t: Seq<char>, k: int)
    requires
        0 <= k <= t.len(),
        all_digits(t),
    ensures
        decimal(t.take(k)) <= decimal(t),
    decreases t.len(),
{
    if k == t.len() {
        assert(t.take(k) =~= t);
    } else {
        assert(all_digits(t.drop_last())) by {
            assert forall|i: int| 0 <= i < t.drop_last().len() implies is_digit(
                #[trigger] t.drop_last()[i],
            ) by {
                assert(t.drop_last()[i] == t[i]);
            }
        }
        lemma_decimal_prefix(t.drop_last(), k);
        assert(t.drop_last().take(k) =~= t.take(k));
    }
}

/// The number that `s` stands for, as [`parsed_number`] says.
pub fn parse_u64(s: &str) -> (r: Option<u64>)
    ensures
        r is Some <==> parsed_number(s@, u64::MAX as nat) is Some,
        r matches Some(n) ==> parsed_number(s@, u64::MAX as nat) == Some(n as nat),
{
    let v = chars_of(s);
    let start: usize = if v.len() > 0 && v[0] == '+' {
        1
    } else {
        0
    };
    let ghost digits = v@.skip(start as int);
    assert(start == 1 ==> digits =~= v@.drop_first());
    assert(start == 0 ==> digits =~= v@);
    if start == v.len() {
        return None;
    }
    let mut n: u64 = 0;
    let mut i: usize = start;
    assert(digits.take(0) =~= Seq::<char>::empty());
    while i < v.len()
        invariant
            v@ == s@,
            start <= i <= v@.len(),
            digits == v@.skip(start as int),
            digits == (if s@.len() > 0 && s@[0] == '+' {
                s@.drop_first()
            } else {
                s@
            }),
            n == decimal(digits.take(i - start)),
            forall|k: int| 0 <= k < i - start ==> is_digit(#[trigger] digits[k]),
        decreases v@.len() - i,
    {
        let c = v[i];
        assert(digits[i - start] == c);
        if !('0' <= c && c <= '9') {
            return None;
        }
        let ghost upto = digits.take(i - start + 1);
        assert(upto.drop_last() =~= digits.take(i - start));
        let d: u64 = (c as u64) - 48;
        if n > (u64::MAX - d) / 10 {
            assert(decimal(upto) > u64::MAX);
            proof {
                if all_digits(digits) {
                    lemma_decimal_prefix(digits, i - start + 1);
                }
            }
            return None;
        }
        n = n * 10 + d;
        i += 1;
    }
    assert(digits.take(digits.len() as int) =~= digits);
    Some(n)
}

/// Whether `s` stands for a number, of any size.
pub fn is_number(s: &str) -> (r: bool)
    ensures
        r == written_number(s@) is Some,
{
    let v = chars_of(s);
    let start: usize = if v.len() > 0 && v[0] == '+' {
        1
    } else {
        0
    };
    let ghost digits = v@.skip(start as int);
    assert(start == 1 ==> digits =~= v@.drop_first());
    assert(start == 0 ==> digits =~= v@);
    if start == v.len() {
        return false;
    }
    let mut i: usize = start;
    while i < v.len()
        invariant
            v@ == s@,
            start <= i <= v@.len(),
            digits == v@.skip(start as int),
            digits == (if s@.len() > 0 && s@[0] == '+' {
                s@.drop_first()
            } else {
                s@
            }),
            forall|k: int| 0 <= k < i - start ==> is_digit(#[trigger] digits[k]),
        decreases v@.len() - i,
    {
        let c = v[i];
        assert(digits[i - start] == c);
        if !('0' <= c && c <= '9') {
            return false;
        }
        i += 1;
    }
    true
}

/// The number that `s` stands for, as [`parsed_number`] says.
pub fn parse_u32(s: &str) -> (r: Option<u32>)
    ensures
        r is Some <==> parsed_number(s@, u32::MAX as nat) is Some,
        r matches Some(n) ==> parsed_number(s@, u32::MAX as nat) == Some(n as nat),
{
    match parse_u64(s) {
        Some(n) => {
            if n <= u32::MAX as u64 {
                Some(n as u32)
            } else {
                None
            }
        },
        None => None,
    }
}

/// The digits of `n`.
pub fn u64_text(n: u64) -> (r: String)
    ensures
        r@ == nat_text(n as nat),
    decreases n,
{
    let last: char = (48u8 + (n % 10) as u8) as char;
    if n < 10 {
        let mut s = String::new();
        s.push(last);
        assert(s@ =~= nat_text(n as nat));
        s
    } else {
        let mut s = u64_text(n / 10);
        s.push(last);
        s
    }
}

/// The text of `n`, with a minus sign in front of a negative one.
pub fn i64_text(n: i64) -> (r: String)
    ensures
        r@ == int_text(n as int),
{
    if n < 0 {
        let mut s = String::new();
        s.push('-');
        let magnitude: u64 = if n == i64::MIN {
            0x8000_0000_0000_0000
        } else {
            (-n) as u64
        };
        s.append(u64_text(magnitude).as_str());
        assert(s@ =~= int_text(n as int));
        s
    } else {
        u64_text(n as u64)
    }
}

/// Reading the digits of a number gives the number back.
proof fn lemma_nat_text(n: nat)
    ensures
        nat_text(n).len() > 0,
        all_digits(nat_text(n)),
        decimal(nat_text(n)) == n,
    decreases n,
{
    let last = (('0' as int) + (n % 10)) as char;
    if n < 10 {
        assert(nat_text(n).drop_last() =~= Seq::<char>::empty());
        assert(decimal(Seq::<char>::empty()) == 0);
    } else {
        lemma_nat_text(n / 10);
        assert(nat_text(n).drop_last() =~= nat_text(n / 10));
    }
}

/// A number that is written out and read again comes back, unless it is larger than may be.
pub proof fn law_written_number_is_read_back(n: nat, max: nat)
    ensures
        parsed_number(nat_text(n), max) == if n <= max {
            Some(n)
        } else {
            None
        },
{
    lemma_nat_text(n);
    assert(is_digit(nat_text(n)[0]));
}

/// A plus sign in front changes nothing, and a minus sign stands in front of the digits of a number
/// below zero.
pub proof fn law_signs_stand_in_front(n: nat, t: Seq<char>)
    ensures
        written_number(seq!['+'] + nat_text(n)) == Some(n),
        n > 0 ==> int_text(-(n as int)) == seq!['-'] + nat_text(n),
        int_text(n as int) == nat_text(n),
        written_number(seq!['-'] + t) is None,
        written_number(Seq::empty()) is None,
{
    lemma_nat_text(n);
    let plus = seq!['+'] + nat_text(n);
    assert(plus.drop_first() =~= nat_text(n));
    assert((seq!['-'] + t)[0] == '-');
}

/// A number is written with digits alone, without zeros in front.
pub proof fn law_numbers_are_written_with_digits(n: nat)
    ensures
        nat_text(n).len() > 0,
        forall|i: int| 0 <= i < nat_text(n).len() ==> '0' <= #[trigger] nat_text(n)[i] && nat_text(n)[i]
            <= '9',
        n > 0 ==> nat_text(n)[0] != '0',
        n < 10 ==> nat_text(n).len() == 1,
        decimal(nat_text(n)) == n,
    decreases n,
{
    lemma_nat_text(n);
    assert forall|i: int| 0 <= i < nat_text(n).len() implies '0' <= #[trigger] nat_text(n)[i]
        && nat_text(n)[i] <= '9' by {
        assert(is_digit(nat_text(n)[i]));
    }
    if n >= 10 {
        law_numbers_are_written_with_digits(n / 10);
        assert(nat_text(n)[0] == nat_text(n / 10)[0]);
    }
}

/// A digit more makes ten times the number, and the digit.
pub proof fn law_digits_count_by_place(t: Seq<char>, d: nat)
    requires
        d < 10,
    ensures
        decimal(t.push((('0' as int) + d) as char)) == 10 * decimal(t) + d,
        decimal(Seq::empty()) == 0,
{
    let c = (('0' as int) + d) as char;
    assert(t.push(c).drop_last() =~= t);
}

} // verus!
