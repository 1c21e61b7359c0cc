//! Base-ten rendering of integers, as the store writes counters and versions.

use vstd::prelude::*;
use vstd::string::*;

verus! {

/// The character of a single decimal digit.
pub open spec fn digit_char(d: int) -> char {
    if d == 0 { '0' }
    else if d == 1 { '1' }
    else if d == 2 { '2' }
    else if d == 3 { '3' }
    else if d == 4 { '4' }
    else if d == 5 { '5' }
    else if d == 6 { '6' }
    else if d == 7 { '7' }
    else if d == 8 { '8' }
    else { '9' }
}

/// The digits of a natural number, most significant first, without leading zeros.
pub open spec fn digits(n: nat) -> Seq<char>
    decreases n,
{
    if n < 10 {
        seq![digit_char(n as int)]
    } else {
        digits(n / 10).push(digit_char((n % 10) as int))
    }
}

/// The decimal text of an integer: a minus sign before the digits of a negative one.
pub open spec fn decimal(n: int) -> Seq<char> {
    if n < 0 {
        seq!['-'] + digits((-n) as nat)
    } else {
        digits(n as nat)
    }
}

proof fn lemma_digit_char_injective(a: int, b: int)
    requires
        0 <= a < 10,
        0 <= b < 10,
        digit_char(a) == digit_char(b),
    ensures
        a == b,
{
}

proof fn lemma_digits_shape(n: nat)
    ensures
        digits(n).len() >= 1,
        (digits(n).len() == 1) <==> (n < 10),
        forall|i: int| 0 <= i < digits(n).len() ==> #[trigger] digits(n)[i] != '-',
    decreases n,
{
    if n >= 10 {
        lemma_digits_shape(n / 10);
        let d = digits(n / 10);
        assert forall|i: int| 0 <= i < digits(n).len() implies #[trigger] digits(n)[i] != '-' by {
            if i < d.len() {
                assert(digits(n)[i] == d[i]);
            }
        }
    }
}

proof fn lemma_digits_injective(a: nat, b: nat)
    requires
        digits(a) == digits(b),
    ensures
        a == b,
    decreases a,
{
    lemma_digits_shape(a);
    lemma_digits_shape(b);
    if a < 10 {
        assert(b < 10);
        assert(digits(a)[0] == digit_char(a as int));
        assert(digits(b)[0] == digit_char(b as int));
        lemma_digit_char_injective(a as int, b as int);
    } else {
        let pa = digits(a / 10);
        let pb = digits(b / 10);
        assert(digits(a).drop_last() == pa);
        assert(digits(b).drop_last() == pb);
        assert(digits(a).last() == digit_char((a % 10) as int));
        assert(digits(b).last() == digit_char((b % 10) as int));
        lemma_digit_char_injective((a % 10) as int, (b % 10) as int);
        lemma_digits_injective(a / 10, b / 10);
    }
}

/// Decimal rendering is one to one: two integers with the same text are equal.
/// So each version number of a template names its own hash field.
pub proof fn lemma_decimal_injective(a: int, b: int)
    requires
        decimal(a) == decimal(b),
    ensures
        a == b,
{
    if a < 0 && b < 0 {
        let da = digits((-a) as nat);
        let db = digits((-b) as nat);
        assert(da =~= decimal(a).subrange(1, decimal(a).len() as int));
        assert(db =~= decimal(b).subrange(1, decimal(b).len() as int));
        lemma_digits_injective((-a) as nat, (-b) as nat);
    } else if a >= 0 && b >= 0 {
        lemma_digits_injective(a as nat, b as nat);
    } else if a < 0 {
        lemma_digits_shape(b as nat);
        assert(decimal(a)[0] == '-');
        assert(decimal(b)[0] != '-');
    } else {
        lemma_digits_shape(a as nat);
        assert(decimal(b)[0] == '-');
        assert(decimal(a)[0] != '-');
    }
}

fn digit_str(d: u64) -> (s: &'static str)
    requires
        d < 10,
    ensures
        s@ == seq![digit_char(d as int)],
{
    if d == 0 {
        proof { reveal_strlit("0"); }
        "0"
    } else if d == 1 {
        proof { reveal_strlit("1"); }
        "1"
    } else if d == 2 {
        proof { reveal_strlit("2"); }
        "2"
    } else if d == 3 {
        proof { reveal_strlit("3"); }
        "3"
    } else if d == 4 {
        proof { reveal_strlit("4"); }
        "4"
    } else if d == 5 {
        proof { reveal_strlit("5"); }
        "5"
    } else if d == 6 {
        proof { reveal_strlit("6"); }
        "6"
    } else if d == 7 {
        proof { reveal_strlit("7"); }
        "7"
    } else if d == 8 {
        proof { reveal_strlit("8"); }
        "8"
    } else {
        proof { reveal_strlit("9"); }
        "9"
    }
}

fn append_digits(s: &mut String, n: u64)
    ensures
        final(s)@ == old(s)@ + digits(n as nat),
    decreases n,
{
    if n >= 10 {
        append_digits(s, n / 10);
    }
    let d = digit_str(n % 10);
    s.append(d);
    proof {
        if n >= 10 {
            assert(digits(n as nat) == digits((n / 10) as nat).push(digit_char((n % 10) as int)));
        }
    }
}

/// Renders an `i32` in base ten, as `i32::to_string` does.
pub fn i32_to_decimal(n: i32) -> (s: String)
    ensures
        s@ == decimal(n as int),
{
    let mut s = String::new();
    if n < 0 {
        proof { reveal_strlit("-"); }
        s.append("-");
        let m: i64 = -(n as i64);
        append_digits(&mut s, m as u64);
    } else {
        append_digits(&mut s, n as u64);
    }
    s
}

/// Renders a `u16` in base ten, as `u16::to_string` does.
pub fn u16_to_decimal(n: u16) -> (s: String)
    ensures
        s@ == decimal(n as int),
{
    let mut s = String::new();
    append_digits(&mut s, n as u64);
    s
}

} // verus!
