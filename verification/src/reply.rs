//! How the store reads the server's replies: a field that is absent where a
//! value is needed, and the decimal text of a counter.

use vstd::prelude::*;
use vstd::string::*;

use crate::decimal::{decimal, digit_char, digits};

verus! {

/// A reply that does not give what the store asked for.
#[derive(Debug, PartialEq, Eq)]
pub enum ReplyFault {
    /// The field or key holds nothing.
    Absent,
    /// The text is not a 32-bit integer.
    NotAnInteger(String),
}

pub open spec fn is_digit(c: char) -> bool {
    '0' <= c && c <= '9'
}

/// The value of a non-empty run of decimal digits.
pub open spec fn digits_value(s: Seq<char>) -> int
    decreases s.len(),
{
    if s.len() == 0 {
        0
    } else {
        digits_value(s.drop_last()) * 10 + (s.last() as int - '0' as int)
    }
}

/// A text without its leading sign, if it has one.
pub open spec fn unsigned_part(s: Seq<char>) -> Seq<char> {
    if s.len() > 0 && (s[0] == '-' || s[0] == '+') {
        s.skip(1)
    } else {
        s
    }
}

/// The integer a text holds as `i32::from_str` reads it: an optional `+` or
/// `-`, then one or more decimal digits, with a value that fits in 32 bits.
pub open spec fn i32_text_value(s: Seq<char>) -> Option<i32> {
    let negative = s.len() > 0 && s[0] == '-';
    let ds = unsigned_part(s);
    if ds.len() == 0 || !(forall|i: int| 0 <= i < ds.len() ==> #[trigger] is_digit(ds[i])) {
        None
    } else {
        let v = if negative { -digits_value(ds) } else { digits_value(ds) };
        if i32::MIN <= v && v <= i32::MAX {
            Some(v as i32)
        } else {
            None
        }
    }
}

proof fn lemma_digits_value_grows(s: Seq<char>, k: int)
    requires
        0 <= k <= s.len(),
        forall|i: int| 0 <= i < s.len() ==> #[trigger] is_digit(s[i]),
    ensures
        0 <= digits_value(s.take(k)) <= digits_value(s),
    decreases s.len() - k,
{
    if k < s.len() {
        lemma_digits_value_grows(s, k + 1);
        assert(s.take(k + 1).drop_last() =~= s.take(k));
        assert(is_digit(s.take(k + 1).last()));
    } else {
        assert(s.take(k) =~= s);
    }
    lemma_digits_value_nonneg(s);
}

proof fn lemma_digits_value_nonneg(s: Seq<char>)
    requires
        forall|i: int| 0 <= i < s.len() ==> #[trigger] is_digit(s[i]),
    ensures
        digits_value(s) >= 0,
    decreases s.len(),
{
    if s.len() > 0 {
        let init = s.drop_last();
        assert forall|i: int| 0 <= i < init.len() implies #[trigger] is_digit(init[i]) by {
            assert(init[i] == s[i]);
        }
        lemma_digits_value_nonneg(init);
        assert(is_digit(s[s.len() - 1]));
    }
}

/// Reads a text as `i32::from_str` does.
pub fn parse_i32(s: &str) -> (r: Option<i32>)
    ensures
        r == i32_text_value(s@),
{
    let n = s.unicode_len();
    if n == 0 {
        return None;
    }
    let first = s.get_char(0);
    let negative = first == '-';
    let start: usize = if first == '-' || first == '+' { 1 } else { 0 };
    let ghost ds = s@.skip(start as int);
    proof {
        if start == 0 {
            assert(ds =~= s@);
        }
        assert(ds == unsigned_part(s@));
    }
    if start == n {
        assert(ds.len() == 0);
        return None;
    }
    let mut acc: i64 = 0;
    let mut i: usize = start;
    while i < n
        invariant
            start <= i <= n,
            n == s@.len(),
            n > 0,
            start < n,
            first == s@[0],
            negative == (s@[0] == '-'),
            start == (if s@[0] == '-' || s@[0] == '+' { 1usize } else { 0usize }),
            ds == s@.skip(start as int),
            ds == unsigned_part(s@),
            forall|j: int| 0 <= j < i - start ==> #[trigger] is_digit(ds[j]),
            acc == digits_value(ds.take(i - start)),
            0 <= acc <= 2147483648,
        decreases n - i,
    {
        let c = s.get_char(i);
        if !('0' <= c && c <= '9') {
            proof {
                assert(ds[i - start] == c);
                assert(!is_digit(ds[i - start]));
                assert(!(forall|j: int| 0 <= j < ds.len() ==> #[trigger] is_digit(ds[j])));
                assert(i32_text_value(s@) is None);
            }
            return None;
        }
        let d: i64 = (c as u32 - '0' as u32) as i64;
        proof {
            assert(ds[i - start] == c);
            assert(ds.take(i - start + 1).drop_last() =~= ds.take(i - start));
            assert(ds.take(i - start + 1).last() == c);
        }
        let next = acc * 10 + d;
        if next > 2147483648 {
            proof {
                assert(digits_value(ds.take(i - start + 1)) == next);
                if forall|j: int| 0 <= j < ds.len() ==> #[trigger] is_digit(ds[j]) {
                    lemma_digits_value_grows(ds, i - start + 1);
                    assert(digits_value(ds) > 2147483648);
                }
                assert(i32_text_value(s@) is None);
            }
            return None;
        }
        acc = next;
        i = i + 1;
    }
    proof {
        assert(ds.take(n - start) =~= ds);
        assert(ds.len() > 0);
    }
    if negative {
        Some((-acc) as i32)
    } else if acc > 2147483647 {
        None
    } else {
        Some(acc as i32)
    }
}

proof fn lemma_digits_read_back(n: nat)
    ensures
        forall|i: int| 0 <= i < digits(n).len() ==> #[trigger] is_digit(digits(n)[i]),
        digits_value(digits(n)) == n,
        digits(n).len() > 0,
        digits(n)[0] != '-' && digits(n)[0] != '+',
    decreases n,
{
    let d = (n % 10) as int;
    assert(digit_char(d) as int - '0' as int == d);
    assert(is_digit(digit_char(d)));
    if n >= 10 {
        lemma_digits_read_back(n / 10);
        let p = digits(n / 10);
        let s = digits(n);
        assert(s == p.push(digit_char(d)));
        assert(s.drop_last() =~= p);
        assert forall|i: int| 0 <= i < s.len() implies #[trigger] is_digit(s[i]) by {
            if i < p.len() {
                assert(s[i] == p[i]);
            }
        }
        assert(s[0] == p[0]);
        assert(s.last() == digit_char(d));
        assert(digits_value(s) == digits_value(p) * 10 + (digit_char(d) as int - '0' as int));
        assert((n / 10) * 10 + n % 10 == n);
    } else {
        let s = digits(n);
        assert(s.drop_last() =~= Seq::<char>::empty());
        assert(s.last() == digit_char(d));
        assert(digits_value(s) == digits_value(s.drop_last()) * 10 + (digit_char(d) as int - '0' as int));
        assert(digits_value(Seq::<char>::empty()) == 0);
    }
}

/// A counter that the store writes as decimal text reads back as the same
/// integer: `integer_reply` of the text of `n` gives `n`.
pub proof fn law_decimal_reads_back(n: i32)
    ensures
        i32_text_value(decimal(n as int)) == Some(n),
{
    let s = decimal(n as int);
    if n < 0 {
        let ds = digits((-n) as nat);
        lemma_digits_read_back((-n) as nat);
        assert(s[0] == '-');
        assert(unsigned_part(s) =~= ds);
    } else {
        lemma_digits_read_back(n as nat);
        assert(unsigned_part(s) == s);
    }
}

/// A reply read as text: none when it holds nothing.
pub fn text_reply(reply: Option<String>) -> (r: Result<String, ReplyFault>)
    ensures
        match reply {
            Some(t) => r matches Ok(v) && v@ == t@,
            None => r matches Err(ReplyFault::Absent),
        },
{
    match reply {
        Some(t) => Ok(t),
        None => Err(ReplyFault::Absent),
    }
}

/// A reply read as a counter: refused when it holds nothing or when its text
/// is not a 32-bit integer.
pub fn integer_reply(reply: Option<String>) -> (r: Result<i32, ReplyFault>)
    ensures
        match reply {
            Some(t) => match i32_text_value(t@) {
                Some(n) => r == Ok::<i32, ReplyFault>(n),
                None => r matches Err(ReplyFault::NotAnInteger(u)) && u@ == t@,
            },
            None => r matches Err(ReplyFault::Absent),
        },
{
    match reply {
        Some(t) => match parse_i32(t.as_str()) {
            Some(n) => Ok(n),
            None => Err(ReplyFault::NotAnInteger(t)),
        },
        None => Err(ReplyFault::Absent),
    }
}

} // verus!
