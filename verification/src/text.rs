//! Reading numbers and fields out of text, byte by byte.
use vstd::prelude::*;

verus! {

/// The byte of a plus sign.
pub const PLUS: u8 = 43;

pub open spec fn is_digit(b: u8) -> bool {
    48 <= b <= 57
}

/// The number that a run of decimal digits writes.
pub open spec fn digits_value(s: Seq<u8>) -> nat
    decreases s.len(),
{
    if s.len() == 0 {
        0
    } else {
        (digits_value(s.drop_last()) * 10 + (s.last() - 48)) as nat
    }
}

pub open spec fn all_digits(s: Seq<u8>) -> bool {
    forall|i: int| 0 <= i < s.len() ==> is_digit(#[trigger] s[i])
}

/// The digits of a text that may begin with a plus sign.
pub open spec fn unsigned_body(s: Seq<u8>) -> Seq<u8> {
    if s.len() > 0 && s[0] == PLUS {
        s.subrange(1, s.len() as int)
    } else {
        s
    }
}

/// The number up to `limit` that a text writes: an optional plus sign and
/// then at least one decimal digit, nothing else, and a value that does not
/// exceed the limit.
pub open spec fn parse_unsigned_spec(s: Seq<u8>, limit: u64) -> Option<u64> {
    let body = unsigned_body(s);
    if body.len() > 0 && all_digits(body) && digits_value(body) <= limit {
        Some(digits_value(body) as u64)
    } else {
        None
    }
}

/// The place of the first byte `b` at or after `from`, or the length of the
/// text where there is none.
pub open spec fn next_byte(s: Seq<u8>, from: int, b: u8) -> int
    decreases s.len() - from,
{
    if from < 0 || from >= s.len() {
        s.len() as int
    } else if s[from] == b {
        from
    } else {
        next_byte(s, from + 1, b)
    }
}

/// A run of digits writes at least what its beginning writes.
pub proof fn lemma_digits_value_grows(s: Seq<u8>, n: int)
    requires
        0 <= n <= s.len(),
    ensures
        digits_value(s.subrange(0, n)) <= digits_value(s) || !all_digits(s),
    decreases s.len() - n,
{
    if n < s.len() && all_digits(s) {
        let t = s.drop_last();
        assert(all_digits(t)) by {
            assert forall|i: int| 0 <= i < t.len() implies is_digit(#[trigger] t[i]) by {
                assert(t[i] == s[i]);
            }
        }
        assert(is_digit(s[s.len() - 1]));
        if n < t.len() {
            lemma_digits_value_grows(t, n);
            assert(t.subrange(0, n) =~= s.subrange(0, n));
        } else {
            assert(t.subrange(0, n) =~= t);
            assert(s.subrange(0, n) =~= t);
        }
    } else if n == s.len() {
        assert(s.subrange(0, n) =~= s);
    }
}

/// The first byte `b` at or after `from` is not before `from`, is within the
/// text, and no `b` lies between.
pub proof fn lemma_next_byte_bounds(s: Seq<u8>, from: int, b: u8)
    requires
        0 <= from <= s.len(),
    ensures
        from <= next_byte(s, from, b) <= s.len(),
        next_byte(s, from, b) < s.len() ==> s[next_byte(s, from, b)] == b,
        forall|i: int| from <= i < next_byte(s, from, b) ==> s[i] != b,
    decreases s.len() - from,
{
    if from < s.len() && s[from] != b {
        lemma_next_byte_bounds(s, from + 1, b);
    }
}

/// Reads an unsigned number of at most `limit` from the bytes `[from, to)`.
pub fn parse_unsigned(bytes: &[u8], from: usize, to: usize, limit: u64) -> (r: Option<u64>)
    requires
        from <= to <= bytes@.len(),
    ensures
        r == parse_unsigned_spec(bytes@.subrange(from as int, to as int), limit),
{
    let ghost text = bytes@.subrange(from as int, to as int);
    let mut i: usize = from;
    if i < to && bytes[i] == PLUS {
        assert(text[0] == PLUS);
        i += 1;
    } else {
        assert(text.len() > 0 ==> text[0] != PLUS);
    }
    let begin: usize = i;
    let ghost body = bytes@.subrange(begin as int, to as int);
    assert(body =~= unsigned_body(text));
    if begin == to {
        return None;
    }
    let mut value: u64 = 0;
    while i < to
        invariant
            from <= begin <= i <= to <= bytes@.len(),
            begin < to,
            text == bytes@.subrange(from as int, to as int),
            body == bytes@.subrange(begin as int, to as int),
            body == unsigned_body(text),
            all_digits(body.subrange(0, i - begin)),
            value == digits_value(body.subrange(0, i - begin)),
            value <= limit,
        decreases to - i,
    {
        let b: u8 = bytes[i];
        assert(body[i - begin] == b);
        if b < 48 || b > 57 {
            assert(!all_digits(body));
            return None;
        }
        let ghost before = body.subrange(0, i - begin);
        let ghost after = body.subrange(0, i + 1 - begin);
        assert(after.drop_last() =~= before);
        assert(after.last() == b);
        assert(all_digits(after)) by {
            assert forall|k: int| 0 <= k < after.len() implies is_digit(#[trigger] after[k]) by {
                if k < before.len() {
                    assert(before[k] == after[k]);
                }
            }
        }
        let digit: u64 = (b - 48) as u64;
        assert(digits_value(after) == value * 10 + digit);
        if digit > limit || value > (limit - digit) / 10 {
            proof {
                lemma_digits_value_grows(body, i + 1 - begin);
            }
            return None;
        }
        value = value * 10 + digit;
        i += 1;
    }
    assert(body.subrange(0, i - begin) =~= body);
    Some(value)
}

/// Finds the first byte `b` at or after `from`.
pub fn find_byte(bytes: &[u8], from: usize, b: u8) -> (r: usize)
    ensures
        r == next_byte(bytes@, from as int, b),
        from <= bytes@.len() ==> from <= r <= bytes@.len(),
{
    if from >= bytes.len() {
        return bytes.len();
    }
    let mut i: usize = from;
    while i < bytes.len() && bytes[i] != b
        invariant
            from <= i <= bytes@.len(),
            next_byte(bytes@, from as int, b) == next_byte(bytes@, i as int, b),
        decreases bytes@.len() - i,
    {
        i += 1;
    }
    i
}

} // verus!
