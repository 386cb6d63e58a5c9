use vstd::prelude::*;

verus! {

/// Whether `b` is an ASCII decimal digit.
pub open spec fn is_ascii_digit(b: u8) -> bool {
    48 <= b <= 57
}

/// Whether every byte of `s` is an ASCII decimal digit.
pub open spec fn all_digits(s: Seq<u8>) -> bool {
    forall|i: int| 0 <= i < s.len() ==> is_ascii_digit(s[i])
}

/// The base-10 value of a sequence of ASCII digit bytes.
pub open spec fn digits_value(s: Seq<u8>) -> int
    decreases s.len(),
{
    if s.len() == 0 {
        0
    } else {
        digits_value(s.drop_last()) * 10 + (s.last() - 48)
    }
}

/// The digit bytes of a signed-integer literal: everything after a leading
/// `+` or `-`, or the whole sequence when no sign is present.
pub open spec fn digits_part(s: Seq<u8>) -> Seq<u8> {
    if s.len() > 0 && (s[0] == 43 || s[0] == 45) {
        s.drop_first()
    } else {
        s
    }
}

/// Whether the literal carries a leading minus sign.
pub open spec fn is_negative_literal(s: Seq<u8>) -> bool {
    s.len() > 0 && s[0] == 45
}

/// The signed value denoted by a decimal integer literal.
pub open spec fn literal_value(s: Seq<u8>) -> int {
    if is_negative_literal(s) {
        -digits_value(digits_part(s))
    } else {
        digits_value(digits_part(s))
    }
}

/// Whether `s` is a valid `i32` decimal literal: an optional sign, one or
/// more ASCII digits, and a value within the `i32` range.
pub open spec fn is_i32_literal(s: Seq<u8>) -> bool {
    &&& digits_part(s).len() > 0
    &&& all_digits(digits_part(s))
    &&& i32::MIN <= literal_value(s) <= i32::MAX
}

/// The parser faults exactly when the bytes are not a valid `i32` decimal
/// literal: text that is not UTF-8, is empty, carries stray characters, or
/// denotes a value out of range.
pub open spec fn parse_faults(s: Seq<u8>) -> bool {
    !is_i32_literal(s)
}

/// A sequence of digits has a non-negative value.
proof fn lemma_digits_value_nonneg(s: Seq<u8>)
    requires
        all_digits(s),
    ensures
        digits_value(s) >= 0,
    decreases s.len(),
{
    if s.len() > 0 {
        assert(all_digits(s.drop_last()));
        lemma_digits_value_nonneg(s.drop_last());
    }
}

/// The value of a digit sequence never shrinks as digits are appended: the
/// value of any prefix is at most the value of the whole.
proof fn lemma_digits_value_prefix_le(s: Seq<u8>, n: int)
    requires
        all_digits(s),
        0 <= n <= s.len(),
    ensures
        digits_value(s.subrange(0, n)) <= digits_value(s),
    decreases s.len() - n,
{
    if n == s.len() {
        assert(s.subrange(0, n) =~= s);
    } else {
        lemma_digits_value_prefix_le(s, n + 1);
        let shorter = s.subrange(0, n);
        let longer = s.subrange(0, n + 1);
        assert(longer.drop_last() =~= shorter);
        assert(all_digits(shorter));
        lemma_digits_value_nonneg(shorter);
        assert(digits_value(longer) == digits_value(shorter) * 10 + (s[n] - 48));
    }
}

/// Interpret the bytes as UTF-8 text and parse that text as a base-10
/// signed 32-bit integer.
pub fn parse_number(data: &[u8]) -> (result: i32)
    requires
        !parse_faults(data@),
    ensures
        result as int == literal_value(data@),
{
    proof {
        assert(data@.len() > 0);
    }
    let negative = data[0] == 45;
    let start: usize = if data[0] == 43 || data[0] == 45 {
        1
    } else {
        0
    };

    let ghost digits = digits_part(data@);
    proof {
        assert(digits =~= data@.subrange(start as int, data@.len() as int));
        lemma_digits_value_nonneg(digits);
    }

    let mut magnitude: u64 = 0;
    let mut i: usize = start;

    while i < data.len()
        invariant
            start <= i <= data@.len(),
            start <= 1,
            digits == digits_part(data@),
            digits =~= data@.subrange(start as int, data@.len() as int),
            all_digits(digits),
            digits_value(digits) <= 0x8000_0000,
            magnitude == digits_value(digits.subrange(0, i - start)),
            magnitude <= 0x8000_0000,
        decreases data@.len() - i,
    {
        proof {
            assert(digits[i - start] == data@[i as int]);
            assert(is_ascii_digit(data@[i as int]));
        }
        let d = (data[i] - 48) as u64;
        proof {
            let prev = digits.subrange(0, i - start);
            let next = digits.subrange(0, i + 1 - start);
            assert(next.drop_last() =~= prev);
            assert(digits_value(next) == digits_value(prev) * 10 + (digits[i - start] - 48));
            lemma_digits_value_prefix_le(digits, i + 1 - start);
        }
        magnitude = magnitude * 10 + d;
        i = i + 1;
    }

    proof {
        assert(digits.subrange(0, i - start) =~= digits);
    }

    if negative {
        if magnitude == 0x8000_0000 {
            i32::MIN
        } else {
            -(magnitude as i32)
        }
    } else {
        proof {
            assert(literal_value(data@) == digits_value(digits));
        }
        magnitude as i32
    }
}

} // verus!
