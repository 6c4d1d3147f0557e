//! Parsing a user-supplied bound specification of the form
//! `"<width>,<height>"`. Each side is independently optional: an
//! empty, non-numeric, zero, or out-of-range side means "no limit on
//! that axis". Only a missing separator (anything but exactly one
//! comma) rejects the whole specification.
use vstd::prelude::*;

use crate::dims::Bound;

verus! {

/// Why a bound specification was rejected.
#[derive(Clone, Copy, Debug, PartialEq, Eq, Structural)]
pub enum BoundParseError {
    /// The specification does not consist of exactly two
    /// comma-separated fields.
    InvalidFormat,
}

/// Whether a character is an ASCII decimal digit.
pub open spec fn is_digit(c: char) -> bool {
    48 <= c as u32 <= 57
}

/// The numeric value of an ASCII decimal digit.
pub open spec fn digit_value(c: char) -> int {
    c as u32 - 48
}

/// Whether every character of the sequence is an ASCII decimal digit.
pub open spec fn all_digits(s: Seq<char>) -> bool {
    forall|i: int| 0 <= i < s.len() ==> is_digit(s[i])
}

/// The number denoted by a sequence of decimal digits, most
/// significant digit first.
pub open spec fn digits_value(s: Seq<char>) -> int
    decreases s.len(),
{
    if s.len() == 0 {
        0
    } else {
        digits_value(s.drop_last()) * 10 + digit_value(s.last())
    }
}

/// The number a field denotes, if it is a nonempty string of decimal
/// digits whose value fits in 32 bits.
pub open spec fn parse_u32(s: Seq<char>) -> Option<u32> {
    if s.len() >= 1 && all_digits(s) && digits_value(s) <= u32::MAX {
        Some(digits_value(s) as u32)
    } else {
        None
    }
}

/// The limit one field of a bound specification denotes. A field that
/// denotes no positive number means "no limit on this axis": this is
/// the deliberate lenient policy, since a zero ceiling can constrain
/// no real image.
pub open spec fn axis_limit(s: Seq<char>) -> Option<u32> {
    match parse_u32(s) {
        Some(v) => if v == 0 {
            None
        } else {
            Some(v)
        },
        None => None,
    }
}

/// How many commas the sequence holds.
pub open spec fn comma_count(s: Seq<char>) -> nat
    decreases s.len(),
{
    if s.len() == 0 {
        0
    } else {
        comma_count(s.drop_last()) + if s.last() == ',' {
            1nat
        } else {
            0nat
        }
    }
}

/// Whether position `j` holds the first comma of the sequence.
pub open spec fn is_first_comma(s: Seq<char>, j: int) -> bool {
    0 <= j < s.len() && s[j] == ',' && (forall|k: int| 0 <= k < j ==> s[k] != ',')
}

/// The position of the first comma (meaningful only when one exists).
pub open spec fn comma_index(s: Seq<char>) -> int {
    choose|j: int| is_first_comma(s, j)
}

/// The bound a whole specification denotes: with exactly one comma,
/// the two surrounding fields give the per-axis limits; any other
/// field count is malformed.
pub open spec fn bound_of(s: Seq<char>) -> Option<Bound> {
    if comma_count(s) == 1 {
        Some(
            Bound(
                axis_limit(s.take(comma_index(s))),
                axis_limit(s.skip(comma_index(s) + 1)),
            ),
        )
    } else {
        None
    }
}

/// Appending one character extends the digit string's value by one
/// (base-ten) position.
proof fn lemma_digits_value_step(s: Seq<char>, i: int)
    requires
        0 <= i < s.len(),
    ensures
        digits_value(s.take(i + 1)) == digits_value(s.take(i)) * 10 + digit_value(s[i]),
        all_digits(s.take(i + 1)) == (all_digits(s.take(i)) && is_digit(s[i])),
{
    assert(s.take(i + 1).drop_last() =~= s.take(i));
    assert(s.take(i + 1).last() == s[i]);
    assert(all_digits(s.take(i + 1)) ==> all_digits(s.take(i)) && is_digit(s[i]));
    if all_digits(s.take(i)) && is_digit(s[i]) {
        assert forall|k: int| 0 <= k < s.take(i + 1).len() implies #[trigger] is_digit(
            s.take(i + 1)[k],
        ) by {
            if k < i {
                assert(s.take(i + 1)[k] == s.take(i)[k]);
            }
        }
    }
}

/// One scanned character extends the comma count by whether it is a
/// comma.
proof fn lemma_comma_count_step(s: Seq<char>, i: int)
    requires
        0 <= i < s.len(),
    ensures
        comma_count(s.take(i + 1)) == comma_count(s.take(i)) + if s[i] == ',' {
            1nat
        } else {
            0nat
        },
{
    assert(s.take(i + 1).drop_last() =~= s.take(i));
    assert(s.take(i + 1).last() == s[i]);
}

/// Parse one field of the specification: the characters of `s` from
/// `from` (inclusive) to `to` (exclusive).
fn parse_axis(s: &str, from: usize, to: usize) -> (r: Option<u32>)
    requires
        from <= to <= s@.len(),
    ensures
        r == axis_limit(s@.subrange(from as int, to as int)),
{
    let ghost sub = s@.subrange(from as int, to as int);
    if from == to {
        return None;
    }
    let mut acc: u64 = 0;
    let mut over: bool = false;
    let mut i: usize = from;
    while i < to
        invariant
            from <= i <= to <= s@.len(),
            to > from,
            sub == s@.subrange(from as int, to as int),
            all_digits(sub.take(i - from)),
            !over ==> acc == digits_value(sub.take(i - from)) && acc <= u32::MAX,
            over ==> digits_value(sub.take(i - from)) > u32::MAX,
            acc <= 0x1_0000_0000u64,
        decreases to - i,
    {
        let c = s.get_char(i);
        proof {
            assert(sub[i - from] == s@[i as int]);
        }
        let cv: u32 = c as u32;
        if !(48 <= cv && cv <= 57) {
            assert(!is_digit(sub[i - from]));
            return None;
        }
        let d: u32 = cv - 48;
        let next: u64 = acc * 10 + (d as u64);
        proof {
            lemma_digits_value_step(sub, i - from);
        }
        if next > 0xFFFF_FFFFu64 {
            proof {
                if !over {
                    assert(digits_value(sub.take(i - from + 1)) == acc * 10 + d);
                }
            }
            over = true;
            acc = 0x1_0000_0000u64;
        } else if !over {
            acc = next;
        }
        i += 1;
    }
    proof {
        assert(sub.take(to - from) =~= sub);
    }
    if over {
        return None;
    }
    if acc == 0 {
        return None;
    }
    Some(acc as u32)
}

impl Bound {
    /// Parse a bound specification string. Returns the bound it
    /// denotes, or `InvalidFormat` when the string does not consist of
    /// exactly two comma-separated fields.
    pub fn from_str(s: &str) -> (r: Result<Bound, BoundParseError>)
        ensures
            match r {
                Ok(b) => bound_of(s@) == Some(b),
                Err(e) => bound_of(s@) is None && e == BoundParseError::InvalidFormat,
            },
    {
        let n = s.unicode_len();
        let mut count: usize = 0;
        let mut first: usize = n;
        let mut i: usize = 0;
        while i < n
            invariant
                i <= n,
                n == s@.len(),
                count == comma_count(s@.take(i as int)),
                count <= i,
                count == 0 ==> first == n && (forall|k: int| 0 <= k < i ==> s@[k] != ','),
                count > 0 ==> first < i && is_first_comma(s@, first as int),
            decreases n - i,
        {
            let c = s.get_char(i);
            proof {
                lemma_comma_count_step(s@, i as int);
            }
            if c == ',' {
                if count == 0 {
                    first = i;
                }
                count = count + 1;
            }
            i += 1;
        }
        proof {
            assert(s@.take(n as int) =~= s@);
        }
        if count != 1 {
            return Err(BoundParseError::InvalidFormat);
        }
        proof {
            let j = comma_index(s@);
            assert(is_first_comma(s@, first as int));
            assert(is_first_comma(s@, j));
            if j < first {
                assert(s@[j] != ',');
            } else if j > first {
                assert(s@[first as int] != ',');
            }
            assert(j == first);
        }
        let w = parse_axis(s, 0, first);
        let h = parse_axis(s, first + 1, n);
        proof {
            assert(s@.subrange(0, first as int) =~= s@.take(first as int));
            assert(s@.subrange(first + 1, n as int) =~= s@.skip(first + 1));
        }
        Ok(Bound(w, h))
    }
}

} // verus!
