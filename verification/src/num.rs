//! Decimal text: formatting of integers for integer replies, and parsing of
//! duration arguments (unsigned) and stored counter values (signed).

use vstd::prelude::*;

verus! {

pub open spec fn is_digit(c: u8) -> bool {
    48 <= c && c <= 57
}

pub open spec fn all_digits(s: Seq<u8>) -> bool {
    forall|i: int| 0 <= i < s.len() ==> is_digit(s[i])
}

/// Numeric value of a digit string, most significant digit first.
pub open spec fn digits_val(s: Seq<u8>) -> nat
    decreases s.len(),
{
    if s.len() == 0 {
        0
    } else {
        digits_val(s.drop_last()) * 10 + (s.last() - 48) as nat
    }
}

/// Decimal digits of a natural number, without sign or leading zeros.
pub open spec fn dec_digits(n: nat) -> Seq<u8>
    decreases n,
{
    if n < 10 {
        seq![(48 + n) as u8]
    } else {
        dec_digits(n / 10) + seq![(48 + n % 10) as u8]
    }
}

/// Decimal text of an integer: a leading minus sign for negative values.
pub open spec fn dec_int(n: int) -> Seq<u8> {
    if n < 0 {
        seq![45u8] + dec_digits((-n) as nat)
    } else {
        dec_digits(n as nat)
    }
}

/// Value of a decimal text with an optional single leading sign, or `None`
/// where the text is not such a representation. The value is unbounded.
pub open spec fn int_text_val(s: Seq<u8>) -> Option<int> {
    if s.len() >= 1 && (s[0] == 43 || s[0] == 45) {
        let rest = s.subrange(1, s.len() as int);
        if rest.len() >= 1 && all_digits(rest) {
            if s[0] == 45 {
                Some(-(digits_val(rest) as int))
            } else {
                Some(digits_val(rest) as int)
            }
        } else {
            None
        }
    } else if s.len() >= 1 && all_digits(s) {
        Some(digits_val(s) as int)
    } else {
        None
    }
}

/// What a duration argument means: a plain digit string whose value fits in
/// `u64`; no sign is admitted.
pub open spec fn parse_u64_spec(s: Seq<u8>) -> Option<u64> {
    if s.len() >= 1 && all_digits(s) && digits_val(s) <= u64::MAX {
        Some(digits_val(s) as u64)
    } else {
        None
    }
}

/// What a stored counter value means: signed decimal text within `i64` range.
pub open spec fn parse_i64_spec(s: Seq<u8>) -> Option<i64> {
    match int_text_val(s) {
        Some(v) => if i64::MIN <= v && v <= i64::MAX {
            Some(v as i64)
        } else {
            None
        },
        None => None,
    }
}

pub fn push_dec_u64(out: &mut Vec<u8>, n: u64)
    ensures
        final(out)@ == old(out)@ + dec_digits(n as nat),
    decreases n,
{
    if n >= 10 {
        push_dec_u64(out, n / 10);
        out.push(48 + (n % 10) as u8);
        proof {
            assert(final(out)@ =~= old(out)@ + dec_digits(n as nat));
        }
    } else {
        out.push(48 + n as u8);
        proof {
            assert(final(out)@ =~= old(out)@ + dec_digits(n as nat));
        }
    }
}

pub fn push_dec_i64(out: &mut Vec<u8>, n: i64)
    ensures
        final(out)@ == old(out)@ + dec_int(n as int),
{
    if n < 0 {
        out.push(45);
        let wide: i128 = n as i128;
        let mag: u64 = (-wide) as u64;
        push_dec_u64(out, mag);
        proof {
            assert(final(out)@ =~= old(out)@ + dec_int(n as int));
        }
    } else {
        push_dec_u64(out, n as u64);
    }
}

/// Longer digit prefixes of one string never decrease in value.
proof fn lemma_digits_prefix_le(s: Seq<u8>, i: int, j: int)
    requires
        0 <= i <= j <= s.len(),
    ensures
        digits_val(s.subrange(0, i)) <= digits_val(s.subrange(0, j)),
    decreases j - i,
{
    if i < j {
        lemma_digits_prefix_le(s, i, j - 1);
        assert(s.subrange(0, j).drop_last() =~= s.subrange(0, j - 1));
        assert(digits_val(s.subrange(0, j)) == digits_val(s.subrange(0, j - 1)) * 10 + (s[j - 1]
            - 48) as nat);
    }
}

/// Parses the digit run `s[from..]`: `Some` exactly where it is non-empty,
/// all digits, and its value fits in `u64`.
pub fn parse_digits_u64(s: &[u8], from: usize) -> (r: Option<u64>)
    requires
        from <= s@.len(),
    ensures
        ({
            let part = s@.subrange(from as int, s@.len() as int);
            match r {
                Some(v) => part.len() >= 1 && all_digits(part) && digits_val(part) == v,
                None => !(part.len() >= 1 && all_digits(part) && digits_val(part) <= u64::MAX),
            }
        }),
{
    let ghost part = s@.subrange(from as int, s@.len() as int);
    if from >= s.len() {
        return None;
    }
    let mut acc: u64 = 0;
    let mut i: usize = from;
    while i < s.len()
        invariant
            from <= i <= s@.len(),
            part == s@.subrange(from as int, s@.len() as int),
            all_digits(s@.subrange(from as int, i as int)),
            acc == digits_val(s@.subrange(from as int, i as int)),
        decreases s@.len() - i,
    {
        let c = s[i];
        if c < 48 || c > 57 {
            assert(!is_digit(part[i - from]));
            return None;
        }
        let wide: u128 = acc as u128 * 10 + (c - 48) as u128;
        proof {
            assert(s@.subrange(from as int, i + 1 as int).drop_last() =~= s@.subrange(
                from as int,
                i as int,
            ));
        }
        if wide > u64::MAX as u128 {
            proof {
                assert(digits_val(s@.subrange(from as int, i + 1 as int)) > u64::MAX);
                lemma_digits_prefix_le(
                    s@.subrange(from as int, s@.len() as int),
                    i + 1 - from,
                    s@.len() - from,
                );
                assert(s@.subrange(from as int, s@.len() as int).subrange(0, i + 1 - from)
                    =~= s@.subrange(from as int, i + 1 as int));
                assert(s@.subrange(from as int, s@.len() as int).subrange(
                    0,
                    s@.len() - from,
                ) =~= part);
            }
            return None;
        }
        acc = wide as u64;
        i += 1;
    }
    proof {
        assert(s@.subrange(from as int, i as int) =~= part);
    }
    Some(acc)
}

pub fn parse_u64(s: &[u8]) -> (r: Option<u64>)
    ensures
        r == parse_u64_spec(s@),
{
    let r = parse_digits_u64(s, 0);
    proof {
        assert(s@.subrange(0, s@.len() as int) =~= s@);
    }
    r
}

pub fn parse_i64(s: &[u8]) -> (r: Option<i64>)
    ensures
        r == parse_i64_spec(s@),
{
    if s.len() == 0 {
        return None;
    }
    let c0 = s[0];
    let negative: bool = c0 == 45;
    let signed: bool = c0 == 45 || c0 == 43;
    let start: usize = if signed {
        1
    } else {
        0
    };
    let ghost part = s@.subrange(start as int, s@.len() as int);
    proof {
        if !signed {
            assert(part =~= s@);
        }
    }
    match parse_digits_u64(s, start) {
        None => {
            proof {
                if int_text_val(s@) is Some {
                    assert(part.len() >= 1 && all_digits(part));
                    if digits_val(part) <= u64::MAX {
                        assert(false);
                    } else {
                        assert(digits_val(part) > i64::MAX);
                        assert(parse_i64_spec(s@) is None);
                    }
                }
            }
            None
        },
        Some(mag) => {
            if negative {
                if mag <= 9223372036854775808u64 {
                    let wide: i128 = -(mag as i128);
                    Some(wide as i64)
                } else {
                    None
                }
            } else {
                if mag <= 9223372036854775807u64 {
                    Some(mag as i64)
                } else {
                    None
                }
            }
        },
    }
}

/// The decimal text written for a natural number reads back as that number:
/// it is non-empty, all digits, and `digits_val` inverts `dec_digits`.
pub proof fn lemma_dec_digits_round_trip(n: nat)
    ensures
        dec_digits(n).len() >= 1,
        all_digits(dec_digits(n)),
        digits_val(dec_digits(n)) == n,
    decreases n,
{
    if n < 10 {
        assert(digits_val(Seq::<u8>::empty()) == 0);
        assert(seq![(48 + n) as u8].drop_last() =~= Seq::<u8>::empty());
        assert(digits_val(seq![(48 + n) as u8]) == 0 * 10 + ((48 + n) as u8 - 48) as nat);
    } else {
        lemma_dec_digits_round_trip(n / 10);
        assert((dec_digits(n / 10) + seq![(48 + n % 10) as u8]).drop_last() =~= dec_digits(
            n / 10,
        ));
        assert(digits_val(dec_digits(n)) == digits_val(dec_digits(n / 10)) * 10 + (n % 10));
    }
}

/// The decimal text of a non-negative `i64` value parses back as that value.
pub proof fn lemma_dec_int_round_trip(v: int)
    requires
        0 <= v <= i64::MAX,
    ensures
        parse_i64_spec(dec_int(v)) == Some(v as i64),
{
    lemma_dec_digits_round_trip(v as nat);
    let s = dec_int(v);
    assert(s == dec_digits(v as nat));
    assert(is_digit(s[0]));
    assert(s[0] != 43 && s[0] != 45);
    assert(int_text_val(s) == Some(v));
}

} // verus!
