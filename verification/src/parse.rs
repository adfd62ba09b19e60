use vstd::prelude::*;

verus! {

/// Whether `b` is an ASCII decimal digit.
pub open spec fn is_digit(b: u8) -> bool {
    48 <= b <= 57
}

/// The numeric value of an ASCII decimal digit.
pub open spec fn digit_value(b: u8) -> int {
    b - 48
}

/// Whether every byte of `s` is an ASCII decimal digit.
pub open spec fn all_digits(s: Seq<u8>) -> bool {
    forall|i: int| 0 <= i < s.len() ==> is_digit(s[i])
}

/// The number a string of decimal digits denotes.
pub open spec fn dec_value(s: Seq<u8>) -> int
    decreases s.len(),
{
    if s.len() == 0 {
        0
    } else {
        dec_value(s.drop_last()) * 10 + digit_value(s.last())
    }
}

/// Whether `s` is a well-formed decimal numeral that fits in a `u64`.
pub open spec fn spec_u64_numeral(s: Seq<u8>) -> bool {
    s.len() > 0 && all_digits(s) && dec_value(s) <= u64::MAX
}

/// A digit string denotes a non-negative number.
proof fn lemma_dec_value_nonneg(s: Seq<u8>)
    requires
        all_digits(s),
    ensures
        dec_value(s) >= 0,
    decreases s.len(),
{
    if s.len() > 0 {
        lemma_dec_value_nonneg(s.drop_last());
    }
}

/// A prefix of a digit string denotes at most what the whole string denotes.
proof fn lemma_dec_value_prefix_le(s: Seq<u8>, j: int)
    requires
        all_digits(s),
        0 <= j <= s.len(),
    ensures
        dec_value(s.take(j)) <= dec_value(s),
    decreases s.len() - j,
{
    if j == s.len() {
        assert(s.take(j) =~= s);
    } else {
        lemma_dec_value_prefix_le(s, j + 1);
        assert(s.take(j + 1).drop_last() =~= s.take(j));
        lemma_dec_value_nonneg(s.take(j));
    }
}

/// Parses an unsigned decimal integer, as the cell-location columns hold
/// them: one or more ASCII digits whose value fits in a `u64`. Anything else
/// is rejected; a rejected column makes the whole row, and so the whole
/// load, fail.
#[verifier::loop_isolation(false)]
pub fn parse_u64(s: &Vec<u8>) -> (r: Option<u64>)
    ensures
        match r {
            Some(n) => spec_u64_numeral(s@) && n == dec_value(s@),
            None => !spec_u64_numeral(s@),
        },
{
    let n = s.len();
    if n == 0 {
        return None;
    }
    let lim: u64 = u64::MAX / 10;
    let lim_last: u64 = u64::MAX % 10;
    let mut acc: u64 = 0;
    for i in 0..n
        invariant
            forall|k: int| 0 <= k < i ==> is_digit(s@[k]),
            acc == dec_value(s@.take(i as int)),
    {
        let b = s[i];
        if b < 48 || b > 57 {
            return None;
        }
        let d: u64 = (b - 48) as u64;
        proof {
            assert(s@.take(i + 1).drop_last() =~= s@.take(i as int));
        }
        if acc > lim || (acc == lim && d > lim_last) {
            proof {
                assert(dec_value(s@.take(i + 1)) > u64::MAX);
                if all_digits(s@) {
                    lemma_dec_value_prefix_le(s@, i + 1);
                }
            }
            return None;
        }
        acc = acc * 10 + d;
    }
    proof {
        assert(s@.take(n as int) =~= s@);
    }
    Some(acc)
}

/// Parses one cell-location row: at least three columns, each an unsigned
/// decimal integer, giving the cell's 3D coordinates. Columns past the
/// third are ignored. A missing or malformed column rejects the row, which
/// the loader treats as a fatal load failure.
pub fn parse_position(fields: &Vec<Vec<u8>>) -> (r: Option<(u64, u64, u64)>)
    ensures
        match r {
            Some(p) => fields@.len() >= 3 && spec_u64_numeral(fields@[0]@) && spec_u64_numeral(
                fields@[1]@,
            ) && spec_u64_numeral(fields@[2]@) && p.0 == dec_value(fields@[0]@) && p.1 == dec_value(
                fields@[1]@,
            ) && p.2 == dec_value(fields@[2]@),
            None => fields@.len() < 3 || !spec_u64_numeral(fields@[0]@) || !spec_u64_numeral(
                fields@[1]@,
            ) || !spec_u64_numeral(fields@[2]@),
        },
{
    if fields.len() < 3 {
        return None;
    }
    let x = parse_u64(&fields[0]);
    let y = parse_u64(&fields[1]);
    let z = parse_u64(&fields[2]);
    match (x, y, z) {
        (Some(x), Some(y), Some(z)) => Some((x, y, z)),
        _ => None,
    }
}

} // verus!
