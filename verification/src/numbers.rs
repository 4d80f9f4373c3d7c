use vstd::prelude::*;
use vstd::string::StrSliceExecFns;
use crate::error::SCError;
use crate::strutil::str_eq;

verus! {

// ---------------------------------------------------------------------------
// Reading decimal literals
// ---------------------------------------------------------------------------

/// Whether `c` is a decimal digit.
pub open spec fn is_digit(c: char) -> bool {
    48 <= c as u32 <= 57
}

/// The value of the decimal digit `c`.
pub open spec fn digit_val(c: char) -> int {
    c as u32 - 48
}

/// Whether `s` consists of decimal digits only.
pub open spec fn all_digits(s: Seq<char>) -> bool {
    forall|i: int| 0 <= i < s.len() ==> is_digit(s[i])
}

/// The value of a string of decimal digits, most significant first.
pub open spec fn digits_val(s: Seq<char>) -> int
    decreases s.len(),
{
    if s.len() == 0 {
        0
    } else {
        10 * digits_val(s.drop_last()) + digit_val(s.last())
    }
}

/// The reading of `s` as an unsigned decimal numeral that fits in `usize`,
/// `None` where there is none.
pub open spec fn spec_parse_usize(s: Seq<char>) -> Option<int> {
    if s.len() > 0 && all_digits(s) && digits_val(s) <= usize::MAX {
        Option::Some(digits_val(s))
    } else {
        Option::None
    }
}

/// The reading of `s` as a decimal numeral with an optional leading minus
/// sign that fits in `i64`, `None` where there is none.
pub open spec fn spec_parse_i64(s: Seq<char>) -> Option<int> {
    if s.len() > 0 && s[0] as u32 == 45 {
        let mag = s.drop_first();
        if mag.len() > 0 && all_digits(mag) && -digits_val(mag) >= i64::MIN {
            Option::Some(-digits_val(mag))
        } else {
            Option::None
        }
    } else if s.len() > 0 && all_digits(s) && digits_val(s) <= i64::MAX {
        Option::Some(digits_val(s))
    } else {
        Option::None
    }
}

/// A digit string has a non-negative value.
proof fn lemma_digits_val_nonneg(s: Seq<char>)
    requires
        all_digits(s),
    ensures
        digits_val(s) >= 0,
    decreases s.len(),
{
    if s.len() > 0 {
        lemma_digits_val_nonneg(s.drop_last());
    }
}

/// Extending a digit string cannot shrink its value.
proof fn lemma_digits_val_prefix(s: Seq<char>, k: int)
    requires
        all_digits(s),
        0 <= k <= s.len(),
    ensures
        digits_val(s.take(k)) <= digits_val(s),
    decreases s.len() - k,
{
    if k < s.len() {
        lemma_digits_val_prefix(s, k + 1);
        lemma_digits_val_nonneg(s.take(k));
        assert(s.take(k + 1).drop_last() =~= s.take(k));
        assert(all_digits(s.take(k + 1)));
        lemma_digits_val_nonneg(s.take(k + 1));
    } else {
        assert(s.take(k) =~= s);
    }
}

/// Reads the digits of `s` at and after position `from` as a `u64`.
/// Fails, naming the whole literal, where a non-digit stands, where no
/// digit stands at all, or where the value does not fit.
fn parse_digits_u64(s: &str, from: usize) -> (r: Result<u64, SCError>)
    requires
        from <= s@.len(),
    ensures
        match r {
            Ok(v) => {
                &&& s@.skip(from as int).len() > 0
                &&& all_digits(s@.skip(from as int))
                &&& v == digits_val(s@.skip(from as int))
            },
            Err(e) => {
                &&& e matches SCError::InvalidNumber(t) && t@ == s@
                &&& !(s@.skip(from as int).len() > 0 && all_digits(s@.skip(from as int))
                    && digits_val(s@.skip(from as int)) <= u64::MAX)
            },
        },
{
    let ghost digits = s@.skip(from as int);
    let len = s.unicode_len();
    if from == len {
        return Err(SCError::InvalidNumber(s.to_owned()));
    }
    let mut acc: u64 = 0;
    let mut i: usize = from;
    while i < len
        invariant
            from <= i <= len,
            from < len,
            len == s@.len(),
            digits == s@.skip(from as int),
            all_digits(digits.take(i - from)),
            acc == digits_val(digits.take(i - from)),
        decreases len - i,
    {
        let c = s.get_char(i);
        let d = c as u32;
        if d < 48 || d > 57 {
            proof {
                assert(digits[i - from] == s@[i as int]);
                assert(!is_digit(digits[i - from]));
            }
            return Err(SCError::InvalidNumber(s.to_owned()));
        }
        proof {
            assert(digits.take(i - from + 1).drop_last() =~= digits.take(i - from));
            assert(digits.take(i - from + 1).last() == s@[i as int]);
        }
        let step = match acc.checked_mul(10) {
            Some(shifted) => shifted.checked_add((d - 48) as u64),
            None => None,
        };
        match step {
            Some(next) => {
                acc = next;
            },
            None => {
                proof {
                    lemma_digits_val_nonneg(digits.take(i - from));
                    assert(all_digits(digits.take(i - from + 1)));
                    assert(digits_val(digits.take(i - from + 1)) > u64::MAX);
                    if all_digits(digits) {
                        lemma_digits_val_prefix(digits, i - from + 1);
                    }
                }
                return Err(SCError::InvalidNumber(s.to_owned()));
            },
        }
        i = i + 1;
    }
    proof {
        assert(digits.take(len - from) =~= digits);
    }
    Ok(acc)
}

/// Reads `s` as an unsigned decimal numeral.
pub fn parse_usize(s: &str) -> (r: Result<usize, SCError>)
    ensures
        match spec_parse_usize(s@) {
            Option::Some(v) => r matches Ok(u) && u == v,
            Option::None => r matches Err(e) && (e matches SCError::InvalidNumber(t) && t@
                == s@),
        },
{
    proof {
        assert(s@.skip(0) =~= s@);
    }
    match parse_digits_u64(s, 0) {
        Ok(v) => {
            if v <= usize::MAX as u64 {
                Ok(v as usize)
            } else {
                Err(SCError::InvalidNumber(s.to_owned()))
            }
        },
        Err(e) => Err(e),
    }
}

/// Reads `s` as a decimal numeral with an optional leading minus sign.
pub fn parse_i64(s: &str) -> (r: Result<i64, SCError>)
    ensures
        match spec_parse_i64(s@) {
            Option::Some(v) => r matches Ok(u) && u == v,
            Option::None => r matches Err(e) && (e matches SCError::InvalidNumber(t) && t@
                == s@),
        },
{
    let len = s.unicode_len();
    if len == 0 {
        return Err(SCError::InvalidNumber(s.to_owned()));
    }
    let first = s.get_char(0);
    if first as u32 == 45 {
        proof {
            assert(s@.skip(1) =~= s@.drop_first());
        }
        match parse_digits_u64(s, 1) {
            Ok(m) => {
                if m <= 9223372036854775808u64 {
                    proof {
                        lemma_digits_val_nonneg(s@.drop_first());
                    }
                    if m == 9223372036854775808u64 {
                        Ok(i64::MIN)
                    } else {
                        Ok(-(m as i64))
                    }
                } else {
                    Err(SCError::InvalidNumber(s.to_owned()))
                }
            },
            Err(e) => Err(e),
        }
    } else {
        proof {
            assert(s@.skip(0) =~= s@);
        }
        match parse_digits_u64(s, 0) {
            Ok(v) => {
                if v <= i64::MAX as u64 {
                    Ok(v as i64)
                } else {
                    Err(SCError::InvalidNumber(s.to_owned()))
                }
            },
            Err(e) => Err(e),
        }
    }
}

/// The reading of `s` as a boolean literal, `None` where there is none.
pub open spec fn spec_parse_bool(s: Seq<char>) -> Option<bool> {
    if s == "true"@ {
        Option::Some(true)
    } else if s == "false"@ {
        Option::Some(false)
    } else {
        Option::None
    }
}

/// Reads `s` as a boolean literal.
pub fn parse_bool(s: &str) -> (r: Result<bool, SCError>)
    ensures
        match spec_parse_bool(s@) {
            Option::Some(v) => r matches Ok(u) && u == v,
            Option::None => r matches Err(e) && (e matches SCError::UnknownVariant(t) && t@
                == s@),
        },
{
    if str_eq(s, "true") {
        Ok(true)
    } else if str_eq(s, "false") {
        Ok(false)
    } else {
        Err(SCError::UnknownVariant(s.to_owned()))
    }
}

// ---------------------------------------------------------------------------
// Writing decimal literals
// ---------------------------------------------------------------------------

/// The bytes of the decimal numeral of the non-negative number `v`.
pub open spec fn dec_bytes(v: int) -> Seq<u8>
    decreases v,
{
    if 0 <= v < 10 {
        seq![(48 + v) as u8]
    } else if v >= 10 {
        dec_bytes(v / 10).push((48 + v % 10) as u8)
    } else {
        Seq::empty()
    }
}

/// The decimal numeral of the non-negative number `v`, as characters.
pub open spec fn u64_chars(v: int) -> Seq<char> {
    dec_bytes(v).map_values(|b: u8| b as char)
}

/// The decimal numeral of `v`, as characters, with a minus sign where `v`
/// is negative.
pub open spec fn i64_chars(v: int) -> Seq<char> {
    if v >= 0 {
        u64_chars(v)
    } else {
        seq!['-'].add(u64_chars(-v))
    }
}

/// Every byte of a decimal numeral is a digit.
proof fn lemma_dec_bytes_ascii(v: int)
    requires
        v >= 0,
    ensures
        forall|i: int| 0 <= i < dec_bytes(v).len() ==> 48 <= #[trigger] dec_bytes(v)[i] <= 57,
    decreases v,
{
    if v >= 10 {
        lemma_dec_bytes_ascii(v / 10);
        assert forall|i: int| 0 <= i < dec_bytes(v).len() implies 48 <= #[trigger] dec_bytes(
            v,
        )[i] <= 57 by {
            if i < dec_bytes(v).len() - 1 {
                assert(dec_bytes(v)[i] == dec_bytes(v / 10)[i]);
            }
        }
    }
}

/// Relies on std's `String::from_utf8`: bytes below 128 are valid UTF-8 and
/// decode one for one.
#[verifier::external_body]
fn ascii_to_string(bytes: Vec<u8>) -> (r: String)
    requires
        forall|i: int| 0 <= i < bytes@.len() ==> bytes@[i] < 128,
    ensures
        r@ == bytes@.map_values(|b: u8| b as char),
{
    String::from_utf8(bytes).expect("bytes below 128 are valid UTF-8")
}

/// Appends the decimal digits of `v` to `out`.
fn push_u64_digits(v: u64, out: &mut Vec<u8>)
    ensures
        final(out)@ == old(out)@ + dec_bytes(v as int),
    decreases v,
{
    if v < 10 {
        out.push(48 + v as u8);
        proof {
            assert(out@ =~= old(out)@ + dec_bytes(v as int));
        }
    } else {
        push_u64_digits(v / 10, out);
        out.push(48 + (v % 10) as u8);
        proof {
            assert(out@ =~= old(out)@ + dec_bytes(v as int));
        }
    }
}

/// The decimal numeral of `v`.
pub fn u64_to_string(v: u64) -> (r: String)
    ensures
        r@ == u64_chars(v as int),
{
    let mut bytes: Vec<u8> = Vec::new();
    push_u64_digits(v, &mut bytes);
    proof {
        lemma_dec_bytes_ascii(v as int);
        assert(bytes@ =~= dec_bytes(v as int));
    }
    let r = ascii_to_string(bytes);
    proof {
        assert(r@ =~= u64_chars(v as int));
    }
    r
}

/// The decimal numeral of `v`, with a minus sign where `v` is negative.
pub fn i64_to_string(v: i64) -> (r: String)
    ensures
        r@ == i64_chars(v as int),
{
    let mut bytes: Vec<u8> = Vec::new();
    let m: u64 = if v >= 0 {
        v as u64
    } else {
        bytes.push(45);
        if v == i64::MIN {
            9223372036854775808u64
        } else {
            (-v) as u64
        }
    };
    push_u64_digits(m, &mut bytes);
    proof {
        lemma_dec_bytes_ascii(m as int);
        assert(forall|i: int| 0 <= i < bytes@.len() ==> bytes@[i] < 128);
    }
    let r = ascii_to_string(bytes);
    proof {
        let gv = v as int;
        assert(m as int == if gv >= 0 { gv } else { -gv });
        assert forall|i: int| 0 <= i < r@.len() implies r@[i] == i64_chars(gv)[i] by {
            if gv >= 0 {
                assert(bytes@[i] == dec_bytes(m as int)[i]);
            } else if i == 0 {
                assert(bytes@[0] == 45u8);
                assert(i64_chars(gv)[0] == '-');
                assert(('-') as u32 == 45);
            } else {
                assert(bytes@[i] == dec_bytes(m as int)[i - 1]);
                assert(i64_chars(gv)[i] == dec_bytes(m as int)[i - 1] as char);
            }
        }
        assert(r@ =~= i64_chars(gv));
    }
    r
}

} // verus!
