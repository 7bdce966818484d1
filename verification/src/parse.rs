//! Parsing the integer path and query parameters that callers supply,
//! with the failure collapsing to the taxonomy's bad-input outcome.

use vstd::prelude::*;

use crate::errors::AppError;
use vstd::string::StringSliceAdditionalSpecFns;

verus! {

/// An ASCII decimal digit.
pub open spec fn is_digit(b: u8) -> bool {
    48 <= b && b <= 57
}

/// The number the digit bytes spell in base ten.
pub open spec fn digits_val(s: Seq<u8>) -> int
    decreases s.len(),
{
    if s.len() == 0 {
        0
    } else {
        digits_val(s.drop_last()) * 10 + (s.last() - 48)
    }
}

/// Every byte is a decimal digit.
pub open spec fn all_digits(s: Seq<u8>) -> bool {
    forall|i: int| 0 <= i < s.len() ==> is_digit(#[trigger] s[i])
}

/// The digit part: everything after an optional leading `+` or `-`.
pub open spec fn int_body(s: Seq<u8>) -> Seq<u8> {
    if s.len() > 0 && (s[0] == 43 || s[0] == 45) {
        s.drop_first()
    } else {
        s
    }
}

/// A leading `-`.
pub open spec fn int_negative(s: Seq<u8>) -> bool {
    s.len() > 0 && s[0] == 45
}

/// The byte sequences `i32` parsing accepts: an optional sign, then at
/// least one digit and nothing else, spelling a value the type can hold.
pub open spec fn valid_i32_bytes(s: Seq<u8>) -> bool {
    &&& int_body(s).len() > 0
    &&& all_digits(int_body(s))
    &&& if int_negative(s) {
        digits_val(int_body(s)) <= 0x8000_0000
    } else {
        digits_val(int_body(s)) < 0x8000_0000
    }
}

/// The value an accepted byte sequence spells.
pub open spec fn i32_bytes_value(s: Seq<u8>) -> int {
    if int_negative(s) {
        -digits_val(int_body(s))
    } else {
        digits_val(int_body(s))
    }
}

/// Read a caller-supplied decimal `i32`: an optional sign, then at least
/// one digit and nothing else, within the type's range. Anything else is
/// the caller's bad input.
pub fn parse_i32(s: &str) -> (r: Result<i32, AppError>)
    ensures
        match r {
            Ok(v) => valid_i32_bytes(s.spec_bytes()) && v as int == i32_bytes_value(
                s.spec_bytes(),
            ),
            Err(e) => e == AppError::BadRequest && !valid_i32_bytes(s.spec_bytes()),
        },
{
    let b = s.as_bytes();
    let ghost bs = s.spec_bytes();
    let n = b.len();
    let mut start: usize = 0;
    let mut neg = false;
    if n > 0 && (b[0] == 43 || b[0] == 45) {
        neg = b[0] == 45;
        start = 1;
    }
    proof {
        assert(int_body(bs) =~= bs.subrange(start as int, n as int));
        assert(neg == int_negative(bs));
    }
    if start == n {
        return Err(AppError::BadRequest);
    }
    let ghost body = int_body(bs);
    let mut acc: u64 = 0;
    let mut over = false;
    let mut i: usize = start;
    while i < n
        invariant
            start <= i <= n,
            n == bs.len(),
            b@ == bs,
            bs == s.spec_bytes(),
            neg == int_negative(bs),
            body == int_body(bs),
            body == bs.subrange(start as int, n as int),
            all_digits(bs.subrange(start as int, i as int)),
            !over ==> acc == digits_val(bs.subrange(start as int, i as int)) && acc
                <= 0x8000_0000,
            over ==> digits_val(bs.subrange(start as int, i as int)) > 0x8000_0000 && acc
                <= 0x8000_0001,
        decreases n - i,
    {
        let c = b[i];
        if !(48 <= c && c <= 57) {
            proof {
                assert(body[i as int - start as int] == bs[i as int]);
                assert(!all_digits(body));
            }
            return Err(AppError::BadRequest);
        }
        let ghost pfx = bs.subrange(start as int, i as int);
        let ghost pfx1 = bs.subrange(start as int, i as int + 1);
        proof {
            assert(pfx1.drop_last() =~= pfx);
            assert(pfx1.last() == bs[i as int]);
            assert(digits_val(pfx1) == digits_val(pfx) * 10 + (c - 48));
            assert forall|x: int| 0 <= x < pfx1.len() implies is_digit(#[trigger] pfx1[x]) by {
                if x < pfx.len() {
                    assert(pfx1[x] == pfx[x]);
                }
            }
        }
        acc = acc * 10 + ((c - 48) as u64);
        if acc > 0x8000_0000 {
            over = true;
            acc = 0x8000_0001;
        }
        i = i + 1;
    }
    proof {
        assert(bs.subrange(start as int, n as int) =~= body);
    }
    if over {
        return Err(AppError::BadRequest);
    }
    if neg {
        if acc == 0x8000_0000 {
            Ok(i32::MIN)
        } else {
            Ok(-(acc as i32))
        }
    } else {
        if acc >= 0x8000_0000 {
            Err(AppError::BadRequest)
        } else {
            Ok(acc as i32)
        }
    }
}

} // verus!
