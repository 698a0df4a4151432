//! Hexadecimal decoding of configured sentinel patterns.
//!
//! A placeholder's pattern arrives as hex text and must round-trip
//! losslessly into raw bytes of fixed width.

use vstd::prelude::*;

use crate::error::Error;

verus! {

/// True when `c` is an ASCII hexadecimal digit.
pub open spec fn is_hex_digit(c: char) -> bool {
    (48 <= c as u32 && c as u32 <= 57) || (97 <= c as u32 && c as u32 <= 102) || (65 <= c as u32
        && c as u32 <= 70)
}

/// Numeric value of an ASCII hexadecimal digit.
pub open spec fn hex_digit_value(c: char) -> int {
    if 48 <= c as u32 && c as u32 <= 57 {
        c as u32 - 48
    } else if 97 <= c as u32 && c as u32 <= 102 {
        c as u32 - 87
    } else {
        c as u32 - 55
    }
}

/// A hex text is well formed when its length is even and every character is
/// a hexadecimal digit.
pub open spec fn valid_hex(s: Seq<char>) -> bool {
    s.len() % 2 == 0 && (forall|i: int| 0 <= i < s.len() ==> is_hex_digit(#[trigger] s[i]))
}

/// The bytes a well-formed hex text denotes: two digits per byte, high
/// digit first.
pub open spec fn hex_bytes(s: Seq<char>) -> Seq<u8> {
    Seq::new(
        (s.len() / 2) as nat,
        |k: int| (16 * hex_digit_value(s[2 * k]) + hex_digit_value(s[2 * k + 1])) as u8,
    )
}

/// Numeric value of one hex digit character, or `None` when it is not one.
fn hex_digit(c: char) -> (r: Option<u8>)
    ensures
        is_hex_digit(c) ==> {
            &&& 0 <= hex_digit_value(c) < 16
            &&& r == Some(hex_digit_value(c) as u8)
        },
        !is_hex_digit(c) ==> r is None,
{
    let x = c as u32;
    if 48 <= x && x <= 57 {
        Some((x - 48) as u8)
    } else if 97 <= x && x <= 102 {
        Some((x - 87) as u8)
    } else if 65 <= x && x <= 70 {
        Some((x - 55) as u8)
    } else {
        None
    }
}

/// Decode hex text into the raw sentinel bytes it denotes.
///
/// Succeeds exactly on well-formed hex text; anything else is a
/// configuration authoring error.
pub fn decode_hex(s: &str) -> (r: Result<Vec<u8>, Error>)
    ensures
        match r {
            Ok(bytes) => valid_hex(s@) && bytes@ == hex_bytes(s@),
            Err(e) => !valid_hex(s@) && e is ConfigurationError,
        },
{
    let n = s.unicode_len();
    if n % 2 != 0 {
        return Err(Error::ConfigurationError);
    }
    let mut out: Vec<u8> = Vec::new();
    let mut i: usize = 0;
    while i < n
        invariant
            n == s@.len(),
            i <= n,
            i % 2 == 0,
            n % 2 == 0,
            out@.len() == i / 2,
            forall|k: int|
                0 <= k < i / 2 ==> out@[k] == (16 * hex_digit_value(s@[2 * k]) + hex_digit_value(
                    s@[2 * k + 1],
                )) as u8,
            forall|j: int| 0 <= j < i ==> is_hex_digit(#[trigger] s@[j]),
        decreases n - i,
    {
        let c1 = s.get_char(i);
        let c2 = s.get_char(i + 1);
        let d1 = match hex_digit(c1) {
            Some(d) => d,
            None => {
                proof {
                    assert(!is_hex_digit(s@[i as int]));
                }
                return Err(Error::ConfigurationError);
            },
        };
        let d2 = match hex_digit(c2) {
            Some(d) => d,
            None => {
                proof {
                    assert(!is_hex_digit(s@[i + 1]));
                }
                return Err(Error::ConfigurationError);
            },
        };
        out.push(16 * d1 + d2);
        i = i + 2;
    }
    proof {
        assert(out@ =~= hex_bytes(s@));
    }
    Ok(out)
}

} // verus!
