use vstd::prelude::*;

verus! {

/// The value of one hex digit (the ASCII ranges 0-9, a-f and A-F),
/// or nothing for any other byte.
pub open spec fn hex_digit_value(d: u8) -> Option<u8> {
    if 48 <= d <= 57 {
        Some((d - 48) as u8)
    } else if 97 <= d <= 102 {
        Some((d - 97 + 10) as u8)
    } else if 65 <= d <= 70 {
        Some((d - 65 + 10) as u8)
    } else {
        None
    }
}

/// The bytes a hex string encodes, two digits per byte, or nothing
/// if a byte is not a digit or a digit is left over.
pub open spec fn hex_bytes(digits: Seq<u8>) -> Option<Seq<u8>>
    decreases digits.len(),
{
    if digits.len() == 0 {
        Some(Seq::empty())
    } else if digits.len() == 1 {
        None
    } else {
        match (hex_digit_value(digits[0]), hex_digit_value(digits[1]), hex_bytes(
            digits.skip(2),
        )) {
            (Some(hi), Some(lo), Some(rest)) => Some(seq![(hi * 16 + lo) as u8] + rest),
            _ => None,
        }
    }
}

fn hex_digit(d: u8) -> (r: Option<u8>)
    ensures
        r == hex_digit_value(d),
{
    if 48 <= d && d <= 57 {
        Some(d - 48)
    } else if 97 <= d && d <= 102 {
        Some(d - 97 + 10)
    } else if 65 <= d && d <= 70 {
        Some(d - 65 + 10)
    } else {
        None
    }
}

/// Decode a hex-encoded transaction into its raw bytes: exactly the
/// bytes the string encodes, or nothing for a string that is not
/// well-formed hex.
pub fn decode_hex(digits: &[u8]) -> (r: Option<Vec<u8>>)
    ensures
        (match r {
            Some(bytes) => hex_bytes(digits@) == Some(bytes@),
            None => hex_bytes(digits@) is None,
        }),
{
    let mut out: Vec<u8> = Vec::new();
    let mut i: usize = 0;
    proof {
        assert(digits@.skip(0) =~= digits@);
        match hex_bytes(digits@) {
            Some(rest) => {
                assert(out@ + rest =~= rest);
            }
            None => {}
        }
    }
    while i + 1 < digits.len()
        invariant
            i % 2 == 0,
            i <= digits@.len(),
            (match hex_bytes(digits@.skip(i as int)) {
                Some(rest) => hex_bytes(digits@) == Some(out@ + rest),
                None => hex_bytes(digits@) is None,
            }),
        decreases digits@.len() - i,
    {
        proof {
            assert(digits@.skip(i as int)[0] == digits@[i as int]);
            assert(digits@.skip(i as int)[1] == digits@[i + 1 as int]);
            assert(digits@.skip(i as int).skip(2) =~= digits@.skip(i + 2 as int));
        }
        let hi = hex_digit(digits[i]);
        let lo = hex_digit(digits[i + 1]);
        match (hi, lo) {
            (Some(hi), Some(lo)) => {
                out.push(hi * 16 + lo);
                proof {
                    match hex_bytes(digits@.skip(i + 2 as int)) {
                        Some(rest) => {
                            assert(hex_bytes(digits@.skip(i as int))
                                == Some(seq![(hi * 16 + lo) as u8] + rest));
                            assert(out@ + rest =~= out@.drop_last() + (seq![(hi * 16 + lo) as u8]
                                + rest));
                        }
                        None => {}
                    }
                }
            }
            _ => {
                return None;
            }
        }
        i = i + 2;
    }
    if i < digits.len() {
        proof {
            assert(digits@.skip(i as int).len() == 1);
        }
        return None;
    }
    proof {
        assert(digits@.skip(i as int) =~= Seq::<u8>::empty());
        assert(out@ + Seq::<u8>::empty() =~= out@);
    }
    Some(out)
}

} // verus!
