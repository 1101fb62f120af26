//! Hexadecimal decoding of secrets, with an exact sequence-level
//! specification: a string decodes iff it has even length and every byte is a
//! hex digit, and each output byte is the value of one digit pair.

use vstd::prelude::*;

verus! {

/// ASCII hexadecimal digit, upper or lower case.
pub open spec fn is_hex_digit(b: u8) -> bool {
    (48 <= b <= 57) || (97 <= b <= 102) || (65 <= b <= 70)
}

/// The value of one hexadecimal digit.
pub open spec fn hex_val(b: u8) -> u8 {
    if 48 <= b <= 57 {
        (b - 48) as u8
    } else if 97 <= b <= 102 {
        (b - 87) as u8
    } else {
        (b - 55) as u8
    }
}

/// `s` is a well-formed hexadecimal string: even length, digits only.
pub open spec fn hex_ok(s: Seq<u8>) -> bool {
    s.len() % 2 == 0 && forall|i: int| 0 <= i < s.len() ==> is_hex_digit(#[trigger] s[i])
}

/// The bytes that `s` encodes: one byte for each pair of digits.
pub open spec fn hex_decoded(s: Seq<u8>) -> Seq<u8> {
    Seq::new(s.len() / 2, |i: int| (hex_val(s[2 * i]) * 16 + hex_val(s[2 * i + 1])) as u8)
}

/// `s` with one leading `0x` removed, if it has one.
pub open spec fn strip_hex_prefix(s: Seq<u8>) -> Seq<u8> {
    if s.len() >= 2 && s[0] == 48 && s[1] == 120 {
        s.skip(2)
    } else {
        s
    }
}

/// The value of one hexadecimal digit byte.
fn hex_val_byte(b: u8) -> (r: u8)
    requires
        is_hex_digit(b),
    ensures
        r == hex_val(b),
        r < 16,
{
    if b <= 57 {
        b - 48
    } else if b >= 97 {
        b - 87
    } else {
        b - 55
    }
}

/// `v` with one leading `0x` removed, if it has one.
pub fn strip_prefix(v: &Vec<u8>) -> (r: Vec<u8>)
    ensures
        r@ == strip_hex_prefix(v@),
{
    let start: usize = if v.len() >= 2 && v[0] == 48 && v[1] == 120 {
        2
    } else {
        0
    };
    let mut r: Vec<u8> = Vec::new();
    let mut i: usize = start;
    while i < v.len()
        invariant
            start <= i <= v@.len(),
            r@ == v@.subrange(start as int, i as int),
        decreases v@.len() - i,
    {
        r.push(v[i]);
        proof {
            assert(v@.subrange(start as int, i + 1) =~= v@.subrange(start as int, i as int).push(
                v@[i as int],
            ));
        }
        i = i + 1;
    }
    proof {
        if v@.len() >= 2 && v@[0] == 48 && v@[1] == 120 {
            assert(r@ =~= v@.skip(2));
        } else {
            assert(r@ =~= v@);
        }
    }
    r
}

/// Decodes `v` as hexadecimal. Returns `Err` exactly when `v` has odd length
/// or holds a byte that is no hex digit.
pub fn decode_hex(v: &Vec<u8>) -> (r: Result<Vec<u8>, ()>)
    ensures
        match r {
            Ok(out) => hex_ok(v@) && out@ == hex_decoded(v@),
            Err(_) => !hex_ok(v@),
        },
{
    if v.len() % 2 != 0 {
        return Err(());
    }
    let mut out: Vec<u8> = Vec::new();
    let mut k: usize = 0;
    let half = v.len() / 2;
    proof {
        vstd::arithmetic::div_mod::lemma_fundamental_div_mod(v@.len() as int, 2);
    }
    while k < half
        invariant
            v@.len() % 2 == 0,
            v@.len() <= usize::MAX,
            half == v@.len() / 2,
            v@.len() == 2 * half,
            0 <= k <= half,
            forall|j: int| 0 <= j < 2 * k ==> is_hex_digit(#[trigger] v@[j]),
            out@.len() == k,
            forall|j: int| 0 <= j < k ==> out@[j] == #[trigger] hex_decoded(v@)[j],
        decreases half - k,
    {
        let a = v[2 * k];
        let b = v[2 * k + 1];
        let a_ok = (48 <= a && a <= 57) || (97 <= a && a <= 102) || (65 <= a && a <= 70);
        let b_ok = (48 <= b && b <= 57) || (97 <= b && b <= 102) || (65 <= b && b <= 70);
        if !a_ok || !b_ok {
            proof {
                if !a_ok {
                    assert(!is_hex_digit(v@[2 * k as int]));
                } else {
                    assert(!is_hex_digit(v@[2 * k + 1]));
                }
            }
            return Err(());
        }
        let hi = hex_val_byte(a);
        let lo = hex_val_byte(b);
        out.push(hi * 16 + lo);
        k = k + 1;
    }
    proof {
        assert(out@ =~= hex_decoded(v@));
    }
    Ok(out)
}

} // verus!
