//! Rendering the artifact's values as source text: decimal lengths and
//! brace-delimited, comma-separated lists of two-digit lowercase hexadecimal
//! byte literals, each with an exact byte-level specification.

use vstd::prelude::*;
use vstd::string::StringSliceAdditionalSpecFns;
use crate::EncryptedArtifact;

verus! {

/// The ASCII digits of `n` in base 10, most significant first.
pub open spec fn dec_digits(n: nat) -> Seq<u8>
    decreases n,
{
    if n < 10 {
        seq![(48 + n) as u8]
    } else {
        dec_digits(n / 10).push((48 + n % 10) as u8)
    }
}

/// The lowercase hexadecimal digit of a value below 16.
pub open spec fn hex_digit(d: u8) -> u8 {
    if d < 10 {
        (48 + d) as u8
    } else {
        (87 + d) as u8
    }
}

/// One byte as a literal: `0x` and two lowercase hexadecimal digits.
pub open spec fn byte_literal(b: u8) -> Seq<u8> {
    seq![48u8, 120u8, hex_digit(b / 16), hex_digit(b % 16)]
}

/// The byte literals of `s` joined with a comma and a space.
pub open spec fn byte_list(s: Seq<u8>) -> Seq<u8>
    decreases s.len(),
{
    if s.len() == 0 {
        Seq::empty()
    } else if s.len() == 1 {
        byte_literal(s[0])
    } else {
        byte_list(s.drop_last()) + seq![44u8, 32u8] + byte_literal(s.last())
    }
}

/// A byte list wrapped in braces.
pub open spec fn braced_byte_list(s: Seq<u8>) -> Seq<u8> {
    seq![123u8] + byte_list(s) + seq![125u8]
}

/// The digits of `n` in base 10.
pub fn render_decimal(n: usize) -> (r: Vec<u8>)
    ensures
        r@ == dec_digits(n as nat),
    decreases n,
{
    if n < 10 {
        let mut r: Vec<u8> = Vec::new();
        r.push(48 + n as u8);
        proof {
            assert(r@ =~= dec_digits(n as nat));
        }
        r
    } else {
        let mut r = render_decimal(n / 10);
        r.push(48 + (n % 10) as u8);
        proof {
            assert(r@ =~= dec_digits((n / 10) as nat).push((48 + n as nat % 10) as u8));
        }
        r
    }
}

/// The lowercase hexadecimal digit of a value below 16.
fn hex_digit_byte(d: u8) -> (r: u8)
    requires
        d < 16,
    ensures
        r == hex_digit(d),
{
    if d < 10 {
        48 + d
    } else {
        87 + d
    }
}

/// Appends the literal of one byte.
fn push_byte_literal(out: &mut Vec<u8>, b: u8)
    ensures
        final(out)@ == old(out)@ + byte_literal(b),
{
    out.push(48);
    out.push(120);
    out.push(hex_digit_byte(b / 16));
    out.push(hex_digit_byte(b % 16));
    proof {
        assert(out@ =~= old(out)@ + byte_literal(b));
    }
}

/// Renders `bytes` as a brace-delimited, comma-separated list of `0x..`
/// two-digit lowercase hexadecimal literals, exactly as the emitted source
/// text carries it.
pub fn render_byte_array(bytes: &Vec<u8>) -> (r: Vec<u8>)
    ensures
        r@ == braced_byte_list(bytes@),
{
    let mut out: Vec<u8> = Vec::new();
    out.push(123);
    let mut i: usize = 0;
    proof {
        assert(out@ =~= seq![123u8] + byte_list(bytes@.take(0)));
    }
    while i < bytes.len()
        invariant
            0 <= i <= bytes@.len(),
            out@ == seq![123u8] + byte_list(bytes@.take(i as int)),
        decreases bytes@.len() - i,
    {
        if i > 0 {
            out.push(44);
            out.push(32);
        }
        push_byte_literal(&mut out, bytes[i]);
        proof {
            let pre = bytes@.take(i as int);
            let now = bytes@.take(i + 1);
            assert(now.drop_last() =~= pre);
            assert(now.last() == bytes@[i as int]);
            if i == 0 {
                assert(byte_list(now) =~= byte_literal(bytes@[0]));
                assert(out@ =~= seq![123u8] + byte_list(now));
            } else {
                assert(byte_list(now) == byte_list(pre) + seq![44u8, 32u8] + byte_literal(
                    bytes@[i as int],
                ));
                assert(out@ =~= seq![123u8] + byte_list(now));
            }
        }
        i = i + 1;
    }
    out.push(125);
    proof {
        assert(bytes@.take(i as int) =~= bytes@);
        assert(out@ =~= braced_byte_list(bytes@));
    }
    out
}

/// One emitted line: a label, a value, a line feed.
pub open spec fn line_text(label: Seq<u8>, value: Seq<u8>) -> Seq<u8> {
    label + value + seq![10u8]
}

/// The whole emitted text: four C-preprocessor constant definitions — the
/// plaintext length, the ciphertext length, the IV bytes, and the ciphertext
/// bytes, the byte lists brace-delimited and comma-separated.
pub open spec fn artifact_text(plaintext_len: nat, iv: Seq<u8>, ciphertext: Seq<u8>) -> Seq<u8> {
    line_text("#define DECRYPTED_DATA_LEN ".spec_bytes(), dec_digits(plaintext_len)) + line_text(
        "#define ENCRYPTED_DATA_LEN ".spec_bytes(),
        dec_digits(ciphertext.len()),
    ) + line_text("#define AES_IV_INITIALIZER ".spec_bytes(), braced_byte_list(iv)) + line_text(
        "#define ENCRYPTED_DATA_INITIALIZER ".spec_bytes(),
        braced_byte_list(ciphertext),
    )
}

/// Renders the artifact as the exact four-line text that is emitted.
pub fn render_artifact(a: &EncryptedArtifact) -> (r: Vec<u8>)
    ensures
        r@ == artifact_text(a.plaintext_len as nat, a.iv@, a.ciphertext@),
{
    let mut out: Vec<u8> = Vec::new();
    out.extend_from_slice("#define DECRYPTED_DATA_LEN ".as_bytes());
    let plain_len = render_decimal(a.plaintext_len);
    out.extend_from_slice(plain_len.as_slice());
    out.push(10);
    out.extend_from_slice("#define ENCRYPTED_DATA_LEN ".as_bytes());
    let cipher_len = render_decimal(a.ciphertext.len());
    out.extend_from_slice(cipher_len.as_slice());
    out.push(10);
    out.extend_from_slice("#define AES_IV_INITIALIZER ".as_bytes());
    let iv_list = render_byte_array(&a.iv);
    out.extend_from_slice(iv_list.as_slice());
    out.push(10);
    out.extend_from_slice("#define ENCRYPTED_DATA_INITIALIZER ".as_bytes());
    let cipher_list = render_byte_array(&a.ciphertext);
    out.extend_from_slice(cipher_list.as_slice());
    out.push(10);
    proof {
        assert(out@ =~= artifact_text(a.plaintext_len as nat, a.iv@, a.ciphertext@));
    }
    out
}

} // verus!
