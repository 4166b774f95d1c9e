//! Base64 (RFC 4648 §4, standard alphabet, `=` padding) as a specification,
//! together with the trusted encoder and a decode round-trip proof.

use vstd::prelude::*;

verus! {

/// The standard-alphabet character for a 6-bit value.
pub open spec fn b64_char(i: int) -> char {
    if 0 <= i < 26 {
        (65 + i) as char  // 'A'..='Z'
    } else if 26 <= i < 52 {
        (71 + i) as char  // 'a'..='z'
    } else if 52 <= i < 62 {
        (i - 4) as char  // '0'..='9'
    } else if i == 62 {
        '+'
    } else {
        '/'
    }
}

/// The 6-bit value of a standard-alphabet character.
pub open spec fn b64_index(c: char) -> int {
    let v = c as int;
    if 65 <= v <= 90 {
        v - 65
    } else if 97 <= v <= 122 {
        v - 97 + 26
    } else if 48 <= v <= 57 {
        v - 48 + 52
    } else if c == '+' {
        62
    } else {
        63
    }
}

/// Base64 of a byte sequence: each 3-byte group becomes 4 alphabet
/// characters; a 1- or 2-byte tail is padded with `=`.
pub open spec fn b64_of(s: Seq<u8>) -> Seq<char>
    decreases s.len(),
{
    if s.len() == 0 {
        Seq::<char>::empty()
    } else if s.len() == 1 {
        let b0 = s[0] as int;
        seq![b64_char(b0 / 4), b64_char((b0 % 4) * 16), '=', '=']
    } else if s.len() == 2 {
        let b0 = s[0] as int;
        let b1 = s[1] as int;
        seq![b64_char(b0 / 4), b64_char((b0 % 4) * 16 + b1 / 16), b64_char((b1 % 16) * 4), '=']
    } else {
        let b0 = s[0] as int;
        let b1 = s[1] as int;
        let b2 = s[2] as int;
        seq![
            b64_char(b0 / 4),
            b64_char((b0 % 4) * 16 + b1 / 16),
            b64_char((b1 % 16) * 4 + b2 / 64),
            b64_char(b2 % 64),
        ] + b64_of(s.skip(3))
    }
}

/// Inverse reading of a base64 text: four characters at a time, with a group
/// cut short by `=` padding.
pub open spec fn b64_decode(s: Seq<char>) -> Seq<u8>
    decreases s.len(),
{
    if s.len() < 4 {
        Seq::<u8>::empty()
    } else {
        let i0 = b64_index(s[0]);
        let i1 = b64_index(s[1]);
        if s[2] == '=' {
            seq![(i0 * 4 + i1 / 16) as u8]
        } else {
            let i2 = b64_index(s[2]);
            if s[3] == '=' {
                seq![(i0 * 4 + i1 / 16) as u8, ((i1 % 16) * 16 + i2 / 4) as u8]
            } else {
                let i3 = b64_index(s[3]);
                seq![
                    (i0 * 4 + i1 / 16) as u8,
                    ((i1 % 16) * 16 + i2 / 4) as u8,
                    ((i2 % 4) * 64 + i3) as u8,
                ] + b64_decode(s.skip(4))
            }
        }
    }
}

/// The alphabet mapping is invertible and never yields the padding mark.
pub proof fn lemma_b64_char_index(i: int)
    requires
        0 <= i < 64,
    ensures
        b64_index(b64_char(i)) == i,
        b64_char(i) != '=',
{
}

proof fn lemma_div_mul_add(a: int, q: int, k: int)
    by (nonlinear_arith)
    requires
        k > 0,
        0 <= q < k,
        0 <= a,
    ensures
        (a * k + q) / k == a,
        (a * k + q) % k == q,
{
}

/// Decoding inverts encoding: the `Data` text a payload is framed into
/// recovers that payload byte for byte.
pub proof fn lemma_b64_round_trip(p: Seq<u8>)
    ensures
        b64_decode(b64_of(p)) == p,
    decreases p.len(),
{
    if p.len() == 0 {
        assert(b64_decode(b64_of(p)) =~= p);
    } else if p.len() == 1 {
        let b0 = p[0] as int;
        lemma_b64_char_index(b0 / 4);
        lemma_b64_char_index((b0 % 4) * 16);
        lemma_div_mul_add(b0 % 4, 0, 16);
        assert(b64_decode(b64_of(p)) =~= p);
    } else if p.len() == 2 {
        let b0 = p[0] as int;
        let b1 = p[1] as int;
        lemma_b64_char_index(b0 / 4);
        lemma_b64_char_index((b0 % 4) * 16 + b1 / 16);
        lemma_b64_char_index((b1 % 16) * 4);
        lemma_div_mul_add(b0 % 4, b1 / 16, 16);
        lemma_div_mul_add(b1 % 16, 0, 4);
        assert(b64_decode(b64_of(p)) =~= p);
    } else {
        let b0 = p[0] as int;
        let b1 = p[1] as int;
        let b2 = p[2] as int;
        lemma_b64_char_index(b0 / 4);
        lemma_b64_char_index((b0 % 4) * 16 + b1 / 16);
        lemma_b64_char_index((b1 % 16) * 4 + b2 / 64);
        lemma_b64_char_index(b2 % 64);
        lemma_div_mul_add(b0 % 4, b1 / 16, 16);
        lemma_div_mul_add(b1 % 16, b2 / 64, 4);
        lemma_b64_round_trip(p.skip(3));
        assert(b64_of(p).skip(4) =~= b64_of(p.skip(3)));
        assert(b64_decode(b64_of(p)) =~= p);
    }
}

/// Relies on base64's `BASE64_STANDARD` engine: RFC 4648 §4 standard
/// alphabet with `=` padding, applied to the raw bytes.
#[verifier::external_body]
pub fn base64_encode(data: &[u8]) -> (r: String)
    ensures
        r@ == b64_of(data@),
{
    base64::Engine::encode(&base64::prelude::BASE64_STANDARD, data)
}

} // verus!
