//! The token text layer: URL-safe base64 without padding.
//!
//! `enc_b64` is the canonical definition of the token alphabet and grouping;
//! `dec_b64` accepts exactly the canonical encodings and inverts `enc_b64`
//! (`lemma_dec_enc_b64`). The byte work itself is done by the base64 crate
//! through the two trusted wrappers at the bottom.

use vstd::prelude::*;
use vstd::arithmetic::div_mod::lemma_fundamental_div_mod_converse;

verus! {

/// Character of the URL-safe alphabet for a six-bit value:
/// `A`-`Z`, `a`-`z`, `0`-`9`, `-`, `_`.
pub open spec fn b64_char(v: int) -> char {
    if 0 <= v < 26 {
        ((65 + v) as u32) as char
    } else if 26 <= v < 52 {
        ((97 + (v - 26)) as u32) as char
    } else if 52 <= v < 62 {
        ((48 + (v - 52)) as u32) as char
    } else if v == 62 {
        '-'
    } else {
        '_'
    }
}

/// Six-bit value of a token character; -1 when it is not in the alphabet.
pub open spec fn b64_val(c: char) -> int {
    let u = c as u32;
    if 65 <= u <= 90 {
        u - 65
    } else if 97 <= u <= 122 {
        (u - 97) + 26
    } else if 48 <= u <= 57 {
        (u - 48) + 52
    } else if u == 45 {
        62
    } else if u == 95 {
        63
    } else {
        -1
    }
}

pub open spec fn is_b64_char(c: char) -> bool {
    b64_val(c) >= 0
}

proof fn lemma_b64_val_char(v: int)
    requires
        0 <= v < 64,
    ensures
        b64_val(b64_char(v)) == v,
{
}

/// Canonical unpadded URL-safe base64 of a byte string: three bytes become
/// four characters; a final byte becomes two, a final pair three, with the
/// unused low bits of the last character zero.
pub open spec fn enc_b64(s: Seq<u8>) -> Seq<char>
    decreases s.len(),
{
    if s.len() == 0 {
        Seq::<char>::empty()
    } else if s.len() == 1 {
        let b0 = s[0] as int;
        seq![b64_char(b0 / 4), b64_char((b0 % 4) * 16)]
    } else if s.len() == 2 {
        let b0 = s[0] as int;
        let b1 = s[1] as int;
        seq![b64_char(b0 / 4), b64_char((b0 % 4) * 16 + b1 / 16), b64_char((b1 % 16) * 4)]
    } else {
        let b0 = s[0] as int;
        let b1 = s[1] as int;
        let b2 = s[2] as int;
        seq![
            b64_char(b0 / 4),
            b64_char((b0 % 4) * 16 + b1 / 16),
            b64_char((b1 % 16) * 4 + b2 / 64),
            b64_char(b2 % 64),
        ] + enc_b64(s.skip(3))
    }
}

/// Inverse of `enc_b64`: `None` on a character outside the alphabet, on a
/// length one more than a multiple of four, and on nonzero trailing bits.
pub open spec fn dec_b64(s: Seq<char>) -> Option<Seq<u8>>
    decreases s.len(),
{
    if s.len() == 0 {
        Some(Seq::<u8>::empty())
    } else if s.len() == 1 {
        None
    } else if s.len() == 2 {
        let v0 = b64_val(s[0]);
        let v1 = b64_val(s[1]);
        if v0 >= 0 && v1 >= 0 && v1 % 16 == 0 {
            Some(seq![(v0 * 4 + v1 / 16) as u8])
        } else {
            None
        }
    } else if s.len() == 3 {
        let v0 = b64_val(s[0]);
        let v1 = b64_val(s[1]);
        let v2 = b64_val(s[2]);
        if v0 >= 0 && v1 >= 0 && v2 >= 0 && v2 % 4 == 0 {
            Some(seq![(v0 * 4 + v1 / 16) as u8, ((v1 % 16) * 16 + v2 / 4) as u8])
        } else {
            None
        }
    } else {
        let v0 = b64_val(s[0]);
        let v1 = b64_val(s[1]);
        let v2 = b64_val(s[2]);
        let v3 = b64_val(s[3]);
        if v0 >= 0 && v1 >= 0 && v2 >= 0 && v3 >= 0 {
            match dec_b64(s.skip(4)) {
                None => None,
                Some(rest) => Some(
                    seq![
                        (v0 * 4 + v1 / 16) as u8,
                        ((v1 % 16) * 16 + v2 / 4) as u8,
                        ((v2 % 4) * 64 + v3) as u8,
                    ] + rest,
                ),
            }
        } else {
            None
        }
    }
}

/// Splitting a value into a multiple of `d` plus a remainder pins down its
/// quotient and remainder by `d`.
proof fn lemma_split_div(x: int, y: int, d: int)
    requires
        0 <= x,
        0 <= y < d,
    ensures
        (x * d + y) / d == x,
        (x * d + y) % d == y,
{
    lemma_fundamental_div_mod_converse(x * d + y, d, x, y);
}

/// Decoding inverts encoding, byte for byte.
pub proof fn lemma_dec_enc_b64(s: Seq<u8>)
    ensures
        dec_b64(enc_b64(s)) == Some(s),
    decreases s.len(),
{
    if s.len() == 0 {
    } else if s.len() == 1 {
        let b0 = s[0] as int;
        lemma_b64_val_char(b0 / 4);
        lemma_b64_val_char((b0 % 4) * 16);
        lemma_split_div(b0 % 4, 0, 16);
        assert((b0 / 4) * 4 + b0 % 4 == b0);
        assert(seq![((b0 / 4) * 4 + b0 % 4) as u8] =~= s);
    } else if s.len() == 2 {
        let b0 = s[0] as int;
        let b1 = s[1] as int;
        let v1 = (b0 % 4) * 16 + b1 / 16;
        let v2 = (b1 % 16) * 4;
        lemma_b64_val_char(b0 / 4);
        lemma_b64_val_char(v1);
        lemma_b64_val_char(v2);
        lemma_split_div(b0 % 4, b1 / 16, 16);
        lemma_split_div(b1 % 16, 0, 4);
        assert((b0 / 4) * 4 + v1 / 16 == b0);
        assert((v1 % 16) * 16 + v2 / 4 == b1);
        assert(seq![b0 as u8, b1 as u8] =~= s);
    } else {
        let b0 = s[0] as int;
        let b1 = s[1] as int;
        let b2 = s[2] as int;
        let v0 = b0 / 4;
        let v1 = (b0 % 4) * 16 + b1 / 16;
        let v2 = (b1 % 16) * 4 + b2 / 64;
        let v3 = b2 % 64;
        lemma_b64_val_char(v0);
        lemma_b64_val_char(v1);
        lemma_b64_val_char(v2);
        lemma_b64_val_char(v3);
        lemma_split_div(b0 % 4, b1 / 16, 16);
        lemma_split_div(b1 % 16, b2 / 64, 4);
        lemma_dec_enc_b64(s.skip(3));
        let e = enc_b64(s);
        assert(e.skip(4) =~= enc_b64(s.skip(3)));
        assert(e[0] == b64_char(v0) && e[1] == b64_char(v1) && e[2] == b64_char(v2) && e[3]
            == b64_char(v3));
        assert(v0 * 4 + v1 / 16 == b0);
        assert((v1 % 16) * 16 + v2 / 4 == b1);
        assert((v2 % 4) * 64 + v3 == b2);
        assert(seq![b0 as u8, b1 as u8, b2 as u8] + s.skip(3) =~= s);
    }
}

/// Every character the encoder produces lies in the URL-safe alphabet; in
/// particular it is never `+`, `/` or `=`.
pub proof fn lemma_enc_b64_charset(s: Seq<u8>)
    ensures
        forall|i: int|
            0 <= i < enc_b64(s).len() ==> is_b64_char(#[trigger] enc_b64(s)[i]),
    decreases s.len(),
{
    if s.len() == 0 {
    } else if s.len() == 1 {
        let b0 = s[0] as int;
        lemma_b64_val_char(b0 / 4);
        lemma_b64_val_char((b0 % 4) * 16);
    } else if s.len() == 2 {
        let b0 = s[0] as int;
        let b1 = s[1] as int;
        lemma_b64_val_char(b0 / 4);
        lemma_b64_val_char((b0 % 4) * 16 + b1 / 16);
        lemma_b64_val_char((b1 % 16) * 4);
    } else {
        let b0 = s[0] as int;
        let b1 = s[1] as int;
        let b2 = s[2] as int;
        lemma_b64_val_char(b0 / 4);
        lemma_b64_val_char((b0 % 4) * 16 + b1 / 16);
        lemma_b64_val_char((b1 % 16) * 4 + b2 / 64);
        lemma_b64_val_char(b2 % 64);
        lemma_enc_b64_charset(s.skip(3));
        assert(enc_b64(s).skip(4) =~= enc_b64(s.skip(3)));
        assert forall|i: int| 0 <= i < enc_b64(s).len() implies is_b64_char(
            #[trigger] enc_b64(s)[i],
        ) by {
            if i >= 4 {
                assert(enc_b64(s)[i] == enc_b64(s.skip(3))[i - 4]);
            }
        }
    }
}

/// Relies on base64's `URL_SAFE_NO_PAD` engine: encodes bytes as unpadded
/// URL-safe base64 text.
#[verifier::external_body]
pub fn b64_encode(data: &Vec<u8>) -> (r: String)
    ensures
        r@ == enc_b64(data@),
{
    base64::Engine::encode(&base64::engine::general_purpose::URL_SAFE_NO_PAD, data)
}

/// Relies on base64's `URL_SAFE_NO_PAD` engine: decoding accepts exactly the
/// canonical unpadded URL-safe encodings (it rejects foreign characters,
/// padding, a length of one more than a multiple of four, and nonzero
/// trailing bits) and inverts the encoder.
#[verifier::external_body]
pub fn b64_decode(token: &str) -> (r: Option<Vec<u8>>)
    ensures
        match r {
            Some(v) => dec_b64(token@) == Some(v@),
            None => dec_b64(token@) is None,
        },
{
    match base64::Engine::decode(&base64::engine::general_purpose::URL_SAFE_NO_PAD, token) {
        Ok(v) => Some(v),
        Err(_) => None,
    }
}

} // verus!
