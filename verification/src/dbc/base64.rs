//! Base64 with the standard alphabet and no padding: the transport encoding
//! of byte-string payloads inside the serialized text format. Encoding and
//! decoding are verified against each other: decoding inverts encoding
//! exactly, byte for byte.

use vstd::prelude::*;

verus! {

/// The standard-alphabet character for a six-bit value.
pub open spec fn spec_b64_char(v: u8) -> u8
    recommends
        v < 64,
{
    if v < 26 {
        (65 + v) as u8
    } else if v < 52 {
        (71 + v) as u8
    } else if v < 62 {
        (v - 4) as u8
    } else if v == 62 {
        43u8
    } else {
        47u8
    }
}

/// The six-bit value of an alphabet character; 64 marks a byte outside the
/// alphabet.
pub open spec fn spec_b64_val(b: u8) -> u8 {
    if 65 <= b <= 90 {
        (b - 65) as u8
    } else if 97 <= b <= 122 {
        (b - 71) as u8
    } else if 48 <= b <= 57 {
        (b + 4) as u8
    } else if b == 43 {
        62u8
    } else if b == 47 {
        63u8
    } else {
        64u8
    }
}

/// Every six-bit group taken out of three bytes is below 64.
proof fn lemma_six_bits(b0: u8, b1: u8, b2: u8)
    ensures
        b0 >> 2 < 64,
        (b0 & 3) << 4 < 64,
        ((b0 & 3) << 4) | (b1 >> 4) < 64,
        (b1 & 15) << 2 < 64,
        ((b1 & 15) << 2) | (b2 >> 6) < 64,
        b2 & 63 < 64,
{
    assert(b0 >> 2 < 64 && (b0 & 3) << 4 < 64 && ((b0 & 3) << 4) | (b1 >> 4) < 64 && (b1 & 15)
        << 2 < 64 && ((b1 & 15) << 2) | (b2 >> 6) < 64 && b2 & 63 < 64) by (bit_vector);
}

/// Decoding an alphabet character gives back its six-bit value.
proof fn lemma_b64_char_val(v: u8)
    requires
        v < 64,
    ensures
        spec_b64_val(spec_b64_char(v)) == v,
{
}

/// The unpadded base64 encoding: each group of three bytes becomes four
/// characters; a final group of one or two bytes becomes two or three.
pub open spec fn spec_b64_encode(s: Seq<u8>) -> Seq<u8>
    decreases s.len(),
{
    if s.len() == 0 {
        Seq::empty()
    } else if s.len() == 1 {
        let b0 = s[0];
        seq![spec_b64_char(b0 >> 2), spec_b64_char((b0 & 3) << 4)]
    } else if s.len() == 2 {
        let b0 = s[0];
        let b1 = s[1];
        seq![
            spec_b64_char(b0 >> 2),
            spec_b64_char(((b0 & 3) << 4) | (b1 >> 4)),
            spec_b64_char((b1 & 15) << 2),
        ]
    } else {
        let b0 = s[0];
        let b1 = s[1];
        let b2 = s[2];
        seq![
            spec_b64_char(b0 >> 2),
            spec_b64_char(((b0 & 3) << 4) | (b1 >> 4)),
            spec_b64_char(((b1 & 15) << 2) | (b2 >> 6)),
            spec_b64_char(b2 & 63),
        ] + spec_b64_encode(s.skip(3))
    }
}

/// The inverse reading: `None` on a length that no encoding produces or on
/// a byte outside the alphabet.
pub open spec fn spec_b64_decode(s: Seq<u8>) -> Option<Seq<u8>>
    decreases s.len(),
{
    if s.len() == 0 {
        Some(Seq::empty())
    } else if s.len() == 1 {
        None
    } else if s.len() == 2 {
        let v0 = spec_b64_val(s[0]);
        let v1 = spec_b64_val(s[1]);
        if v0 < 64 && v1 < 64 {
            Some(seq![(v0 << 2) | (v1 >> 4)])
        } else {
            None
        }
    } else if s.len() == 3 {
        let v0 = spec_b64_val(s[0]);
        let v1 = spec_b64_val(s[1]);
        let v2 = spec_b64_val(s[2]);
        if v0 < 64 && v1 < 64 && v2 < 64 {
            Some(seq![(v0 << 2) | (v1 >> 4), ((v1 & 15) << 4) | (v2 >> 2)])
        } else {
            None
        }
    } else {
        let v0 = spec_b64_val(s[0]);
        let v1 = spec_b64_val(s[1]);
        let v2 = spec_b64_val(s[2]);
        let v3 = spec_b64_val(s[3]);
        if v0 < 64 && v1 < 64 && v2 < 64 && v3 < 64 {
            match spec_b64_decode(s.skip(4)) {
                Some(t) => Some(
                    seq![
                        (v0 << 2) | (v1 >> 4),
                        ((v1 & 15) << 4) | (v2 >> 2),
                        ((v2 & 3) << 6) | v3,
                    ] + t,
                ),
                None => None,
            }
        } else {
            None
        }
    }
}

/// Decoding inverts encoding, byte for byte.
pub proof fn lemma_b64_roundtrip(s: Seq<u8>)
    ensures
        spec_b64_decode(spec_b64_encode(s)) == Some(s),
    decreases s.len(),
{
    let e = spec_b64_encode(s);
    if s.len() == 0 {
        assert(spec_b64_decode(e) =~~= Some(s));
    } else if s.len() == 1 {
        let b0 = s[0];
        lemma_six_bits(b0, 0, 0);
        lemma_b64_char_val(b0 >> 2);
        lemma_b64_char_val((b0 & 3) << 4);
        assert(((b0 >> 2) << 2) | (((b0 & 3) << 4) >> 4) == b0) by (bit_vector);
        assert(spec_b64_decode(e) matches Some(t) && t =~= s);
    } else if s.len() == 2 {
        let b0 = s[0];
        let b1 = s[1];
        lemma_six_bits(b0, b1, 0);
        lemma_b64_char_val(b0 >> 2);
        lemma_b64_char_val(((b0 & 3) << 4) | (b1 >> 4));
        lemma_b64_char_val((b1 & 15) << 2);
        assert(((b0 >> 2) << 2) | ((((b0 & 3) << 4) | (b1 >> 4)) >> 4) == b0) by (bit_vector);
        assert((((((b0 & 3) << 4) | (b1 >> 4)) & 15) << 4) | (((b1 & 15) << 2) >> 2) == b1)
            by (bit_vector);
        assert(spec_b64_decode(e) matches Some(t) && t =~= s);
    } else {
        let b0 = s[0];
        let b1 = s[1];
        let b2 = s[2];
        lemma_six_bits(b0, b1, b2);
        lemma_b64_char_val(b0 >> 2);
        lemma_b64_char_val(((b0 & 3) << 4) | (b1 >> 4));
        lemma_b64_char_val(((b1 & 15) << 2) | (b2 >> 6));
        lemma_b64_char_val(b2 & 63);
        lemma_b64_roundtrip(s.skip(3));
        let rest = spec_b64_encode(s.skip(3));
        assert(e.len() == 4 + rest.len());
        assert(e.skip(4) =~= rest);
        assert(((b0 >> 2) << 2) | ((((b0 & 3) << 4) | (b1 >> 4)) >> 4) == b0) by (bit_vector);
        assert((((((b0 & 3) << 4) | (b1 >> 4)) & 15) << 4) | (((((b1 & 15) << 2) | (b2 >> 6))
            >> 2)) == b1) by (bit_vector);
        assert((((((b1 & 15) << 2) | (b2 >> 6)) & 3) << 6) | (b2 & 63) == b2) by (bit_vector);
        if rest.len() == 0 {
            assert(spec_b64_decode(e) matches Some(t) && t =~= s);
        } else {
            assert(rest.len() >= 2);
            assert(e.len() >= 6);
            assert(spec_b64_decode(e.skip(4)) == Some(s.skip(3)));
            assert(spec_b64_decode(e) matches Some(t) && t =~= seq![b0, b1, b2] + s.skip(3));
            assert(seq![b0, b1, b2] + s.skip(3) =~= s);
        }
    }
}

/// Encodes `s` as unpadded standard-alphabet base64.
pub fn serialize(s: &[u8]) -> (r: Vec<u8>)
    ensures
        r@ == spec_b64_encode(s@),
{
    let n = s.len();
    let mut out: Vec<u8> = Vec::new();
    let mut k: usize = 0;
    proof {
        assert(s@.skip(0) =~= s@);
    }
    while n - k >= 3
        invariant
            k <= n,
            n == s@.len(),
            spec_b64_encode(s@) == out@ + spec_b64_encode(s@.skip(k as int)),
        decreases n - k,
    {
        let b0 = s[k];
        let b1 = s[k + 1];
        let b2 = s[k + 2];
        proof {
            lemma_six_bits(b0, b1, b2);
        }
        out.push(b64_char(b0 >> 2));
        out.push(b64_char(((b0 & 3) << 4) | (b1 >> 4)));
        out.push(b64_char(((b1 & 15) << 2) | (b2 >> 6)));
        out.push(b64_char(b2 & 63));
        proof {
            let t = s@.skip(k as int);
            assert(t[0] == s@[k as int] && t[1] == s@[k + 1] && t[2] == s@[k + 2]);
            assert(t.skip(3) =~= s@.skip(k + 3));
        }
        k += 3;
    }
    if n - k == 1 {
        let b0 = s[k];
        proof {
            lemma_six_bits(b0, 0, 0);
        }
        out.push(b64_char(b0 >> 2));
        out.push(b64_char((b0 & 3) << 4));
        proof {
            let t = s@.skip(k as int);
            assert(t[0] == s@[k as int]);
            assert(spec_b64_encode(t) =~= seq![
                spec_b64_char(t[0] >> 2),
                spec_b64_char((t[0] & 3) << 4),
            ]);
            assert(out@ =~= spec_b64_encode(s@));
        }
    } else if n - k == 2 {
        let b0 = s[k];
        let b1 = s[k + 1];
        proof {
            lemma_six_bits(b0, b1, 0);
        }
        out.push(b64_char(b0 >> 2));
        out.push(b64_char(((b0 & 3) << 4) | (b1 >> 4)));
        out.push(b64_char((b1 & 15) << 2));
        proof {
            let t = s@.skip(k as int);
            assert(t[0] == s@[k as int] && t[1] == s@[k + 1]);
            assert(out@ =~= spec_b64_encode(s@));
        }
    } else {
        proof {
            assert(s@.skip(k as int).len() == 0);
            assert(out@ =~= spec_b64_encode(s@));
        }
    }
    out
}

/// The alphabet character for a six-bit value.
fn b64_char(v: u8) -> (r: u8)
    requires
        v < 64,
    ensures
        r == spec_b64_char(v),
{
    if v < 26 {
        65 + v
    } else if v < 52 {
        71 + v
    } else if v < 62 {
        v - 4
    } else if v == 62 {
        43
    } else {
        47
    }
}

/// The six-bit value of an alphabet character; 64 for anything else.
fn b64_val(b: u8) -> (r: u8)
    ensures
        r == spec_b64_val(b),
{
    if b >= 65 && b <= 90 {
        b - 65
    } else if b >= 97 && b <= 122 {
        b - 71
    } else if b >= 48 && b <= 57 {
        b + 4
    } else if b == 43 {
        62
    } else if b == 47 {
        63
    } else {
        64
    }
}

/// Decodes unpadded standard-alphabet base64, exactly inverting
/// [`serialize`]; `None` on any other input shape.
pub fn deserialize(s: &[u8]) -> (r: Option<Vec<u8>>)
    ensures
        match spec_b64_decode(s@) {
            Some(t) => r matches Some(v) && v@ == t,
            None => r is None,
        },
{
    let n = s.len();
    let mut out: Vec<u8> = Vec::new();
    let mut k: usize = 0;
    proof {
        assert(s@.skip(0) =~= s@);
    }
    while n - k >= 4
        invariant
            k <= n,
            n == s@.len(),
            spec_b64_decode(s@) == match spec_b64_decode(s@.skip(k as int)) {
                Some(t) => Some(out@ + t),
                None => None::<Seq<u8>>,
            },
        decreases n - k,
    {
        let v0 = b64_val(s[k]);
        let v1 = b64_val(s[k + 1]);
        let v2 = b64_val(s[k + 2]);
        let v3 = b64_val(s[k + 3]);
        proof {
            let t = s@.skip(k as int);
            assert(t[0] == s@[k as int] && t[1] == s@[k + 1] && t[2] == s@[k + 2] && t[3] == s@[k
                + 3]);
            assert(t.skip(4) =~= s@.skip(k + 4));
        }
        if v0 >= 64 || v1 >= 64 || v2 >= 64 || v3 >= 64 {
            return None;
        }
        out.push((v0 << 2) | (v1 >> 4));
        out.push(((v1 & 15) << 4) | (v2 >> 2));
        out.push(((v2 & 3) << 6) | v3);
        k += 4;
    }
    let tail = n - k;
    if tail == 0 {
        proof {
            assert(s@.skip(k as int).len() == 0);
            assert(out@ + Seq::<u8>::empty() =~= out@);
        }
        Some(out)
    } else if tail == 1 {
        None
    } else if tail == 2 {
        let v0 = b64_val(s[k]);
        let v1 = b64_val(s[k + 1]);
        proof {
            let t = s@.skip(k as int);
            assert(t[0] == s@[k as int] && t[1] == s@[k + 1]);
        }
        if v0 >= 64 || v1 >= 64 {
            return None;
        }
        out.push((v0 << 2) | (v1 >> 4));
        proof {
            let t = s@.skip(k as int);
            assert(out@ =~= out@.subrange(0, out@.len() - 1) + seq![
                (spec_b64_val(t[0]) << 2) | (spec_b64_val(t[1]) >> 4),
            ]);
            assert(spec_b64_decode(s@) matches Some(u) && out@ =~= u);
        }
        Some(out)
    } else {
        let v0 = b64_val(s[k]);
        let v1 = b64_val(s[k + 1]);
        let v2 = b64_val(s[k + 2]);
        proof {
            let t = s@.skip(k as int);
            assert(t[0] == s@[k as int] && t[1] == s@[k + 1] && t[2] == s@[k + 2]);
        }
        if v0 >= 64 || v1 >= 64 || v2 >= 64 {
            return None;
        }
        out.push((v0 << 2) | (v1 >> 4));
        out.push(((v1 & 15) << 4) | (v2 >> 2));
        proof {
            assert(spec_b64_decode(s@) matches Some(u) && out@ =~= u);
        }
        Some(out)
    }
}

} // verus!
