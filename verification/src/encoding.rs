//! Bytes as text.
use base64::Engine;
use vstd::prelude::*;

verus! {

/// The character for six bits.
pub open spec fn symbol(v: int) -> char {
    if v < 26 {
        (65 + v) as char
    } else if v < 52 {
        (71 + v) as char
    } else if v < 62 {
        (v - 4) as char
    } else if v == 62 {
        '+'
    } else {
        '/'
    }
}

/// The first six bits of three bytes.
pub open spec fn sextet0(x: u8) -> char {
    symbol(x as int / 4)
}

/// The second six bits.
pub open spec fn sextet1(x: u8, y: u8) -> char {
    symbol(x as int % 4 * 16 + y as int / 16)
}

/// The third six bits.
pub open spec fn sextet2(y: u8, z: u8) -> char {
    symbol(y as int % 16 * 4 + z as int / 64)
}

/// The last six bits.
pub open spec fn sextet3(z: u8) -> char {
    symbol(z as int % 64)
}

/// Bytes in base64: four characters for each three bytes, the last four filled up with `=`.
pub open spec fn base64(b: Seq<u8>) -> Seq<char>
    decreases b.len(),
{
    if b.len() == 0 {
        Seq::empty()
    } else if b.len() == 1 {
        seq![sextet0(b[0]), sextet1(b[0], 0), '=', '=']
    } else if b.len() == 2 {
        seq![sextet0(b[0]), sextet1(b[0], b[1]), sextet2(b[1], 0), '=']
    } else {
        seq![sextet0(b[0]), sextet1(b[0], b[1]), sextet2(b[1], b[2]), sextet3(b[2])] + base64(
            b.skip(3),
        )
    }
}

/// A text is read as these bytes if it is their base64 form, and as nothing if it is that of no
/// bytes.
pub open spec fn decodes_to(s: Seq<char>, r: Option<Seq<u8>>) -> bool {
    match r {
        Some(b) => base64(b) == s,
        None => forall|b: Seq<u8>| #[trigger] base64(b) != s,
    }
}

/// What optional bytes hold.
pub open spec fn maybe_bytes(b: Option<Vec<u8>>) -> Option<Seq<u8>> {
    match b {
        Some(v) => Some(v@),
        None => None,
    }
}

/// `base64::Engine::encode` of the engine `STANDARD`: the base64 form of bytes, with the alphabet of
/// RFC 4648 and padding. The text has to fit into memory.
#[verifier::external_body]
pub(crate) fn encode(b: &[u8]) -> (r: String)
    requires
        (b@.len() + 2) / 3 * 4 <= isize::MAX,
    ensures
        r@ == base64(b@),
{
    base64::engine::general_purpose::STANDARD.encode(b)
}

/// `base64::Engine::decode` of the engine `STANDARD`: the bytes whose base64 form a text is. The
/// engine asks for canonical padding and for zeros in the bits that no byte uses, so no other text
/// is accepted.
#[verifier::external_body]
pub(crate) fn decode(s: &str) -> (r: Option<Vec<u8>>)
    ensures
        decodes_to(s@, maybe_bytes(r)),
{
    base64::engine::general_purpose::STANDARD.decode(s).ok()
}

proof fn lemma_symbol(v: int, w: int)
    requires
        0 <= v < 64,
        0 <= w < 64,
    ensures
        symbol(v) == symbol(w) ==> v == w,
        symbol(v) != '=',
{
}

proof fn lemma_base64_len(b: Seq<u8>)
    ensures
        base64(b).len() == (b.len() + 2) / 3 * 4,
    decreases b.len(),
{
    if b.len() > 2 {
        lemma_base64_len(b.skip(3));
    }
}

proof fn lemma_bytes(a0: u8, a1: u8, a2: u8, b0: u8, b1: u8, b2: u8)
    ensures
        sextet2(a1, a2) != '=' && sextet3(a2) != '=',
        sextet0(a0) == sextet0(b0) && sextet1(a0, a1) == sextet1(b0, b1) && sextet2(a1, a2)
            == sextet2(b1, b2) && sextet3(a2) == sextet3(b2) ==> a0 == b0 && a1 == b1 && a2 == b2,
{
    lemma_symbol(a0 as int / 4, b0 as int / 4);
    lemma_symbol(a0 as int % 4 * 16 + a1 as int / 16, b0 as int % 4 * 16 + b1 as int / 16);
    lemma_symbol(a1 as int % 16 * 4 + a2 as int / 64, b1 as int % 16 * 4 + b2 as int / 64);
    lemma_symbol(a2 as int % 64, b2 as int % 64);
}

/// Different bytes have different base64 forms.
pub proof fn law_base64_is_unique(a: Seq<u8>, b: Seq<u8>)
    requires
        base64(a) == base64(b),
    ensures
        a == b,
    decreases a.len(),
{
    lemma_base64_len(a);
    lemma_base64_len(b);
    let s = base64(a);
    let t = base64(b);
    if a.len() == 0 || b.len() == 0 {
        assert(a.len() == 0 && b.len() == 0);
        assert(a =~= b);
    } else {
        assert(s[0] == t[0] && s[1] == t[1] && s[2] == t[2] && s[3] == t[3]);
        let zero: u8 = 0;
        lemma_bytes(a[0], zero, zero, b[0], zero, zero);
        if a.len() > 1 {
            lemma_bytes(a[0], a[1], zero, b[0], b[1], zero);
        }
        if b.len() > 1 {
            lemma_bytes(b[0], b[1], zero, a[0], a[1], zero);
        }
        if a.len() > 2 {
            lemma_bytes(a[0], a[1], a[2], b[0], b[1], b[2]);
        }
        if b.len() > 2 {
            lemma_bytes(b[0], b[1], b[2], a[0], a[1], a[2]);
        }
        if a.len() == 1 {
            assert(s[2] == '=');
            assert(b.len() == 1);
            assert(a =~= b);
        } else if a.len() == 2 {
            assert(s[3] == '=' && s[2] != '=');
            assert(b.len() == 2);
            assert(a =~= b);
        } else {
            assert(s[3] != '=' && s[2] != '=');
            assert(b.len() > 2);
            assert(s[0] == sextet0(a[0]) && s[1] == sextet1(a[0], a[1]));
            assert(s[2] == sextet2(a[1], a[2]) && s[3] == sextet3(a[2]));
            assert(t[0] == sextet0(b[0]) && t[1] == sextet1(b[0], b[1]));
            assert(t[2] == sextet2(b[1], b[2]) && t[3] == sextet3(b[2]));
            assert(s.skip(4) =~= base64(a.skip(3)));
            assert(t.skip(4) =~= base64(b.skip(3)));
            law_base64_is_unique(a.skip(3), b.skip(3));
            assert(a.skip(3).len() == b.skip(3).len());
            assert forall|i: int| 0 <= i < a.len() implies a[i] == b[i] by {
                if i > 2 {
                    assert(a.skip(3)[i - 3] == a[i]);
                    assert(b.skip(3)[i - 3] == b[i]);
                }
            }
            assert(a =~= b);
        }
    }
}

/// Reading the base64 form of bytes gives the bytes.
pub proof fn law_base64_round_trip(b: Seq<u8>, r: Option<Seq<u8>>)
    requires
        decodes_to(base64(b), r),
    ensures
        r == Some(b),
{
    match r {
        Some(c) => law_base64_is_unique(c, b),
        None => {},
    }
}

} // verus!
