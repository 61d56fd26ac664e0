//! Bytes as URL-safe base64 text without padding.
use base64::engine::general_purpose::URL_SAFE_NO_PAD;
use base64::Engine;
use vstd::prelude::*;

verus! {

/// The character for the six bits `v`.
pub open spec fn sextet(v: int) -> char {
    if v < 26 {
        (v + 'A' as int) as char
    } else if v < 52 {
        (v - 26 + 'a' as int) as char
    } else if v < 62 {
        (v - 52 + '0' as int) as char
    } else if v == 62 {
        '-'
    } else {
        '_'
    }
}

/// The text of `bytes`: four characters for each three bytes, and two or three for what is left.
pub open spec fn encoded(bytes: Seq<u8>) -> Seq<char>
    decreases bytes.len(),
{
    if bytes.len() == 0 {
        Seq::empty()
    } else if bytes.len() == 1 {
        seq![sextet(bytes[0] as int / 4), sextet(bytes[0] as int % 4 * 16)]
    } else if bytes.len() == 2 {
        seq![
            sextet(bytes[0] as int / 4),
            sextet(bytes[0] as int % 4 * 16 + bytes[1] as int / 16),
            sextet(bytes[1] as int % 16 * 4),
        ]
    } else {
        seq![
            sextet(bytes[0] as int / 4),
            sextet(bytes[0] as int % 4 * 16 + bytes[1] as int / 16),
            sextet(bytes[1] as int % 16 * 4 + bytes[2] as int / 64),
            sextet(bytes[2] as int % 64),
        ] + encoded(bytes.skip(3))
    }
}

/// The bytes whose text is `s`, if there are such bytes.
pub open spec fn decoded(s: Seq<char>) -> Option<Seq<u8>> {
    if exists|bytes: Seq<u8>| #[trigger] encoded(bytes) == s {
        Some(choose|bytes: Seq<u8>| #[trigger] encoded(bytes) == s)
    } else {
        None
    }
}

/// Whether the text of `n` bytes fits in memory.
pub open spec fn fits(n: nat) -> bool {
    4 * (n / 3 + 1) <= isize::MAX
}

/// `base64::DecodeError`: why a text was refused; nothing in the library looks inside.
#[verifier::external_type_specification]
#[verifier::external_body]
pub struct ExDecodeError(base64::DecodeError);

/// `Engine::encode` of the engine `URL_SAFE_NO_PAD`: each six bits, from the first on, give one
/// character of the URL-safe alphabet, the last ones filled up with zero bits; no padding.
#[verifier::external_body]
pub(crate) fn encode(bytes: &[u8]) -> (r: String)
    requires
        fits(bytes@.len()),
    ensures
        r@ == encoded(bytes@),
{
    URL_SAFE_NO_PAD.encode(bytes)
}

/// `Engine::decode` of the engine `URL_SAFE_NO_PAD`: it accepts exactly the texts that encoding
/// some bytes gives, and returns those bytes; padding, other characters and filling bits that are
/// not zero are refused.
#[verifier::external_body]
pub(crate) fn decode(s: &str) -> (r: Result<Vec<u8>, base64::DecodeError>)
    ensures
        match r {
            Ok(bytes) => decoded(s@) == Some(bytes@),
            Err(_) => decoded(s@) is None,
        },
{
    URL_SAFE_NO_PAD.decode(s)
}

proof fn lemma_sextet(a: int, b: int)
    requires
        0 <= a < 64,
        0 <= b < 64,
    ensures
        sextet(a) == sextet(b) ==> a == b,
        sextet(a) != '/' && sextet(b) != '/',
{
}

/// The number of characters that `n` bytes take.
pub proof fn lemma_encoded_len(bytes: Seq<u8>)
    ensures
        encoded(bytes).len() == (4 * bytes.len() + 2) / 3,
    decreases bytes.len(),
{
    if bytes.len() > 2 {
        lemma_encoded_len(bytes.skip(3));
    }
}

/// No slash occurs in the text of any bytes.
pub proof fn lemma_encoded_has_no_slash(bytes: Seq<u8>)
    ensures
        forall|i: int| 0 <= i < encoded(bytes).len() ==> encoded(bytes)[i] != '/',
    decreases bytes.len(),
{
    if bytes.len() > 2 {
        lemma_encoded_has_no_slash(bytes.skip(3));
    }
    if bytes.len() > 0 {
        let x = bytes[0] as int;
        lemma_sextet(x / 4, x % 4 * 16);
        if bytes.len() > 1 {
            let y = bytes[1] as int;
            lemma_sextet(x % 4 * 16 + y / 16, y % 16 * 4);
            if bytes.len() > 2 {
                let z = bytes[2] as int;
                lemma_sextet(y % 16 * 4 + z / 64, z % 64);
                assert forall|i: int| 0 <= i < encoded(bytes).len() implies encoded(bytes)[i]
                    != '/' by {
                    if i >= 4 {
                        assert(encoded(bytes)[i] == encoded(bytes.skip(3))[i - 4]);
                    }
                }
            }
        }
    }
}

/// Different bytes have different texts.
pub proof fn lemma_encoded_injective(a: Seq<u8>, b: Seq<u8>)
    requires
        encoded(a) == encoded(b),
    ensures
        a == b,
    decreases a.len(),
{
    lemma_encoded_len(a);
    lemma_encoded_len(b);
    let s = encoded(a);
    let t = encoded(b);
    assert(a.len() == b.len());
    if a.len() > 0 {
        assert(s[0] == t[0] && s[1] == t[1]);
        let (x, u) = (a[0] as int, b[0] as int);
        lemma_sextet(x / 4, u / 4);
        if a.len() == 1 {
            lemma_sextet(x % 4 * 16, u % 4 * 16);
        } else {
            assert(s[2] == t[2]);
            let (y, v) = (a[1] as int, b[1] as int);
            lemma_sextet(x % 4 * 16 + y / 16, u % 4 * 16 + v / 16);
            if a.len() == 2 {
                lemma_sextet(y % 16 * 4, v % 16 * 4);
            } else {
                assert(s[3] == t[3]);
                let (z, w) = (a[2] as int, b[2] as int);
                lemma_sextet(y % 16 * 4 + z / 64, v % 16 * 4 + w / 64);
                lemma_sextet(z % 64, w % 64);
                assert(s.skip(4) =~= encoded(a.skip(3)));
                assert(t.skip(4) =~= encoded(b.skip(3)));
                lemma_encoded_injective(a.skip(3), b.skip(3));
                assert forall|i: int| 3 <= i < a.len() implies a[i] == b[i] by {
                    assert(a.skip(3)[i - 3] == b.skip(3)[i - 3]);
                }
            }
        }
    }
    assert(a =~= b);
}

/// Reading the text of some bytes gives those bytes back.
pub proof fn lemma_decoded_encoded(bytes: Seq<u8>)
    ensures
        decoded(encoded(bytes)) == Some(bytes),
{
    let back = choose|b: Seq<u8>| #[trigger] encoded(b) == encoded(bytes);
    lemma_encoded_injective(back, bytes);
}

/// The number of bytes that a text of base64 holds.
pub proof fn lemma_decoded_len(s: Seq<char>)
    ensures
        decoded(s) matches Some(bytes) ==> bytes.len() == s.len() * 3 / 4,
{
    if decoded(s) is Some {
        lemma_encoded_len(decoded(s).unwrap());
    }
}

} // verus!
