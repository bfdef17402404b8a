//! Hexadecimal text of byte strings, through the `hex` crate.

use vstd::prelude::*;
use vstd::utf8::*;

verus! {

#[verifier::external_type_specification]
#[verifier::external_body]
pub struct ExFromHexError(hex::FromHexError);

/// The lower-case hex digit for `n < 16`.
pub open spec fn hex_digit(n: nat) -> char {
    seq!['0', '1', '2', '3', '4', '5', '6', '7', '8', '9', 'a', 'b', 'c', 'd', 'e', 'f'][n as int]
}

/// Two lower-case hex digits per byte, high nibble first.
pub open spec fn hex_text(b: Seq<u8>) -> Seq<char>
    decreases b.len(),
{
    if b.len() == 0 {
        Seq::empty()
    } else {
        seq![hex_digit((b[0] / 16) as nat), hex_digit((b[0] % 16) as nat)] + hex_text(b.drop_first())
    }
}

/// The value of a hex digit in either case.
pub open spec fn hex_value(c: u8) -> Option<nat> {
    if 65 <= c <= 70 {
        Some((c - 55) as nat)
    } else if 97 <= c <= 102 {
        Some((c - 87) as nat)
    } else if 48 <= c <= 57 {
        Some((c - 48) as nat)
    } else {
        None
    }
}

/// The bytes that hex text (as its UTF-8 bytes) stands for: `None` when its
/// length is odd or a character is not a hex digit.
pub open spec fn hex_bytes(t: Seq<u8>) -> Option<Seq<u8>>
    decreases t.len(),
{
    if t.len() == 0 {
        Some(Seq::empty())
    } else if t.len() == 1 {
        None
    } else {
        match (hex_value(t[0]), hex_value(t[1]), hex_bytes(t.skip(2))) {
            (Some(h), Some(l), Some(rest)) => Some(seq![(16 * h + l) as u8] + rest),
            _ => None,
        }
    }
}

/// `hex::encode`: the lower-case hex text of `data`.
#[verifier::external_body]
pub(crate) fn hex_encode(data: &[u8]) -> (r: String)
    ensures
        r@ == hex_text(data@),
{
    hex::encode(data)
}

/// `hex::decode`: the bytes that hex text stands for. Both cases of digits
/// are accepted; an odd length or a non-digit gives an error.
#[verifier::external_body]
pub(crate) fn hex_decode(text: &[u8]) -> (r: Result<Vec<u8>, hex::FromHexError>)
    ensures
        r is Ok <==> hex_bytes(text@) is Some,
        r matches Ok(b) ==> b@ == hex_bytes(text@).unwrap(),
{
    hex::decode(text)
}

/// Hex text consists of ASCII characters.
pub proof fn lemma_hex_text_ascii(b: Seq<u8>)
    ensures
        is_ascii_chars(hex_text(b)),
        hex_text(b).len() == 2 * b.len(),
    decreases b.len(),
{
    if b.len() > 0 {
        lemma_hex_text_ascii(b.drop_first());
        let t = hex_text(b);
        let d = seq!['0', '1', '2', '3', '4', '5', '6', '7', '8', '9', 'a', 'b', 'c', 'd', 'e', 'f'];
        assert forall|i: int| 0 <= i < 16 implies (d[i] as u32) < 128 by {}
        assert forall|i: int| 0 <= i < t.len() implies (#[trigger] t[i] as u32) < 128 by {
            if i >= 2 {
                assert(t[i] == hex_text(b.drop_first())[i - 2]);
            }
        }
    }
}

/// Whether a character is a lower-case hex digit.
pub open spec fn is_lower_hex_digit(c: char) -> bool {
    ('0' <= c && c <= '9') || ('a' <= c && c <= 'f')
}

/// Hex text consists of lower-case hex digits.
pub proof fn lemma_hex_text_lower(b: Seq<u8>)
    ensures
        forall|i: int| 0 <= i < hex_text(b).len() ==> is_lower_hex_digit(#[trigger] hex_text(b)[i]),
    decreases b.len(),
{
    if b.len() > 0 {
        lemma_hex_text_lower(b.drop_first());
        let d = seq!['0', '1', '2', '3', '4', '5', '6', '7', '8', '9', 'a', 'b', 'c', 'd', 'e', 'f'];
        assert forall|n: int| 0 <= n < 16 implies is_lower_hex_digit(#[trigger] d[n]) by {}
        let t = hex_text(b);
        let rest = hex_text(b.drop_first());
        assert forall|i: int| 0 <= i < t.len() implies is_lower_hex_digit(#[trigger] t[i]) by {
            if i >= 2 {
                assert(t[i] == rest[i - 2]);
            } else {
                assert(t[0] == d[(b[0] / 16) as int]);
                assert(t[1] == d[(b[0] % 16) as int]);
            }
        }
    }
}

/// The hex text of two byte strings one after the other is their hex texts
/// one after the other.
pub proof fn lemma_hex_text_concat(a: Seq<u8>, b: Seq<u8>)
    ensures
        hex_text(a + b) == hex_text(a) + hex_text(b),
    decreases a.len(),
{
    if a.len() == 0 {
        assert(a + b =~= b);
        assert(hex_text(a) =~= Seq::<char>::empty());
        assert(hex_text(a) + hex_text(b) =~= hex_text(b));
    } else {
        lemma_hex_text_concat(a.drop_first(), b);
        assert((a + b).drop_first() =~= a.drop_first() + b);
        assert((a + b)[0] == a[0]);
        assert(hex_text(a + b) =~= hex_text(a) + hex_text(b));
    }
}

/// Hex text read back as bytes gives the bytes it was made of.
pub proof fn lemma_hex_roundtrip(b: Seq<u8>)
    ensures
        hex_bytes(encode_utf8(hex_text(b))) == Some(b),
    decreases b.len(),
{
    lemma_hex_text_ascii(b);
    is_ascii_chars_encode_utf8(hex_text(b));
    let t = encode_utf8(hex_text(b));
    if b.len() == 0 {
        assert(t.len() == 0);
    } else {
        lemma_hex_roundtrip(b.drop_first());
        lemma_hex_text_ascii(b.drop_first());
        is_ascii_chars_encode_utf8(hex_text(b.drop_first()));
        let rest = hex_text(b.drop_first());
        assert(t.skip(2) =~= encode_utf8(rest)) by {
            assert forall|i: int| 0 <= i < t.len() - 2 implies #[trigger] t.skip(2)[i] == encode_utf8(
                rest,
            )[i] by {
                assert(hex_text(b)[i + 2] == rest[i]);
            }
        }
        let h = (b[0] / 16) as nat;
        let l = (b[0] % 16) as nat;
        assert(t[0] == hex_digit(h) as u8);
        assert(t[1] == hex_digit(l) as u8);
        assert(hex_value(t[0]) == Some(h));
        assert(hex_value(t[1]) == Some(l));
        assert(seq![(16 * h + l) as u8] + b.drop_first() =~= b);
    }
}

} // verus!
