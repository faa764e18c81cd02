//! Text encodings of byte strings: base58 and base64 through outside crates,
//! hex by this crate's own verified encoder.

use vstd::prelude::*;
use base64::Engine;

verus! {

/// The canonical base58 text of a byte string, as `bs58` computes it.
pub uninterp spec fn b58_of(bytes: Seq<u8>) -> Seq<char>;

/// The standard padded base64 text of a byte string, as the `base64` crate's
/// standard engine computes it.
pub uninterp spec fn b64_of(bytes: Seq<u8>) -> Seq<char>;

/// Holds when every character of the text is ASCII.
pub open spec fn ascii_text(s: Seq<char>) -> bool {
    forall|i: int| 0 <= i < s.len() ==> (s[i] as u32) < 128
}

/// Holds when the decoding `r` recovers every byte string that base58-encodes
/// to the text `s`; in particular it succeeds whenever `s` has a preimage.
pub open spec fn b58_decodes_all_of(s: Seq<char>, r: Option<Vec<u8>>) -> bool {
    forall|b: Seq<u8>| s == b58_of(b) ==> (r matches Some(v) && v@ == b)
}

/// Relies on `bs58::encode`: the base58 text of the bytes. Its alphabet is
/// ASCII alphanumeric, so every character of the result is below 128.
#[verifier::external_body]
pub(crate) fn b58_encode(bytes: &[u8]) -> (r: String)
    ensures
        r@ == b58_of(bytes@),
        ascii_text(r@),
{
    bs58::encode(bytes).into_string()
}

/// Relies on `bs58::decode`: it inverts `bs58::encode`, and fails only on
/// text that is not the encoding of any byte string (an invalid character).
#[verifier::external_body]
pub(crate) fn b58_decode(s: &str) -> (r: Option<Vec<u8>>)
    ensures
        r matches Some(v) ==> s@ == b58_of(v@),
        b58_decodes_all_of(s@, r),
{
    bs58::decode(s).into_vec().ok()
}

/// Relies on the `base64` crate's standard engine: the padded base64 text of
/// the bytes.
#[verifier::external_body]
pub(crate) fn b64_encode(bytes: &[u8]) -> (r: String)
    ensures
        r@ == b64_of(bytes@),
{
    base64::engine::general_purpose::STANDARD.encode(bytes)
}

/// The lower-case hex digit for a value below 16.
pub open spec fn hex_digit(n: u8) -> char {
    "0123456789abcdef"@[n as int]
}

/// The lower-case hex text of a byte string: two digits per byte, high
/// nibble first.
pub open spec fn hex_of(bytes: Seq<u8>) -> Seq<char>
    decreases bytes.len(),
{
    if bytes.len() == 0 {
        Seq::empty()
    } else {
        seq![hex_digit(bytes[0] / 16), hex_digit(bytes[0] % 16)] + hex_of(bytes.drop_first())
    }
}

proof fn lemma_hex_of_snoc(bytes: Seq<u8>, b: u8)
    ensures
        hex_of(bytes.push(b)) == hex_of(bytes) + seq![hex_digit(b / 16), hex_digit(b % 16)],
    decreases bytes.len(),
{
    if bytes.len() == 0 {
        assert(bytes.push(b)[0] == b);
        assert(bytes.push(b).drop_first() =~= Seq::<u8>::empty());
        assert(hex_of(bytes.push(b)) == seq![hex_digit(b / 16), hex_digit(b % 16)] + hex_of(
            Seq::<u8>::empty(),
        ));
        assert(hex_of(Seq::<u8>::empty()) == Seq::<char>::empty());
        assert(hex_of(bytes.push(b)) =~= hex_of(bytes) + seq![hex_digit(b / 16), hex_digit(b % 16)]);
    } else {
        assert(bytes.push(b)[0] == bytes[0]);
        assert(bytes.push(b).drop_first() =~= bytes.drop_first().push(b));
        lemma_hex_of_snoc(bytes.drop_first(), b);
        assert(hex_of(bytes.push(b)) == seq![
            hex_digit(bytes[0] / 16),
            hex_digit(bytes[0] % 16),
        ] + hex_of(bytes.drop_first().push(b)));
        assert(hex_of(bytes.push(b)) =~= hex_of(bytes) + seq![hex_digit(b / 16), hex_digit(b % 16)]);
    }
}

/// Encodes bytes as lower-case hex text.
pub fn hex_encode(bytes: &[u8]) -> (r: String)
    ensures
        r@ == hex_of(bytes@),
{
    let digits = "0123456789abcdef";
    proof {
        reveal_strlit("0123456789abcdef");
    }
    let mut out = String::new();
    let mut i: usize = 0;
    while i < bytes.len()
        invariant
            i <= bytes@.len(),
            digits@ == "0123456789abcdef"@,
            digits@.len() == 16,
            out@ == hex_of(bytes@.take(i as int)),
        decreases bytes@.len() - i,
    {
        let b = bytes[i];
        let hi = (b / 16) as usize;
        let lo = (b % 16) as usize;
        let hs = digits.substring_char(hi, hi + 1);
        let ls = digits.substring_char(lo, lo + 1);
        out.append(hs);
        out.append(ls);
        proof {
            assert(hs@ =~= seq![hex_digit(b / 16)]);
            assert(ls@ =~= seq![hex_digit(b % 16)]);
            lemma_hex_of_snoc(bytes@.take(i as int), b);
            assert(bytes@.take(i as int).push(b) =~= bytes@.take(i + 1));
        }
        i = i + 1;
    }
    proof {
        assert(bytes@.take(bytes@.len() as int) =~= bytes@);
    }
    out
}

} // verus!
