//! The canonical byte encoding of ledger data: compact JSON objects whose
//! fields appear in a fixed order. A block's hash is the digest of this
//! encoding, so every byte of it matters.

use vstd::prelude::*;
use vstd::string::*;

verus! {

/// The JSON string literal (quotes and escapes included) for a text, as
/// UTF-8 bytes.
pub uninterp spec fn json_string(text: Seq<char>) -> Seq<u8>;

/// Trusted: `serde_json::to_string` on a `str`. The contract names the bytes
/// of the JSON literal it produces as `json_string` of the text. Writing a
/// string into memory cannot fail, so the error arm is never taken.
#[verifier::external_body]
pub(crate) fn json_quote(text: &str) -> (out: Vec<u8>)
    ensures
        out@ == json_string(text@),
{
    match serde_json::to_string(text) {
        Ok(quoted) => quoted.into_bytes(),
        Err(_) => Vec::new(),
    }
}

/// The decimal digits of a number in ASCII, without sign or leading zeros.
pub open spec fn decimal(n: nat) -> Seq<u8>
    decreases n,
{
    if n < 10 {
        seq![(48 + n) as u8]
    } else {
        decimal(n / 10).push((48 + n % 10) as u8)
    }
}

/// The UTF-8 bytes of a piece of fixed text.
pub open spec fn text_bytes(text: &str) -> Seq<u8> {
    text.spec_bytes()
}

/// Appends the decimal digits of `n`.
pub fn push_decimal(out: &mut Vec<u8>, n: u64)
    ensures
        final(out)@ == old(out)@ + decimal(n as nat),
    decreases n,
{
    if n >= 10 {
        push_decimal(out, n / 10);
    }
    let digit: u8 = 48 + (n % 10) as u8;
    out.push(digit);
    assert(final(out)@ =~= old(out)@ + decimal(n as nat));
}

/// The UTF-8 bytes of `text`, as the start of an encoding.
pub fn text_vec(text: &str) -> (out: Vec<u8>)
    ensures
        out@ == text_bytes(text),
{
    text.as_bytes_vec()
}

/// Appends the UTF-8 bytes of `text`.
pub fn push_text(out: &mut Vec<u8>, text: &str)
    ensures
        final(out)@ == old(out)@ + text_bytes(text),
{
    let mut bytes = text.as_bytes_vec();
    out.append(&mut bytes);
}

/// Appends the JSON string literal for `text`.
pub fn push_json_string(out: &mut Vec<u8>, text: &str)
    ensures
        final(out)@ == old(out)@ + json_string(text@),
{
    let mut bytes = json_quote(text);
    out.append(&mut bytes);
}

} // verus!
