//! Turning the bytes that a program printed into display text.

use vstd::prelude::*;
use vstd::utf8::{decode_utf8, valid_utf8};

verus! {

/// The text that EUC-KR decoding (with byte-order-mark sniffing and
/// replacement of malformed sequences) gives for some bytes.
pub uninterp spec fn euc_kr_text(b: Seq<u8>) -> Seq<char>;

/// The text that lossy UTF-8 decoding (with byte-order-mark removal and
/// replacement of malformed sequences) gives for some bytes.
pub uninterp spec fn utf8_lossy_text(b: Seq<u8>) -> Seq<char>;

/// Relies on `std::str::from_utf8`: the text when the bytes are valid UTF-8.
#[verifier::external_body]
fn utf8_str(b: &[u8]) -> (r: Option<&str>)
    ensures
        r is Some == valid_utf8(b@),
        r is Some ==> r->Some_0@ == decode_utf8(b@),
{
    std::str::from_utf8(b).ok()
}

/// Relies on `encoding_rs::EUC_KR.decode`: the decoded text.
#[verifier::external_body]
fn decode_euc_kr(b: &[u8]) -> (r: String)
    ensures
        r@ == euc_kr_text(b@),
{
    encoding_rs::EUC_KR.decode(b).0.into_owned()
}

/// Relies on `encoding_rs::UTF_8.decode`: the decoded text.
#[verifier::external_body]
fn decode_utf8_lossy(b: &[u8]) -> (r: String)
    ensures
        r@ == utf8_lossy_text(b@),
{
    encoding_rs::UTF_8.decode(b).0.into_owned()
}

/// The display text of a program's output: the bytes as UTF-8 when they are
/// valid UTF-8; otherwise decoded with the console's legacy encoding
/// (EUC-KR) where there is one, or as lossy UTF-8 where there is none.
pub fn decode_output(bytes: &[u8], legacy_console: bool) -> (r: String)
    ensures
        r@ == if valid_utf8(bytes@) {
            decode_utf8(bytes@)
        } else if legacy_console {
            euc_kr_text(bytes@)
        } else {
            utf8_lossy_text(bytes@)
        },
{
    match utf8_str(bytes) {
        Some(s) => String::from_str(s),
        None => {
            if legacy_console {
                decode_euc_kr(bytes)
            } else {
                decode_utf8_lossy(bytes)
            }
        },
    }
}

} // verus!
