//! Bytes and the text that they encode.

use vstd::prelude::*;
use vstd::string::*;

verus! {

/// Calls `core::str::from_utf8`, which returns the text that bytes encode in
/// UTF-8, and an error where they encode none.
#[verifier::external_body]
pub(crate) fn from_utf8(bytes: &[u8]) -> (text: Option<String>)
    ensures
        text is Some <==> vstd::utf8::valid_utf8(bytes@),
        text matches Some(t) ==> t@ == vstd::utf8::decode_utf8(bytes@),
{
    match core::str::from_utf8(bytes) {
        Ok(text) => Some(text.to_owned()),
        Err(_) => None,
    }
}

/// Whether bytes are those of a text.
pub fn is_text(bytes: &[u8], text: &str) -> (b: bool)
    ensures
        b == (bytes@ == text.spec_bytes()),
{
    let other = text.as_bytes();
    if bytes.len() != other.len() {
        return false;
    }
    let mut i: usize = 0;
    while i < bytes.len()
        invariant
            i <= bytes.len(),
            bytes@.len() == other@.len(),
            other@ == text.spec_bytes(),
            forall|j: int| 0 <= j < i ==> bytes@[j] == other@[j],
        decreases bytes.len() - i,
    {
        if bytes[i] != other[i] {
            return false;
        }
        i = i + 1;
    }
    assert(bytes@ =~= other@);
    true
}

/// Bytes are those of a text where there are as many and each is the same.
pub proof fn texts_are_told_by_every_byte(bytes: &[u8], text: &str, b: bool)
    requires
        call_ensures(is_text, (bytes, text), b),
    ensures
        b ==> bytes@.len() == text.spec_bytes().len(),
        b ==> forall|i: int| 0 <= i < bytes@.len() ==> #[trigger] bytes@[i] == text.spec_bytes()[i],
        !b ==> bytes@.len() != text.spec_bytes().len() || exists|i: int|
            0 <= i < bytes@.len() && #[trigger] bytes@[i] != text.spec_bytes()[i],
{
    if !b && bytes@.len() == text.spec_bytes().len() && forall|i: int|
        0 <= i < bytes@.len() ==> #[trigger] bytes@[i] == text.spec_bytes()[i] {
        assert(bytes@ =~= text.spec_bytes());
    }
}

} // verus!
