//! Turning decoded bytes and code units into strings.
use vstd::prelude::*;
use vstd::utf8::{decode_utf8, valid_utf8};
use crate::errors::DSStoreError;
use crate::layout::code_units_of;

verus! {

/// The text that a sequence of UTF-16 code units spells, or `None` where it
/// holds an unpaired surrogate.
pub uninterp spec fn utf16_text(units: Seq<u16>) -> Option<Seq<char>>;

/// Calls `String::from_utf8` of the standard library, which accepts exactly
/// the byte sequences that are valid UTF-8 and then yields the string that
/// those bytes encode. Nothing of this is proved here.
#[verifier::external_body]
pub(crate) fn string_from_utf8(bytes: Vec<u8>) -> (r: Option<String>)
    ensures
        r is Some <==> valid_utf8(bytes@),
        r matches Some(s) ==> s@ == decode_utf8(bytes@),
{
    match String::from_utf8(bytes) {
        Ok(s) => Some(s),
        Err(_) => None,
    }
}

/// Calls `String::from_utf16` of the standard library, whose result depends on
/// the code units alone. The contract gives that result the name `utf16_text`
/// and says nothing more about it.
#[verifier::external_body]
pub(crate) fn string_from_utf16(units: &Vec<u16>) -> (r: Option<String>)
    ensures
        r is Some <==> utf16_text(units@) is Some,
        r matches Some(s) ==> utf16_text(units@) == Some(s@),
{
    match String::from_utf16(units) {
        Ok(s) => Some(s),
        Err(_) => None,
    }
}

/// The 16-bit code units that `bytes` spells, each most significant byte
/// first; a last odd byte is left out.
#[verifier::loop_isolation(false)]
pub fn code_units(bytes: &Vec<u8>) -> (r: Vec<u16>)
    ensures
        r@ == code_units_of(bytes@),
{
    let n: usize = bytes.len() / 2;
    let mut units: Vec<u16> = Vec::new();
    let mut i: usize = 0;
    while i < n
        invariant
            i <= n,
            units@.len() == i,
            forall|k: int| 0 <= k < i ==> units@[k] == code_units_of(bytes@)[k],
        decreases n - i,
    {
        let hi: u16 = bytes[2 * i] as u16;
        let lo: u16 = bytes[2 * i + 1] as u16;
        units.push(hi * 0x100 + lo);
        i += 1;
    }
    assert(units@ =~= code_units_of(bytes@));
    units
}

/// The text of `bytes`, given what decoding their code units gave.
pub fn text_from(bytes: &Vec<u8>, decoded: Option<String>) -> (r: Result<String, DSStoreError>)
    ensures
        match decoded {
            Some(s) if bytes@.len() % 2 == 0 => r == Ok::<String, DSStoreError>(s),
            _ => r matches Err(e) && e == DSStoreError::BadString,
        },
{
    if bytes.len() % 2 != 0 {
        return Err(DSStoreError::BadString);
    }
    match decoded {
        Some(s) => Ok(s),
        None => Err(DSStoreError::BadString),
    }
}

} // verus!
