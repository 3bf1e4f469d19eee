//! The per-block string table: a deduplicated pool of byte strings,
//! referenced elsewhere by integer index. Resolution fails on an index out
//! of range and on bytes that are not valid UTF-8; both are fatal.

use vstd::prelude::*;
use crate::error::DecodeError;

verus! {

use vstd::utf8::{valid_utf8, decode_utf8};

/// The ordered string pool of one primitive block. Index 0 is reserved by
/// convention and holds the empty string in well-formed data.
pub struct StringTable {
    pub s: Vec<Vec<u8>>,
}

/// What resolving index `i` against the byte pool `table` yields: the decoded
/// characters when `i` is in range and the entry is valid UTF-8, and the
/// fatal decode error otherwise.
pub open spec fn spec_resolve(table: Seq<Seq<u8>>, i: int) -> Result<Seq<char>, DecodeError> {
    if !(0 <= i < table.len()) {
        Err(DecodeError::BadStringIndex)
    } else if !valid_utf8(table[i]) {
        Err(DecodeError::BadUtf8)
    } else {
        Ok(decode_utf8(table[i]))
    }
}

/// Relies on std::str::from_utf8: it returns Ok exactly on valid UTF-8
/// input, and the returned str holds the characters those bytes encode.
#[verifier::external_body]
fn bytes_as_str(bytes: &Vec<u8>) -> (r: Option<&str>)
    ensures
        r is Some <==> valid_utf8(bytes@),
        r is Some ==> r->0@ == decode_utf8(bytes@),
{
    std::str::from_utf8(bytes.as_slice()).ok()
}

impl StringTable {
    /// The mathematical view of the table: its entries as byte sequences.
    pub open spec fn model(&self) -> Seq<Seq<u8>> {
        self.s@.map_values(|e: Vec<u8>| e@)
    }

    /// Resolves a string-table index into owned UTF-8 text.
    pub fn resolve(&self, index: i64) -> (r: Result<String, DecodeError>)
        ensures
            r is Ok <==> spec_resolve(self.model(), index as int) is Ok,
            r is Ok ==> r->Ok_0@ == spec_resolve(self.model(), index as int)->Ok_0,
            r is Err ==> r->Err_0 == spec_resolve(self.model(), index as int)->Err_0,
    {
        if index < 0 {
            return Err(DecodeError::BadStringIndex);
        }
        if index as u64 >= self.s.len() as u64 {
            return Err(DecodeError::BadStringIndex);
        }
        let idx = index as usize;
        let entry = &self.s[idx];
        assert(entry@ =~= self.model()[index as int]);
        match bytes_as_str(entry) {
            Some(text) => Ok(text.to_owned()),
            None => Err(DecodeError::BadUtf8),
        }
    }
}

} // verus!
