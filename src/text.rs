use vstd::prelude::*;
use vstd::string::StringSliceAdditionalSpecFns;

use crate::bytes::{to_fixed_slice, zero_padded};
use crate::record::{IncomingTransaction, CREDIT, DEBIT, DESCRIPTION_SIZE, is_operation};

verus! {

/// The operation symbol that a text field names: the field is exactly one
/// byte, `c` or `d`.
pub open spec fn spec_kind_of(text: Seq<u8>) -> Option<u8> {
    if text.len() == 1 && is_operation(text[0]) {
        Some(text[0])
    } else {
        None
    }
}

/// A text field fits a description: one to ten bytes.
pub open spec fn fits_description(text: Seq<u8>) -> bool {
    1 <= text.len() <= DESCRIPTION_SIZE
}

/// Reads an operation symbol from a one-byte text.
pub fn kind_from_text(text: &str) -> (r: Option<u8>)
    ensures
        r == spec_kind_of(text.spec_bytes()),
{
    let b = text.as_bytes();
    if b.len() == 1 && (b[0] == CREDIT || b[0] == DEBIT) {
        Some(b[0])
    } else {
        None
    }
}

/// Pads a one-to-ten byte text to a description field; `None` for an empty
/// or a longer text.
pub fn description_from_text(text: &str) -> (r: Option<[u8; 10]>)
    ensures
        r is Some <==> fits_description(text.spec_bytes()),
        r matches Some(d) ==> d@ == zero_padded(text.spec_bytes(), 10),
{
    let b = text.as_bytes();
    if b.len() == 0 || b.len() > DESCRIPTION_SIZE {
        None
    } else {
        Some(to_fixed_slice(b))
    }
}

impl IncomingTransaction {
    /// Builds a request from its text fields; `None` where the operation is
    /// not `c` or `d` or the description is not one to ten bytes.
    pub fn from_text(kind: &str, value: i32, description: &str) -> (r: Option<IncomingTransaction>)
        ensures
            r is Some <==> spec_kind_of(kind.spec_bytes()) is Some && fits_description(
                description.spec_bytes(),
            ),
            r matches Some(t) ==> Some(t.kind) == spec_kind_of(kind.spec_bytes()) && t.value
                == value && t.description@ == zero_padded(description.spec_bytes(), 10),
    {
        let k = match kind_from_text(kind) {
            Some(k) => k,
            None => {
                return None;
            },
        };
        let d = match description_from_text(description) {
            Some(d) => d,
            None => {
                return None;
            },
        };
        Some(IncomingTransaction { kind: k, value, description: d })
    }
}

} // verus!
