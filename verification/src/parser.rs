//! The typed form of one input record.
//!
//! The surrounding program splits each delimited-text line into fields and
//! converts the amount field with [`crate::amount::to_ticks`]; the typed
//! record handed to the engine is an [`Operation`].  The mapping from the
//! record's `type` field to an operation kind is defined and verified here.

use vstd::prelude::*;
use vstd::string::StrSliceExecFns;

verus! {

#[allow(non_camel_case_types)]
#[derive(Debug, Clone, Copy, PartialEq, Eq, Structural)]
pub enum TypeOperation {
    deposit,
    withdrawal,
    dispute,
    resolve,
    chargeback,
}

/// One operation from the input stream.  `amount` is in ticks and is
/// `None` when the record's amount field was empty.
#[derive(Debug, Clone, Copy)]
pub struct Operation {
    pub type_operation: TypeOperation,
    pub client: u16,
    pub tx: u32,
    pub amount: Option<u64>,
}

/// The operation kind a record's `type` field names, if any.
pub open spec fn spec_kind_of_name(s: Seq<char>) -> Option<TypeOperation> {
    if s == "deposit"@ {
        Some(TypeOperation::deposit)
    } else if s == "withdrawal"@ {
        Some(TypeOperation::withdrawal)
    } else if s == "dispute"@ {
        Some(TypeOperation::dispute)
    } else if s == "resolve"@ {
        Some(TypeOperation::resolve)
    } else if s == "chargeback"@ {
        Some(TypeOperation::chargeback)
    } else {
        None
    }
}

/// Character-by-character string equality.
fn str_eq(a: &str, b: &str) -> (r: bool)
    ensures
        r == (a@ == b@),
{
    let n: usize = a.unicode_len();
    let m: usize = b.unicode_len();
    if n != m {
        return false;
    }
    let mut i: usize = 0;
    while i < n
        invariant
            n == a@.len(),
            n == b@.len(),
            i <= n,
            forall|j: int| 0 <= j < i ==> a@[j] == b@[j],
        decreases n - i,
    {
        if a.get_char(i) != b.get_char(i) {
            return false;
        }
        i = i + 1;
    }
    proof {
        assert(a@ =~= b@);
    }
    true
}

impl TypeOperation {
    /// Parses a record's `type` field.
    pub fn from_name(s: &str) -> (r: Option<TypeOperation>)
        ensures
            r == spec_kind_of_name(s@),
    {
        if str_eq(s, "deposit") {
            Some(TypeOperation::deposit)
        } else if str_eq(s, "withdrawal") {
            Some(TypeOperation::withdrawal)
        } else if str_eq(s, "dispute") {
            Some(TypeOperation::dispute)
        } else if str_eq(s, "resolve") {
            Some(TypeOperation::resolve)
        } else if str_eq(s, "chargeback") {
            Some(TypeOperation::chargeback)
        } else {
            None
        }
    }
}

/// The typed operation a raw record denotes, if it denotes one: the kind
/// must be a known name, and a non-empty amount field must parse as a
/// decimal within range.  An empty or absent amount field means "no
/// amount".
pub open spec fn spec_from_fields(
    kind: Seq<char>,
    client: u16,
    tx: u32,
    amount: Option<Seq<char>>,
) -> Option<Operation> {
    match spec_kind_of_name(kind) {
        None => None,
        Some(type_operation) => match amount {
            None => Some(Operation { type_operation, client, tx, amount: None }),
            Some(text) => if text.len() == 0 {
                Some(Operation { type_operation, client, tx, amount: None })
            } else {
                match crate::amount::spec_to_ticks(text) {
                    None => None,
                    Some(t) => Some(Operation { type_operation, client, tx, amount: Some(t) }),
                }
            },
        },
    }
}

impl Operation {
    /// Interprets one raw record's fields.  `None` means the record is
    /// malformed and must be skipped.
    pub fn from_fields(kind: &str, client: u16, tx: u32, amount: Option<&str>) -> (r: Option<
        Operation,
    >)
        ensures
            r == spec_from_fields(kind@, client, tx, amount.deep_view()),
    {
        let type_operation = match TypeOperation::from_name(kind) {
            Some(t) => t,
            None => {
                return None;
            },
        };
        match amount {
            None => Some(Operation { type_operation, client, tx, amount: None }),
            Some(text) => {
                if text.is_empty() {
                    Some(Operation { type_operation, client, tx, amount: None })
                } else {
                    match crate::amount::to_ticks(text) {
                        None => None,
                        Some(t) => Some(Operation { type_operation, client, tx, amount: Some(t) }),
                    }
                }
            },
        }
    }
}

} // verus!
