//! What can go wrong while aggregating.

use vstd::prelude::*;
use crate::text::{decimal, digits, push_decimal, push_digits};

verus! {

/// An inconsistency between the manifests and the table metadata. Either one
/// means that the metadata is corrupt; neither is recovered from.
#[derive(Debug, Clone, Copy, PartialEq, Eq, Structural)]
pub enum AggregationError {
    /// A manifest names a partition specification that the table metadata
    /// does not hold.
    UnknownSpec { spec_id: i32 },
    /// Under one specification id, two field counts were met: `expected` is
    /// the one met first, `found` the one that differs from it.
    FieldCountMismatch { spec_id: i32, expected: usize, found: usize },
}

/// What an operator is told of `fault`.
pub open spec fn fault_text(fault: AggregationError) -> Seq<char> {
    match fault {
        AggregationError::UnknownSpec { spec_id } => "partition spec "@ + decimal(spec_id as int)
            + " is not in the table metadata"@,
        AggregationError::FieldCountMismatch { spec_id, expected, found } => "partition spec "@
            + decimal(spec_id as int) + ": expected "@ + digits(expected as nat)
            + " partition fields, found "@ + digits(found as nat),
    }
}

impl AggregationError {
    /// What an operator is told of this fault.
    pub fn describe(&self) -> (text: String)
        ensures
            text@ == fault_text(*self),
    {
        let mut text = String::new();
        match self {
            AggregationError::UnknownSpec { spec_id } => {
                text.append("partition spec ");
                push_decimal(&mut text, *spec_id as i64);
                text.append(" is not in the table metadata");
            },
            AggregationError::FieldCountMismatch { spec_id, expected, found } => {
                text.append("partition spec ");
                push_decimal(&mut text, *spec_id as i64);
                text.append(": expected ");
                push_digits(&mut text, *expected as u64);
                text.append(" partition fields, found ");
                push_digits(&mut text, *found as u64);
            },
        }
        text
    }
}

} // verus!
