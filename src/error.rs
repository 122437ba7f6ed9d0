use vstd::prelude::*;

verus! {

/// The ways reading a document can fail.
#[derive(Debug)]
pub enum CellParseError {
    FileReadingFailure,
    UnexpectedLength,
    UnexpectedValueType,
    Invalid,
    GetBlockDataFailure,
    GetFieldDataFailure,
    RequiredSectionMissing,
    /// (expected: String, curr: String)
    UnexpectedBlockType((String, String)),
}

/// The message that describes an error.
pub open spec fn message_of(e: CellParseError) -> Seq<char> {
    match e {
        CellParseError::UnexpectedLength => "Unexpected length of data"@,
        CellParseError::UnexpectedValueType => "Unexpected value type"@,
        CellParseError::Invalid => "Not valid keywords or data in `.cell`"@,
        CellParseError::GetBlockDataFailure => "Fail to get block data"@,
        CellParseError::GetFieldDataFailure => "Fail to get field data"@,
        CellParseError::RequiredSectionMissing => "Missing lattice parameters and/or ionic positions!"@,
        CellParseError::FileReadingFailure => "Failed to read from file"@,
        CellParseError::UnexpectedBlockType((expected, curr)) =>
            "wrong block name: expect "@ + expected@ + " but curr: "@ + curr@,
    }
}

impl CellParseError {
    /// The human-readable description of the error.
    pub fn to_string(&self) -> (r: String)
        ensures
            r@ == message_of(*self),
    {
        match self {
            CellParseError::UnexpectedLength => String::from_str("Unexpected length of data"),
            CellParseError::UnexpectedValueType => String::from_str("Unexpected value type"),
            CellParseError::Invalid => String::from_str("Not valid keywords or data in `.cell`"),
            CellParseError::GetBlockDataFailure => String::from_str("Fail to get block data"),
            CellParseError::GetFieldDataFailure => String::from_str("Fail to get field data"),
            CellParseError::RequiredSectionMissing => String::from_str(
                "Missing lattice parameters and/or ionic positions!",
            ),
            CellParseError::FileReadingFailure => String::from_str("Failed to read from file"),
            CellParseError::UnexpectedBlockType((expected, curr)) => {
                let mut r = String::from_str("wrong block name: expect ");
                r.append(expected.as_str());
                r.append(" but curr: ");
                r.append(curr.as_str());
                r
            },
        }
    }
}

} // verus!
