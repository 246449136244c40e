use vstd::prelude::*;

verus! {

/// Why a line, a record or an assembly attempt was rejected.
#[derive(Debug, Clone, PartialEq, Eq)]
pub enum ExtractionError {
    /// The line holds fewer than the two characters of a type prefix.
    TooSmall,
    /// A field of the line is not a number.
    ParseError,
    /// The prefix is not known, or the field count does not match it.
    UnknownType,
    /// Not every kind of record has arrived yet.
    MissingDataPoint,
    /// The bytes of a line are not valid UTF-8.
    InvalidUtf8,
    /// Any other failure, with its description.
    Unknown(String),
}

impl ExtractionError {
    /// A human-readable description of the error.
    pub fn message(&self) -> (r: String)
        ensures
            self is TooSmall ==> r@ == "Got too small a message"@,
            self is ParseError ==> r@ == "Failed to parse string as float"@,
            self is UnknownType ==> r@ == "Unknown data point type"@,
            self is MissingDataPoint ==> r@ == "Missing a data point"@,
            self is InvalidUtf8 ==> r@ == "Line is not valid UTF-8"@,
            self matches ExtractionError::Unknown(m) ==> r@ == m@,
    {
        match self {
            ExtractionError::TooSmall => String::from_str("Got too small a message"),
            ExtractionError::ParseError => String::from_str("Failed to parse string as float"),
            ExtractionError::UnknownType => String::from_str("Unknown data point type"),
            ExtractionError::MissingDataPoint => String::from_str("Missing a data point"),
            ExtractionError::InvalidUtf8 => String::from_str("Line is not valid UTF-8"),
            ExtractionError::Unknown(m) => m.clone(),
        }
    }
}

} // verus!
