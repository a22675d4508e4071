use vstd::prelude::*;
use vstd::string::StringExecFns;

verus! {

/// What can go wrong around the reference data. Each variant carries the
/// detail that its message ends with.
#[derive(Debug, Clone, PartialEq, Eq)]
pub enum SimulatorError {
    /// A file could not be read.
    Io(String),
    /// A table could not be read as records.
    Csv(String),
    /// A record that is needed is not in the reference data.
    MissingData(String),
    /// A record could not be understood.
    InvalidData(String),
}

impl SimulatorError {
    /// The message of the error: what kind it is, a colon, and the detail.
    pub open spec fn spec_message(&self) -> Seq<char> {
        match self {
            SimulatorError::Io(detail) => "io error: "@ + detail@,
            SimulatorError::Csv(detail) => "csv error: "@ + detail@,
            SimulatorError::MissingData(detail) => "missing data: "@ + detail@,
            SimulatorError::InvalidData(detail) => "invalid data: "@ + detail@,
        }
    }

    /// The message of the error: what kind it is, a colon, and the detail.
    pub fn message(&self) -> (text: String)
        ensures
            text@ == self.spec_message(),
    {
        match self {
            SimulatorError::Io(detail) => String::from_str("io error: ").concat(detail.as_str()),
            SimulatorError::Csv(detail) => String::from_str("csv error: ").concat(detail.as_str()),
            SimulatorError::MissingData(detail) => String::from_str("missing data: ").concat(
                detail.as_str(),
            ),
            SimulatorError::InvalidData(detail) => String::from_str("invalid data: ").concat(
                detail.as_str(),
            ),
        }
    }
}

} // verus!
