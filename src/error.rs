use vstd::prelude::*;

verus! {

/// The ways a catalog operation can fail.
#[derive(Debug, Clone, PartialEq, Eq, Structural)]
pub enum DatabaseError {
    /// The requested key or id is absent.
    NotFound,
    /// A unique key is already taken.
    Conflict,
    /// An association names a row that does not exist.
    IntegrityError,
    /// The store cannot hand out another identifier.
    StorageError,
}

/// The ways launching an emulator can fail.
#[derive(Debug, Clone, PartialEq, Eq)]
pub enum EmulatorRunnerError {
    IoError(String),
    NoFileSelected,
    FileNotFound,
}

impl EmulatorRunnerError {
    /// The text shown for the error.
    pub open spec fn text(&self) -> Seq<char> {
        match self {
            EmulatorRunnerError::IoError(detail) => "IO error: "@ + detail@,
            EmulatorRunnerError::NoFileSelected => "No file selected"@,
            EmulatorRunnerError::FileNotFound => "File not found"@,
        }
    }

    pub fn message(&self) -> (r: String)
        ensures
            r@ == self.text(),
    {
        match self {
            EmulatorRunnerError::IoError(detail) => {
                proof {
                    reveal_strlit("IO error: ");
                }
                let prefix = String::from_str("IO error: ");
                prefix.concat(detail.as_str())
            },
            EmulatorRunnerError::NoFileSelected => {
                proof {
                    reveal_strlit("No file selected");
                }
                String::from_str("No file selected")
            },
            EmulatorRunnerError::FileNotFound => {
                proof {
                    reveal_strlit("File not found");
                }
                String::from_str("File not found")
            },
        }
    }
}

} // verus!
