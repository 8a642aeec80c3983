use vstd::prelude::*;

verus! {

/// Why collecting hardware attributes or deriving a fingerprint failed.
#[derive(Clone, Debug, PartialEq, Eq)]
pub enum HardwareError {
    /// An external command could not be run, or its output could not be read.
    CommandError(String),
    /// A file could not be opened or read.
    FileError(String),
    /// An attribute could not be extracted from its source.
    ParseError(String),
    /// No probe exists for this operating system and attribute.
    UnsupportedSystem(String),
    /// The motherboard serial or the motherboard UUID is empty.
    MissingCriticalData,
}

} // verus!
