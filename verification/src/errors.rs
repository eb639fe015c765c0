use vstd::prelude::*;

verus! {

/// What went wrong inside a single line of wire text.
#[derive(Debug, Clone, Copy, PartialEq, Eq)]
pub enum DecodeErrorKind {
    /// The line is not a well-formed wire object.
    Syntax,
    /// A required field is absent.
    MissingField,
    /// The timestamp field does not denote an absolute point in time.
    BadTimestamp,
}

/// A per-line decode failure, carrying the 1-based line number.
#[derive(Debug, Clone, PartialEq, Eq)]
pub struct DecodeError {
    pub line: usize,
    pub kind: DecodeErrorKind,
}

impl DecodeError {
    /// A human-readable description of the failure.
    pub fn message(&self) -> String {
        String::from_str("Failed to parse JSON message")
    }

    /// A copy of the failure.
    pub fn duplicate(&self) -> (r: Self)
        ensures
            r == *self,
    {
        DecodeError { line: self.line, kind: self.kind }
    }
}

/// The error kinds of the store-facing operations.
#[derive(Debug, Clone, PartialEq, Eq)]
pub enum VaultError {
    /// The store is not connected; nothing was read or written.
    NotConnected,
    /// A prior panic poisoned the connection guard; the connection is unusable.
    LockPoisoned,
    /// The underlying execute call failed; the original cause is attached.
    StoreFailed { detail: String },
    /// A record with the same unique key is already present.
    DuplicateKey,
    /// The connection pool holds as many connections as it was sized for.
    PoolFull,
    /// The connection pool holds no connection.
    PoolEmpty,
    /// The bounded connection-retry policy gave up.
    RetriesExhausted,
    /// A relative-date phrase that the grammar does not recognize.
    CannotParseDate { input: String },
    /// A unit count of zero in a relative-date phrase.
    InvalidTimeValue,
    /// A digit run too large to be read as a count.
    InvalidNumber,
    /// An arithmetic bound was exceeded while resolving a date offset.
    DateOutOfRange,
}

impl VaultError {
    /// A human-readable description of the failure.
    pub fn message(&self) -> String {
        match self {
            VaultError::NotConnected => String::from_str("Database not connected"),
            VaultError::LockPoisoned => String::from_str("Lock poisoned"),
            VaultError::StoreFailed { detail } => String::from_str(
                "Failed to execute query: ",
            ).concat(detail.as_str()),
            VaultError::DuplicateKey => String::from_str("Duplicate unique key"),
            VaultError::PoolFull => String::from_str("Connection pool is full"),
            VaultError::PoolEmpty => String::from_str("No connections available in pool"),
            VaultError::RetriesExhausted => String::from_str("Failed to connect after maximum attempts"),
            VaultError::CannotParseDate { input } => String::from_str(
                "Cannot parse relative date: ",
            ).concat(input.as_str()),
            VaultError::InvalidTimeValue => String::from_str("Invalid time value"),
            VaultError::InvalidNumber => String::from_str("Invalid number"),
            VaultError::DateOutOfRange => String::from_str("Date offset out of range"),
        }
    }
}

} // verus!
