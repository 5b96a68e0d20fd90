use vstd::prelude::*;

verus! {

/// The recoverable, caller-correctable failures of a tracker operation.
#[derive(Debug, Clone, Copy, PartialEq, Eq, Structural)]
pub enum TrackerError {
    /// The key does not have the shape `word-digits`.
    KeyFormatError,
    /// A tracker with that key already exists.
    OccupiedError,
    /// No tracker with that key exists, or nothing is running.
    NotFoundError,
    /// A negative adjustment larger than the tracker's current elapsed time.
    DurationAdjustmentError,
}

/// The text that describes each error.
pub open spec fn message_of(e: TrackerError) -> Seq<char> {
    match e {
        TrackerError::KeyFormatError => "malformed tracker key"@,
        TrackerError::OccupiedError => "tracker already exists"@,
        TrackerError::NotFoundError => "tracker not found"@,
        TrackerError::DurationAdjustmentError => "adjustment exceeds elapsed time"@,
    }
}

impl TrackerError {
    /// A short human-readable description of the error.
    pub fn message(&self) -> (r: &'static str)
        ensures
            r@ == message_of(*self),
    {
        match self {
            TrackerError::KeyFormatError => "malformed tracker key",
            TrackerError::OccupiedError => "tracker already exists",
            TrackerError::NotFoundError => "tracker not found",
            TrackerError::DurationAdjustmentError => "adjustment exceeds elapsed time",
        }
    }
}

/// A failure of the durable store (reading or writing the state file), kept
/// apart from the domain errors of [`TrackerError`].
#[derive(Debug, PartialEq, Eq)]
pub struct LogError {
    pub message: String,
}

impl LogError {
    pub fn new(message: String) -> (r: LogError)
        ensures
            r.message@ == message@,
    {
        LogError { message }
    }

    pub fn message(&self) -> (r: &str)
        ensures
            r@ == self.message@,
    {
        self.message.as_str()
    }
}

} // verus!
