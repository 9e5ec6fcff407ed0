use vstd::prelude::*;

verus! {

/// The three kinds of failure that the cache reports, each with a detail message.
#[derive(Debug, PartialEq, Eq)]
pub enum CacheError {
    /// Transport I/O failed: connecting, reading or writing.
    Network(String),
    /// A frame's payload could not be encoded or decoded.
    Serialization(String),
    /// An oversized frame, a damaged log record, a failed lock or a file that cannot be opened.
    Internal(String),
}

impl CacheError {
    /// The detail message carried by the error.
    pub open spec fn detail(self) -> Seq<char> {
        match self {
            CacheError::Network(message) => message@,
            CacheError::Serialization(message) => message@,
            CacheError::Internal(message) => message@,
        }
    }

    /// Whether this is an internal error with the given detail.
    pub open spec fn is_internal(self, detail: Seq<char>) -> bool {
        self is Internal && self.detail() == detail
    }

    /// The words that name the error's kind in its rendered form.
    pub open spec fn label(self) -> Seq<char> {
        match self {
            CacheError::Network(_) => "network error: "@,
            CacheError::Serialization(_) => "serialization error: "@,
            CacheError::Internal(_) => "internal error: "@,
        }
    }

    /// The rendered form of the error: the kind's label followed by the detail.
    pub open spec fn text(self) -> Seq<char> {
        self.label() + self.detail()
    }

    /// Renders the error for display.
    pub fn to_string(&self) -> (rendered: String)
        ensures
            rendered@ == self.text(),
    {
        match self {
            CacheError::Network(message) => String::from_str("network error: ").concat(
                message.as_str(),
            ),
            CacheError::Serialization(message) => String::from_str("serialization error: ").concat(
                message.as_str(),
            ),
            CacheError::Internal(message) => String::from_str("internal error: ").concat(
                message.as_str(),
            ),
        }
    }
}

} // verus!
