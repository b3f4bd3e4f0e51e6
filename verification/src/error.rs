//! Why a time stamp could not be decoded or was not accepted.

use vstd::prelude::*;

verus! {

/// Describes the errors that can occur when a time stamp is decoded or verified.
#[derive(Debug, PartialEq, Eq)]
pub enum TimeStampError {
    /// The time stamp, or something inside it, could not be decoded.
    DecodeError(String),
    /// The time stamp does not belong to the data, or contradicts itself.
    InvalidData,
    /// The signature on the time stamp, or the certificate behind it, is not trusted.
    Untrusted,
    /// The certificate was not valid at the time of signing.
    ExpiredCertificate,
    /// The time stamp uses an algorithm that is not supported.
    UnsupportedAlgorithm,
}

/// A [`TimeStampError`] with its message as a sequence of characters.
pub enum TimeStampErrorView {
    DecodeError(Seq<char>),
    InvalidData,
    Untrusted,
    ExpiredCertificate,
    UnsupportedAlgorithm,
}

impl View for TimeStampError {
    type V = TimeStampErrorView;

    open spec fn view(&self) -> TimeStampErrorView {
        match self {
            TimeStampError::DecodeError(message) => TimeStampErrorView::DecodeError(message@),
            TimeStampError::InvalidData => TimeStampErrorView::InvalidData,
            TimeStampError::Untrusted => TimeStampErrorView::Untrusted,
            TimeStampError::ExpiredCertificate => TimeStampErrorView::ExpiredCertificate,
            TimeStampError::UnsupportedAlgorithm => TimeStampErrorView::UnsupportedAlgorithm,
        }
    }
}

impl TimeStampError {
    /// A decoding error with the given message.
    pub fn decode(message: &str) -> (error: TimeStampError)
        ensures
            error@ == TimeStampErrorView::DecodeError(message@),
    {
        TimeStampError::DecodeError(message.to_string())
    }
}

/// A result with the views of its values.
pub open spec fn result_view<T: DeepView>(result: Result<T, TimeStampError>) -> Result<
    T::V,
    TimeStampErrorView,
> {
    match result {
        Ok(value) => Ok(value.deep_view()),
        Err(error) => Err(error@),
    }
}

} // verus!
