//! Response bodies of the local ingestion endpoint. The HTTP server lives
//! outside; it serialises these plain structs.

use vstd::prelude::*;

verus! {

/// A successful transcription of an uploaded recording.
pub struct TranscriptionResponse {
    pub text: String,
}

/// A failed transcription of an uploaded recording.
pub struct ErrorResponse {
    pub error: String,
}

impl TranscriptionResponse {
    pub fn new(text: String) -> (r: TranscriptionResponse)
        ensures
            r.text == text,
    {
        TranscriptionResponse { text }
    }
}

impl ErrorResponse {
    pub fn new(error: String) -> (r: ErrorResponse)
        ensures
            r.error == error,
    {
        ErrorResponse { error }
    }
}

} // verus!
