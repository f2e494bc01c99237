//! Stored requests of batches.

use vstd::prelude::*;

verus! {

/// What is needed of a stored request to check its reasoning controls again.
#[derive(Debug)]
pub struct BatchTemplateReasoningRequest {
    pub custom_id: Option<String>,
    pub path: String,
    pub body: String,
    pub model: String,
    pub line_number: i32,
}

}
