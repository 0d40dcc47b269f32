//! API responses: per-error information and failures.

pub mod api_fail;
mod equality;

use vstd::prelude::*;
use crate::framework::json::JsonValue;

verus! {

/// One message of a response: its code, its text, and any other fields it
/// came with, each key once.
#[derive(Debug)]
pub struct ResponseInfo {
    pub code: u16,
    pub message: String,
    pub other: Vec<(String, JsonValue)>,
}

} // verus!
