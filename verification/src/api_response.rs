//! The envelope in which the commands answer the interface.
use vstd::prelude::*;

verus! {

/// A successful answer: its data and an optional message.
pub struct ApiSuccessResponse<T> {
    pub data: T,
    pub message: Option<String>,
}

impl<T> ApiSuccessResponse<T> {
    /// An answer carrying `data` and no message.
    pub fn new(data: T) -> (r: Self)
        ensures
            r.data == data,
            r.message is None,
    {
        Self { data, message: None }
    }
}

} // verus!
