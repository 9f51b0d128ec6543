use vstd::prelude::*;

verus! {

/// Error reported by index-level operations (loading or saving the cache).
#[derive(Debug, Clone)]
pub struct RgmError {
    pub message: String,
}

/// Result type of index-level operations.
pub type Result<T> = core::result::Result<T, RgmError>;

impl RgmError {
    pub fn new(message: String) -> (r: Self)
        ensures
            r.message@ == message@,
    {
        RgmError { message }
    }

    /// Text of the error, as shown to the user.
    pub fn to_string(&self) -> (r: String)
        ensures
            r@ == self.message@,
    {
        self.message.clone()
    }
}

} // verus!
