use vstd::prelude::*;

verus! {

/// A failure reported to the caller, carrying a human-readable message.
#[derive(Debug)]
pub struct Error {
    pub message: String,
}

impl Error {
    /// Builds an error with the given message.
    pub fn new(message: &str) -> (r: Error)
        ensures
            r.message@ == message@,
    {
        Error { message: String::from_str(message) }
    }

    /// The same error with `more` appended to its message.
    pub fn concat_message(self, more: &str) -> (r: Error)
        ensures
            r.message@ == self.message@ + more@,
    {
        Error { message: self.message.concat(more) }
    }
}

} // verus!
