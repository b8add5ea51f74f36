use vstd::prelude::*;

verus! {

/// An error surfaced by the store, carrying a human-readable message.
///
/// The store never swallows a failure silently: an operation that cannot do its
/// work hands one of these back, and the message says which rule was broken.
#[derive(Debug)]
pub struct AppError {
    details: String,
}

impl View for AppError {
    type V = Seq<char>;

    closed spec fn view(&self) -> Seq<char> {
        self.details@
    }
}

impl AppError {
    /// Creates an error carrying `message`.
    pub fn new(message: String) -> (r: Self)
        ensures
            r@ == message@,
    {
        AppError { details: message }
    }

    /// The message this error carries.
    pub fn message(&self) -> (r: &String)
        ensures
            r@ == self@,
    {
        &self.details
    }
}

} // verus!
