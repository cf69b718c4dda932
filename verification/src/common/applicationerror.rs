use vstd::prelude::*;
use vstd::string::StringExecFns;

verus! {

/// A failure that is reported to the caller with a message.
#[derive(Debug, PartialEq, Eq)]
pub struct ApplicationError {
    /// What went wrong.
    pub message: String,
}

impl View for ApplicationError {
    type V = Seq<char>;

    /// The message.
    open spec fn view(&self) -> Seq<char> {
        self.message@
    }
}

impl Clone for ApplicationError {
    fn clone(&self) -> (copy: ApplicationError)
        ensures
            copy@ == self@,
    {
        ApplicationError { message: self.message.clone() }
    }
}

impl ApplicationError {
    /// An error that carries `message`.
    pub fn new(message: &str) -> (error: ApplicationError)
        ensures
            error@ == message@,
    {
        ApplicationError { message: String::from_str(message) }
    }

    /// The message of this error.
    pub fn get_message(&self) -> (message: &str)
        ensures
            message@ == self@,
    {
        self.message.as_str()
    }
}

} // verus!
