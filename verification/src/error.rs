//! The error type of every fallible operation.

use vstd::prelude::*;
use crate::text::push_str;

verus! {

/// A failure with the message shown to the user and the process exit code.
#[derive(Clone, Debug)]
pub struct AppError {
    pub message: String,
    pub exit_code: i32,
}

/// The result type of fallible operations.
pub type AppResult<T> = Result<T, AppError>;

/// The message of an error that wraps an I/O failure: the context, a colon, and the detail.
pub open spec fn io_message(context: Seq<char>, detail: Seq<char>) -> Seq<char> {
    context + ": "@ + detail
}

impl AppError {
    /// An error with the given message and exit code 1.
    pub fn new(message: String) -> (r: AppError)
        ensures
            r.message@ == message@,
            r.exit_code == 1,
    {
        AppError { message, exit_code: 1 }
    }

    /// An error for an I/O failure described by `detail`, in the given context.
    pub fn io(context: &str, detail: &str) -> (r: AppError)
        ensures
            r.message@ == io_message(context@, detail@),
            r.exit_code == 1,
    {
        let mut message = String::new();
        push_str(&mut message, context);
        push_str(&mut message, ": ");
        push_str(&mut message, detail);
        AppError::new(message)
    }

    /// The text of this error.
    pub fn to_string(&self) -> (r: String)
        ensures
            r@ == self.message@,
    {
        self.message.clone()
    }
}

} // verus!
