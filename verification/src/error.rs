//! The error of this library.

use vstd::prelude::*;

verus! {

#[derive(Debug, Clone, Copy, PartialEq, Eq, Structural)]
pub enum SfoIOErrorCode {
    /// Something failed on the way.
    Failed,
    /// A command ran, and reported failure.
    CmdReturnFailed,
}

pub struct SfoIOError {
    pub code: SfoIOErrorCode,
    pub message: String,
}

pub type SfoIOResult<T> = Result<T, SfoIOError>;

impl SfoIOError {
    pub open spec fn says(self, code: SfoIOErrorCode, message: Seq<char>) -> bool {
        &&& self.code == code
        &&& self.message@ == message
    }

    pub fn new(code: SfoIOErrorCode, message: String) -> (error: SfoIOError)
        ensures
            error.says(code, message@),
    {
        SfoIOError { code, message }
    }

    /// An error with a fixed text.
    pub fn failed(message: &str) -> (error: SfoIOError)
        ensures
            error.says(SfoIOErrorCode::Failed, message@),
    {
        SfoIOError { code: SfoIOErrorCode::Failed, message: message.to_owned() }
    }

    pub fn code(&self) -> (code: SfoIOErrorCode)
        ensures
            code == self.code,
    {
        self.code
    }

    pub fn msg(&self) -> (message: &str)
        ensures
            message@ == self.message@,
    {
        self.message.as_str()
    }
}

/// An error says just its code and its message.
pub proof fn law_errors_say_code_and_message(
    error: SfoIOError,
    code: SfoIOErrorCode,
    message: Seq<char>,
)
    ensures
        error.says(code, message) <==> error.code == code && error.message@ == message,
{
}

} // verus!
