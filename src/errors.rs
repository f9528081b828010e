use vstd::prelude::*;

verus! {

/// The kinds of failure that stop the evaluation of an input.
#[derive(Debug, Clone, Copy, PartialEq, Eq, Structural)]
pub enum ErrorType {
    /// Malformed structure: unbalanced parentheses, a misplaced comma, a bad
    /// assignment target, leftover operands or a bad numeric literal.
    SyntaxError,
    /// A character that matches no scanning rule.
    UnexpectedToken,
    /// An arity mismatch, a domain violation or an arithmetic overflow.
    InvalidOperation,
    /// A reference to a variable that was never assigned.
    UnboundVariable,
}

/// An error raised by the pipeline, carrying its kind.
#[derive(Debug, Clone, Copy, PartialEq, Eq, Structural)]
pub struct Error {
    pub error_type: ErrorType,
}

impl Error {
    pub fn new(error_type: ErrorType) -> (r: Error)
        ensures
            r.error_type == error_type,
    {
        Error { error_type }
    }

    /// The human-readable message of this kind of error.
    pub fn message(&self) -> (r: &'static str)
        ensures
            r@ == error_message(self.error_type),
    {
        match self.error_type {
            ErrorType::SyntaxError => "Syntax error.",
            ErrorType::UnexpectedToken => "Unexpected token.",
            ErrorType::InvalidOperation => "Invalid operation.",
            ErrorType::UnboundVariable => "Unbound variable.",
        }
    }

    /// The process exit status associated with this kind of error.
    pub fn exit_code(&self) -> (r: i32)
        ensures
            r == error_exit_code(self.error_type),
    {
        match self.error_type {
            ErrorType::SyntaxError | ErrorType::UnexpectedToken => 2,
            ErrorType::InvalidOperation | ErrorType::UnboundVariable => 3,
        }
    }
}

pub open spec fn error_message(t: ErrorType) -> Seq<char> {
    match t {
        ErrorType::SyntaxError => "Syntax error."@,
        ErrorType::UnexpectedToken => "Unexpected token."@,
        ErrorType::InvalidOperation => "Invalid operation."@,
        ErrorType::UnboundVariable => "Unbound variable."@,
    }
}

pub open spec fn error_exit_code(t: ErrorType) -> i32 {
    match t {
        ErrorType::SyntaxError | ErrorType::UnexpectedToken => 2,
        ErrorType::InvalidOperation | ErrorType::UnboundVariable => 3,
    }
}

} // verus!
