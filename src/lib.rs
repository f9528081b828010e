use vstd::prelude::*;

pub mod errors;
pub mod executor;
pub mod laws;
pub mod lexer;
pub mod maths;
pub mod shunting_yard;
pub mod tokens;

use crate::errors::{Error, ErrorType};
use crate::executor::{evaluate_postfix, Executor};
use crate::lexer::{tokenize, Lexer};
use crate::shunting_yard::{to_postfix, ShuntingYard};

verus! {

/// The result of the last statement of the text `s`: tokenized, put in
/// postfix order and evaluated from an empty variable table.
pub open spec fn evaluation(s: Seq<char>) -> Result<i64, ErrorType> {
    match tokenize(s) {
        Err(e) => Err(e),
        Ok(infix) => match to_postfix(infix) {
            Err(e) => Err(e),
            Ok(postfix) => match evaluate_postfix(postfix) {
                Err(e) => Err(e),
                Ok((v, _)) => Ok(v),
            },
        },
    }
}

/// Evaluates `input` and returns the result of its last statement, or the
/// first error met.
pub fn evaluate(input: &str) -> (r: Result<i64, Error>)
    ensures
        r matches Ok(v) ==> evaluation(input@) == Ok::<i64, ErrorType>(v),
        r matches Err(e) ==> evaluation(input@) == Err::<i64, ErrorType>(e.error_type),
{
    let mut lexer = Lexer::new(input);
    match lexer.process() {
        Ok(()) => {},
        Err(e) => {
            return Err(e);
        },
    }
    let tokens = lexer.into_tokens();
    let mut yard = ShuntingYard::new();
    match yard.process(tokens) {
        Ok(()) => {},
        Err(e) => {
            return Err(e);
        },
    }
    let postfix = yard.into_output();
    let mut executor = Executor::new();
    executor.execute(postfix)
}

} // verus!
