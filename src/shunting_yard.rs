use vstd::prelude::*;

use crate::errors::{Error, ErrorType};
use crate::tokens::{
    Associativity, Token, TokenModel, TokenOperator, TokenType, associativity, is_unary,
    precedence, tokens_model,
};

verus! {

/// The operator `top` on the stack is output before the incoming binary
/// operator `op` is pushed.
pub open spec fn pops_before(top: TokenOperator, op: TokenOperator) -> bool {
    precedence(top) > precedence(op) || (precedence(top) == precedence(op) && associativity(op)
        == Associativity::Left)
}

/// Moves to the output the operators on top of the stack that bind before
/// the incoming binary operator `op`.
pub open spec fn pop_for_binary(op: TokenOperator, out: Seq<TokenModel>, stack: Seq<TokenModel>) -> (
    Seq<TokenModel>,
    Seq<TokenModel>,
)
    decreases stack.len(),
{
    if stack.len() > 0 && (stack.last().0 matches TokenType::Operator(top) && pops_before(top, op)) {
        pop_for_binary(op, out.push(stack.last()), stack.drop_last())
    } else {
        (out, stack)
    }
}

/// Moves operators to the output up to the matching `(`, which is dropped,
/// and then a function call that the parenthesis closes.
pub open spec fn close_parenthesis(out: Seq<TokenModel>, stack: Seq<TokenModel>) -> Result<
    (Seq<TokenModel>, Seq<TokenModel>),
    ErrorType,
>
    decreases stack.len(),
{
    if stack.len() == 0 {
        Err(ErrorType::SyntaxError)
    } else if stack.last().0 == TokenType::LeftParenthesis {
        let rest = stack.drop_last();
        if rest.len() > 0 && rest.last().0 is Function {
            Ok((out.push(rest.last()), rest.drop_last()))
        } else {
            Ok((out, rest))
        }
    } else {
        close_parenthesis(out.push(stack.last()), stack.drop_last())
    }
}

/// Moves the whole stack to the output; a `(` still open is a syntax error.
pub open spec fn drain(out: Seq<TokenModel>, stack: Seq<TokenModel>) -> Result<
    Seq<TokenModel>,
    ErrorType,
>
    decreases stack.len(),
{
    if stack.len() == 0 {
        Ok(out)
    } else if stack.last().0 == TokenType::LeftParenthesis {
        Err(ErrorType::SyntaxError)
    } else {
        drain(out.push(stack.last()), stack.drop_last())
    }
}

/// The output and the operator stack after the token `t`.
pub open spec fn shunt_step(t: TokenModel, out: Seq<TokenModel>, stack: Seq<TokenModel>) -> Result<
    (Seq<TokenModel>, Seq<TokenModel>),
    ErrorType,
> {
    match t.0 {
        TokenType::Number | TokenType::Variable => {
            let with_operand = out.push(t);
            if stack.len() > 0 && is_unary(stack.last().0) {
                Ok((with_operand.push(stack.last()), stack.drop_last()))
            } else {
                Ok((with_operand, stack))
            }
        },
        TokenType::Operator(op) => if op.unary {
            Ok((out, stack.push(t)))
        } else {
            let (o, s) = pop_for_binary(op, out, stack);
            Ok((o, s.push(t)))
        },
        TokenType::Function(_) | TokenType::Name | TokenType::LeftParenthesis => Ok(
            (out, stack.push(t)),
        ),
        TokenType::Comma => if stack.len() > 0 && stack.last().0 is Function {
            Ok((out.push(stack.last()), stack.drop_last()))
        } else {
            Ok((out, stack))
        },
        TokenType::RightParenthesis => close_parenthesis(out, stack),
        TokenType::EndOfExpression => match drain(out, stack) {
            Ok(o) => Ok((o.push(t), seq![])),
            Err(e) => Err(e),
        },
    }
}

/// The postfix output for the tokens `ts`, from the given output and stack.
pub open spec fn shunt(ts: Seq<TokenModel>, out: Seq<TokenModel>, stack: Seq<TokenModel>) -> Result<
    Seq<TokenModel>,
    ErrorType,
>
    decreases ts.len(),
{
    if ts.len() == 0 {
        drain(out, stack)
    } else {
        match shunt_step(ts[0], out, stack) {
            Err(e) => Err(e),
            Ok((o, s)) => shunt(ts.drop_first(), o, s),
        }
    }
}

/// The postfix (reverse Polish) order of the infix tokens `ts`.
pub open spec fn to_postfix(ts: Seq<TokenModel>) -> Result<Seq<TokenModel>, ErrorType> {
    shunt(ts, seq![], seq![])
}

/// A copy of `t`.
fn copy_token(t: &Token) -> (r: Token)
    ensures
        r@ == t@,
{
    Token::new(t.token_type, t.value.clone())
}

/// Reorders infix tokens into postfix order with an operator stack.
pub struct ShuntingYard {
    output_queue: Vec<Token>,
    operator_stack: Vec<Token>,
}

impl ShuntingYard {
    /// The tokens output so far.
    pub closed spec fn output_models(&self) -> Seq<TokenModel> {
        tokens_model(self.output_queue@)
    }

    /// The operators waiting on the stack.
    pub closed spec fn stack_models(&self) -> Seq<TokenModel> {
        tokens_model(self.operator_stack@)
    }

    pub fn new() -> (r: Self)
        ensures
            r.output_models() == Seq::<TokenModel>::empty(),
            r.stack_models() == Seq::<TokenModel>::empty(),
    {
        let r = ShuntingYard { output_queue: Vec::new(), operator_stack: Vec::new() };
        assert(r.output_models() =~= Seq::<TokenModel>::empty());
        assert(r.stack_models() =~= Seq::<TokenModel>::empty());
        r
    }

    /// Hands out the postfix tokens.
    pub fn into_output(self) -> (r: Vec<Token>)
        ensures
            tokens_model(r@) == self.output_models(),
    {
        self.output_queue
    }

    /// Converts `tokens`, then empties the operator stack into the output.
    pub fn process(&mut self, tokens: Vec<Token>) -> (r: Result<(), Error>)
        ensures
            r matches Ok(_) ==> shunt(
                tokens_model(tokens@),
                old(self).output_models(),
                old(self).stack_models(),
            ) == Ok::<Seq<TokenModel>, ErrorType>(final(self).output_models()),
            r matches Err(e) ==> shunt(
                tokens_model(tokens@),
                old(self).output_models(),
                old(self).stack_models(),
            ) == Err::<Seq<TokenModel>, ErrorType>(e.error_type),
    {
        let ghost ts = tokens_model(tokens@);
        assert(ts.subrange(0, ts.len() as int) =~= ts);
        let mut i: usize = 0;
        while i < tokens.len()
            invariant
                ts == tokens_model(tokens@),
                i <= tokens@.len(),
                shunt(ts, old(self).output_models(), old(self).stack_models()) == shunt(
                    ts.subrange(i as int, ts.len() as int),
                    self.output_models(),
                    self.stack_models(),
                ),
            decreases tokens@.len() - i,
        {
            let ghost rest = ts.subrange(i as int, ts.len() as int);
            assert(rest.drop_first() =~= ts.subrange(i + 1, ts.len() as int));
            assert(rest[0] == tokens@[i as int]@);
            match self.step(&tokens[i]) {
                Ok(()) => {},
                Err(e) => {
                    return Err(e);
                },
            }
            i = i + 1;
        }
        assert(ts.subrange(i as int, ts.len() as int).len() == 0);
        self.drain_stack()
    }

    /// Moves the top of the operator stack to the output.
    fn move_top(&mut self)
        requires
            old(self).operator_stack@.len() > 0,
        ensures
            final(self).output_models() == old(self).output_models().push(
                old(self).stack_models().last(),
            ),
            final(self).stack_models() == old(self).stack_models().drop_last(),
    {
        let top = self.operator_stack.pop().unwrap();
        self.output_queue.push(top);
        assert(self.output_models() =~= old(self).output_models().push(
            old(self).stack_models().last(),
        ));
        assert(self.stack_models() =~= old(self).stack_models().drop_last());
    }

    fn top_type(&self) -> (r: Option<TokenType>)
        ensures
            r == (if self.stack_models().len() == 0 {
                None::<TokenType>
            } else {
                Some(self.stack_models().last().0)
            }),
    {
        if self.operator_stack.len() == 0 {
            None
        } else {
            Some(self.operator_stack[self.operator_stack.len() - 1].token_type)
        }
    }

    fn push_operator(&mut self, t: Token)
        ensures
            final(self).output_models() == old(self).output_models(),
            final(self).stack_models() == old(self).stack_models().push(t@),
    {
        self.operator_stack.push(t);
        assert(self.stack_models() =~= old(self).stack_models().push(t@));
    }

    fn push_output(&mut self, t: Token)
        ensures
            final(self).output_models() == old(self).output_models().push(t@),
            final(self).stack_models() == old(self).stack_models(),
    {
        self.output_queue.push(t);
        assert(self.output_models() =~= old(self).output_models().push(t@));
    }

    /// Handles one token.
    fn step(&mut self, token: &Token) -> (r: Result<(), Error>)
        ensures
            r matches Ok(_) ==> shunt_step(token@, old(self).output_models(), old(self).stack_models())
                == Ok::<(Seq<TokenModel>, Seq<TokenModel>), ErrorType>(
                (final(self).output_models(), final(self).stack_models()),
            ),
            r matches Err(e) ==> shunt_step(
                token@,
                old(self).output_models(),
                old(self).stack_models(),
            ) == Err::<(Seq<TokenModel>, Seq<TokenModel>), ErrorType>(e.error_type),
    {
        match token.token_type {
            TokenType::Number | TokenType::Variable => {
                self.push_operand(token);
                Ok(())
            },
            TokenType::Operator(op) => {
                if !op.unary {
                    self.pop_for_binary(op);
                }
                self.push_operator(copy_token(token));
                Ok(())
            },
            TokenType::Function(_) | TokenType::Name | TokenType::LeftParenthesis => {
                self.push_operator(copy_token(token));
                Ok(())
            },
            TokenType::Comma => {
                let function_on_top = match self.top_type() {
                    Some(TokenType::Function(_)) => true,
                    _ => false,
                };
                if function_on_top {
                    self.move_top();
                }
                Ok(())
            },
            TokenType::RightParenthesis => self.close_parenthesis(),
            TokenType::EndOfExpression => {
                match self.drain_stack() {
                    Ok(()) => {},
                    Err(e) => {
                        return Err(e);
                    },
                }
                self.push_output(copy_token(token));
                assert(self.stack_models() =~= seq![]);
                Ok(())
            },
        }
    }

    /// Outputs an operand, then a unary operator waiting for it.
    fn push_operand(&mut self, token: &Token)
        ensures
            ({
                let with_operand = old(self).output_models().push(token@);
                let stack = old(self).stack_models();
                if stack.len() > 0 && is_unary(stack.last().0) {
                    final(self).output_models() == with_operand.push(stack.last())
                        && final(self).stack_models() == stack.drop_last()
                } else {
                    final(self).output_models() == with_operand && final(self).stack_models()
                        == stack
                }
            }),
    {
        self.push_output(copy_token(token));
        let unary_on_top = match self.top_type() {
            Some(TokenType::Operator(op)) => op.unary,
            _ => false,
        };
        if unary_on_top {
            self.move_top();
        }
    }

    fn pop_for_binary(&mut self, op: TokenOperator)
        ensures
            (final(self).output_models(), final(self).stack_models()) == pop_for_binary(
                op,
                old(self).output_models(),
                old(self).stack_models(),
            ),
    {
        loop
            invariant
                pop_for_binary(op, old(self).output_models(), old(self).stack_models())
                    == pop_for_binary(op, self.output_models(), self.stack_models()),
            decreases self.operator_stack@.len(),
        {
            let pops = match self.top_type() {
                Some(TokenType::Operator(top)) => {
                    let top_rank = top.get_precedence();
                    let rank = op.get_precedence();
                    top_rank > rank || (top_rank == rank && match op.get_associativity() {
                        Associativity::Left => true,
                        Associativity::Right => false,
                    })
                },
                _ => false,
            };
            if !pops {
                return ;
            }
            self.move_top();
        }
    }

    fn close_parenthesis(&mut self) -> (r: Result<(), Error>)
        ensures
            r matches Ok(_) ==> close_parenthesis(old(self).output_models(), old(self).stack_models())
                == Ok::<(Seq<TokenModel>, Seq<TokenModel>), ErrorType>(
                (final(self).output_models(), final(self).stack_models()),
            ),
            r matches Err(e) ==> close_parenthesis(
                old(self).output_models(),
                old(self).stack_models(),
            ) == Err::<(Seq<TokenModel>, Seq<TokenModel>), ErrorType>(e.error_type),
    {
        loop
            invariant
                close_parenthesis(old(self).output_models(), old(self).stack_models())
                    == close_parenthesis(self.output_models(), self.stack_models()),
            decreases self.operator_stack@.len(),
        {
            match self.top_type() {
                None => {
                    return Err(Error::new(ErrorType::SyntaxError));
                },
                Some(TokenType::LeftParenthesis) => {
                    let ghost before = self.stack_models();
                    let _ = self.operator_stack.pop();
                    assert(self.stack_models() =~= before.drop_last());
                    let function_on_top = match self.top_type() {
                        Some(TokenType::Function(_)) => true,
                        _ => false,
                    };
                    if function_on_top {
                        self.move_top();
                    }
                    return Ok(());
                },
                Some(_) => {
                    self.move_top();
                },
            }
        }
    }

    fn drain_stack(&mut self) -> (r: Result<(), Error>)
        ensures
            r matches Ok(_) ==> drain(old(self).output_models(), old(self).stack_models())
                == Ok::<Seq<TokenModel>, ErrorType>(final(self).output_models())
                && final(self).stack_models().len() == 0,
            r matches Err(e) ==> drain(old(self).output_models(), old(self).stack_models())
                == Err::<Seq<TokenModel>, ErrorType>(e.error_type),
    {
        loop
            invariant
                drain(old(self).output_models(), old(self).stack_models()) == drain(
                    self.output_models(),
                    self.stack_models(),
                ),
            decreases self.operator_stack@.len(),
        {
            match self.top_type() {
                None => {
                    return Ok(());
                },
                Some(TokenType::LeftParenthesis) => {
                    return Err(Error::new(ErrorType::SyntaxError));
                },
                Some(_) => {
                    self.move_top();
                },
            }
        }
    }
}

} // verus!
