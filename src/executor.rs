use vstd::prelude::*;
use vstd::string::*;

use crate::errors::{Error, ErrorType};
use crate::lexer::is_digit;
use crate::tokens::{
    Token, TokenModel, TokenType, arity, function_result, is_binary, operator_result,
    tokens_model,
};

verus! {

/// A variable table: names and values, in the order the names were first
/// assigned.
pub type VarTable = Seq<(Seq<char>, i64)>;

/// No name occurs twice in `vars`.
pub open spec fn unique_names(vars: VarTable) -> bool {
    forall|i: int, j: int| 0 <= i < j < vars.len() ==> vars[i].0 != vars[j].0
}

pub open spec fn has_var(vars: VarTable, name: Seq<char>) -> bool {
    exists|i: int| 0 <= i < vars.len() && vars[i].0 == name
}

pub open spec fn var_index(vars: VarTable, name: Seq<char>) -> int {
    choose|i: int| 0 <= i < vars.len() && vars[i].0 == name
}

/// The value of `name` in `vars`, if it has one.
pub open spec fn lookup(vars: VarTable, name: Seq<char>) -> Option<i64> {
    if has_var(vars, name) {
        Some(vars[var_index(vars, name)].1)
    } else {
        None
    }
}

/// `vars` with `name` set to `value`: its entry is overwritten if it has
/// one, else a new entry is added at the end.
pub open spec fn assign(vars: VarTable, name: Seq<char>, value: i64) -> VarTable {
    if has_var(vars, name) {
        vars.update(var_index(vars, name), (name, value))
    } else {
        vars.push((name, value))
    }
}

/// The value of a text of decimal digits.
pub open spec fn decimal_value(s: Seq<char>) -> int
    decreases s.len(),
{
    if s.len() == 0 {
        0
    } else {
        decimal_value(s.drop_last()) * 10 + (s.last() as u32 - '0' as u32)
    }
}

/// The integer that a number token's text denotes, if it is a non-empty run
/// of decimal digits whose value fits in an `i64`.
pub open spec fn parse_number(s: Seq<char>) -> Option<i64> {
    if s.len() > 0 && (forall|i: int| 0 <= i < s.len() ==> is_digit(#[trigger] s[i]))
        && decimal_value(s) <= i64::MAX {
        Some(decimal_value(s) as i64)
    } else {
        None
    }
}

/// The state of an evaluation: the operand stack, the variable table and the
/// values pushed in the current statement.
pub struct EvalState {
    pub stack: Seq<i64>,
    pub vars: VarTable,
    pub history: Seq<i64>,
}

pub open spec fn push_value(st: EvalState, v: i64) -> EvalState {
    EvalState { stack: st.stack.push(v), vars: st.vars, history: st.history.push(v) }
}

/// `st` with its top `n` operands replaced by `v`.
pub open spec fn replace_top(st: EvalState, n: int, v: i64) -> EvalState {
    push_value(
        EvalState {
            stack: st.stack.subrange(0, st.stack.len() - n),
            vars: st.vars,
            history: st.history,
        },
        v,
    )
}

/// The state after the token at index `i` of the postfix sequence `ts`,
/// which is not the final `;`. A `;` ends a statement: it fails if more than
/// one value is left, and otherwise empties the stack and the history.
pub open spec fn eval_step(ts: Seq<TokenModel>, i: int, st: EvalState) -> Result<
    EvalState,
    ErrorType,
> {
    let t = ts[i];
    let n = st.stack.len();
    match t.0 {
        TokenType::EndOfExpression => if n > 1 {
            Err(ErrorType::SyntaxError)
        } else {
            Ok(EvalState { stack: seq![], vars: st.vars, history: seq![] })
        },
        TokenType::Number => match parse_number(t.1) {
            Some(v) => Ok(push_value(st, v)),
            None => Err(ErrorType::SyntaxError),
        },
        TokenType::Operator(op) => if op.unary {
            if n < 1 {
                Err(ErrorType::SyntaxError)
            } else {
                match operator_result(op, st.stack[n - 1], 0) {
                    Ok(v) => Ok(replace_top(st, 1, v)),
                    Err(e) => Err(e),
                }
            }
        } else {
            if n < 2 {
                Err(ErrorType::SyntaxError)
            } else {
                match operator_result(op, st.stack[n - 2], st.stack[n - 1]) {
                    Ok(v) => Ok(replace_top(st, 2, v)),
                    Err(e) => Err(e),
                }
            }
        },
        TokenType::Function(f) => {
            let k = arity(f.defined_function) as int;
            if n < k {
                Err(ErrorType::SyntaxError)
            } else {
                match function_result(f.defined_function, st.stack.subrange(n - k, n as int)) {
                    Ok(v) => Ok(replace_top(st, k, v)),
                    Err(e) => Err(e),
                }
            }
        },
        TokenType::Name => if i + 1 < ts.len() && is_binary(ts[i + 1].0) {
            Err(ErrorType::SyntaxError)
        } else if n > 0 {
            Ok(
                EvalState {
                    stack: st.stack,
                    vars: assign(st.vars, t.1, st.stack[n - 1]),
                    history: st.history,
                },
            )
        } else {
            Ok(st)
        },
        TokenType::Variable => match lookup(st.vars, t.1) {
            Some(v) => Ok(push_value(st, v)),
            None => Err(ErrorType::UnboundVariable),
        },
        TokenType::LeftParenthesis | TokenType::RightParenthesis | TokenType::Comma => Err(
            ErrorType::SyntaxError,
        ),
    }
}

/// The result of the last statement and the final state, evaluating `ts`
/// from index `i` in the state `st`.
pub open spec fn eval_from(ts: Seq<TokenModel>, i: int, st: EvalState) -> Result<
    (i64, EvalState),
    ErrorType,
>
    decreases ts.len() - i,
{
    if i < 0 || i >= ts.len() {
        if st.stack.len() > 1 {
            Err(ErrorType::SyntaxError)
        } else if st.stack.len() == 1 {
            Ok((st.stack[0], st))
        } else {
            Ok((0, st))
        }
    } else if ts[i].0 == TokenType::EndOfExpression && i == ts.len() - 1 {
        if st.stack.len() == 1 {
            Ok((st.stack[0], st))
        } else {
            Err(ErrorType::SyntaxError)
        }
    } else {
        match eval_step(ts, i, st) {
            Ok(next) => eval_from(ts, i + 1, next),
            Err(e) => Err(e),
        }
    }
}

pub open spec fn empty_state() -> EvalState {
    EvalState { stack: seq![], vars: seq![], history: seq![] }
}

/// The result of evaluating the postfix sequence `ts` from a fresh state.
pub open spec fn evaluate_postfix(ts: Seq<TokenModel>) -> Result<(i64, EvalState), ErrorType> {
    eval_from(ts, 0, empty_state())
}

pub open spec fn vars_model(v: Seq<(String, i64)>) -> VarTable {
    v.map_values(|p: (String, i64)| (p.0@, p.1))
}

proof fn lemma_decimal_prefix(s: Seq<char>, k: int)
    requires
        0 <= k <= s.len(),
        forall|i: int| 0 <= i < s.len() ==> is_digit(#[trigger] s[i]),
    ensures
        0 <= decimal_value(s.subrange(0, k)) <= decimal_value(s),
    decreases s.len(),
{
    if k == s.len() {
        assert(s.subrange(0, k) =~= s);
        if s.len() > 0 {
            lemma_decimal_prefix(s.drop_last(), k - 1);
            assert(s.drop_last().subrange(0, k - 1) =~= s.drop_last());
        }
    } else {
        let t = s.drop_last();
        assert forall|i: int| 0 <= i < t.len() implies is_digit(#[trigger] t[i]) by {
            assert(t[i] == s[i]);
        }
        lemma_decimal_prefix(t, k);
        assert(t.subrange(0, k) =~= s.subrange(0, k));
        assert(is_digit(s[s.len() - 1]));
    }
}

/// The integer written by the decimal digits of `text`, if it fits.
fn parse_decimal(text: &String) -> (r: Option<i64>)
    ensures
        r == parse_number(text@),
{
    let s = text.as_str();
    let len = s.unicode_len();
    if len == 0 {
        return None;
    }
    let mut value: i64 = 0;
    let mut i: usize = 0;
    while i < len
        invariant
            len == text@.len(),
            s@ == text@,
            i <= len,
            forall|j: int| 0 <= j < i ==> is_digit(#[trigger] text@[j]),
            value == decimal_value(text@.subrange(0, i as int)),
        decreases len - i,
    {
        let c = s.get_char(i);
        assert(text@.subrange(0, i + 1).drop_last() =~= text@.subrange(0, i as int));
        if !('0' <= c && c <= '9') {
            return None;
        }
        let digit = (c as u32 - '0' as u32) as i64;
        let next = match value.checked_mul(10) {
            Some(v) => v.checked_add(digit),
            None => None,
        };
        match next {
            Some(v) => {
                value = v;
            },
            None => {
                proof {
                    assert(decimal_value(text@.subrange(0, i + 1)) == value * 10 + digit);
                    if forall|j: int| 0 <= j < text@.len() ==> is_digit(#[trigger] text@[j]) {
                        lemma_decimal_prefix(text@, i + 1);
                    }
                }
                return None;
            },
        }
        i = i + 1;
    }
    assert(text@.subrange(0, len as int) =~= text@);
    Some(value)
}

proof fn lemma_index_of_unique(vars: VarTable, name: Seq<char>, k: int)
    requires
        unique_names(vars),
        0 <= k < vars.len(),
        vars[k].0 == name,
    ensures
        has_var(vars, name),
        var_index(vars, name) == k,
{
    let j = var_index(vars, name);
    assert(0 <= j < vars.len() && vars[j].0 == name);
    if j < k {
        assert(vars[j].0 != vars[k].0);
    } else if k < j {
        assert(vars[k].0 != vars[j].0);
    }
}

/// Evaluates postfix token sequences against an operand stack, a variable
/// table and a history of pushed values.
pub struct Executor {
    number_stack: Vec<i64>,
    vars: Vec<(String, i64)>,
    token_history: Vec<i64>,
}

impl Executor {
    /// The evaluation state held.
    pub closed spec fn state(&self) -> EvalState {
        EvalState {
            stack: self.number_stack@,
            vars: vars_model(self.vars@),
            history: self.token_history@,
        }
    }

    pub closed spec fn wf(&self) -> bool {
        unique_names(vars_model(self.vars@))
    }

    pub fn new() -> (r: Self)
        ensures
            r.wf(),
            r.state() == empty_state(),
    {
        let r = Executor { number_stack: Vec::new(), vars: Vec::new(), token_history: Vec::new() };
        assert(r.state().vars =~= seq![]);
        r
    }

    /// The variable table, in the order the names were first assigned.
    pub fn vars(&self) -> (r: &Vec<(String, i64)>)
        ensures
            vars_model(r@) == self.state().vars,
    {
        &self.vars
    }

    /// The values pushed in the current statement, in push order.
    pub fn token_history(&self) -> (r: &Vec<i64>)
        ensures
            r@ == self.state().history,
    {
        &self.token_history
    }

    /// Evaluates the postfix sequence `tokens` and returns the result of its
    /// last statement.
    pub fn execute(&mut self, tokens: Vec<Token>) -> (r: Result<i64, Error>)
        requires
            old(self).wf(),
        ensures
            final(self).wf(),
            r matches Ok(v) ==> eval_from(tokens_model(tokens@), 0, old(self).state()) == Ok::<
                (i64, EvalState),
                ErrorType,
            >((v, final(self).state())),
            r matches Err(e) ==> eval_from(tokens_model(tokens@), 0, old(self).state()) == Err::<
                (i64, EvalState),
                ErrorType,
            >(e.error_type),
    {
        let ghost ts = tokens_model(tokens@);
        let len = tokens.len();
        let mut i: usize = 0;
        while i < len
            invariant
                ts == tokens_model(tokens@),
                len == ts.len(),
                i <= len,
                self.wf(),
                eval_from(ts, 0, old(self).state()) == eval_from(ts, i as int, self.state()),
            decreases len - i,
        {
            let token = &tokens[i];
            if i == len - 1 {
                if let TokenType::EndOfExpression = token.token_type {
                    if self.number_stack.len() == 1 {
                        return Ok(self.number_stack[0]);
                    } else {
                        return Err(Error::new(ErrorType::SyntaxError));
                    }
                }
            }
            let next_is_binary = i + 1 < len && match tokens[i + 1].token_type {
                TokenType::Operator(op) => !op.unary,
                _ => false,
            };
            match self.step(token, next_is_binary) {
                Ok(()) => {},
                Err(e) => {
                    return Err(e);
                },
            }
            i = i + 1;
        }
        if self.number_stack.len() > 1 {
            return Err(Error::new(ErrorType::SyntaxError));
        }
        if self.number_stack.len() == 1 {
            Ok(self.number_stack[0])
        } else {
            Ok(0)
        }
    }

    /// Pushes a value on the operand stack and records it.
    fn push_value(&mut self, v: i64)
        ensures
            final(self).state() == push_value(old(self).state(), v),
            final(self).vars == old(self).vars,
    {
        self.number_stack.push(v);
        self.token_history.push(v);
    }

    /// Removes the top `n` operands and returns them, deepest first.
    fn take_operands(&mut self, n: usize) -> (r: Vec<i64>)
        requires
            n <= old(self).number_stack@.len(),
        ensures
            r@ == old(self).number_stack@.subrange(
                old(self).number_stack@.len() - n,
                old(self).number_stack@.len() as int,
            ),
            final(self).number_stack@ == old(self).number_stack@.subrange(
                0,
                old(self).number_stack@.len() - n,
            ),
            final(self).vars == old(self).vars,
            final(self).token_history == old(self).token_history,
    {
        let len = self.number_stack.len();
        let mut args: Vec<i64> = Vec::new();
        let mut k: usize = len - n;
        while k < len
            invariant
                self == old(self),
                len == self.number_stack@.len(),
                n <= len,
                len - n <= k <= len,
                args@ == self.number_stack@.subrange(len - n, k as int),
            decreases len - k,
        {
            args.push(self.number_stack[k]);
            k = k + 1;
            assert(args@ =~= self.number_stack@.subrange(len - n, k as int));
        }
        self.number_stack.truncate(len - n);
        args
    }

    /// The index of `name` in the variable table, if it is there.
    fn find_var(&self, name: &String) -> (r: Option<usize>)
        requires
            self.wf(),
        ensures
            r matches Some(k) ==> k < self.vars@.len() && has_var(self.state().vars, name@)
                && var_index(self.state().vars, name@) == k,
            r is None ==> !has_var(self.state().vars, name@),
    {
        let ghost vs = self.state().vars;
        let mut k: usize = 0;
        while k < self.vars.len()
            invariant
                vs == vars_model(self.vars@),
                unique_names(vs),
                k <= self.vars@.len(),
                forall|j: int| 0 <= j < k ==> vs[j].0 != name@,
            decreases self.vars@.len() - k,
        {
            if self.vars[k].0 == *name {
                proof {
                    lemma_index_of_unique(vs, name@, k as int);
                }
                return Some(k);
            }
            k = k + 1;
        }
        None
    }

    /// Handles one token that is not the final `;`.
    fn step(&mut self, token: &Token, next_is_binary: bool) -> (r: Result<(), Error>)
        requires
            old(self).wf(),
        ensures
            final(self).wf(),
            forall|ts: Seq<TokenModel>, i: int|
                #![trigger eval_step(ts, i, old(self).state())]
                0 <= i < ts.len() && ts[i] == token@ && next_is_binary == (i + 1 < ts.len()
                    && is_binary(ts[i + 1].0)) ==> {
                    &&& r matches Ok(_) ==> eval_step(ts, i, old(self).state()) == Ok::<
                        EvalState,
                        ErrorType,
                    >(final(self).state())
                    &&& r matches Err(e) ==> eval_step(ts, i, old(self).state()) == Err::<
                        EvalState,
                        ErrorType,
                    >(e.error_type)
                },
    {
        let n = self.number_stack.len();
        match token.token_type {
            TokenType::EndOfExpression => {
                if n > 1 {
                    return Err(Error::new(ErrorType::SyntaxError));
                }
                self.number_stack.clear();
                self.token_history.clear();
                assert(self.state().stack =~= seq![]);
                assert(self.state().history =~= seq![]);
                Ok(())
            },
            TokenType::Number => match parse_decimal(&token.value) {
                Some(v) => {
                    self.push_value(v);
                    Ok(())
                },
                None => Err(Error::new(ErrorType::SyntaxError)),
            },
            TokenType::Operator(op) => {
                let needed: usize = if op.unary {
                    1
                } else {
                    2
                };
                if n < needed {
                    return Err(Error::new(ErrorType::SyntaxError));
                }
                let args = self.take_operands(needed);
                let result = if op.unary {
                    op.execute(args[0], 0)
                } else {
                    op.execute(args[0], args[1])
                };
                match result {
                    Ok(v) => {
                        self.push_value(v);
                        Ok(())
                    },
                    Err(e) => Err(e),
                }
            },
            TokenType::Function(f) => {
                let needed = f.get_args_count();
                if n < needed {
                    return Err(Error::new(ErrorType::SyntaxError));
                }
                let args = self.take_operands(needed);
                match f.execute(args) {
                    Ok(v) => {
                        self.push_value(v);
                        Ok(())
                    },
                    Err(e) => Err(e),
                }
            },
            TokenType::Name => {
                if next_is_binary {
                    return Err(Error::new(ErrorType::SyntaxError));
                }
                if n > 0 {
                    let value = self.number_stack[n - 1];
                    let ghost vs = self.state().vars;
                    match self.find_var(&token.value) {
                        Some(k) => {
                            self.vars.set(k, (token.value.clone(), value));
                            assert(self.state().vars =~= vs.update(k as int, (token.value@, value)));
                            assert(unique_names(self.state().vars)) by {
                                let ws = self.state().vars;
                                assert forall|a: int, b: int| 0 <= a < b < ws.len() implies ws[a].0
                                    != ws[b].0 by {
                                    assert(ws[a].0 == vs[a].0 && ws[b].0 == vs[b].0);
                                }
                            }
                        },
                        None => {
                            self.vars.push((token.value.clone(), value));
                            assert(self.state().vars =~= vs.push((token.value@, value)));
                        },
                    }
                }
                Ok(())
            },
            TokenType::Variable => match self.find_var(&token.value) {
                Some(k) => {
                    let v = self.vars[k].1;
                    self.push_value(v);
                    Ok(())
                },
                None => Err(Error::new(ErrorType::UnboundVariable)),
            },
            TokenType::LeftParenthesis | TokenType::RightParenthesis | TokenType::Comma => Err(
                Error::new(ErrorType::SyntaxError),
            ),
        }
    }
}

} // verus!
