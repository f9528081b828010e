use vstd::prelude::*;
use vstd::string::*;

use crate::errors::{Error, ErrorType};
use crate::tokens::{
    Token, TokenFunction, TokenModel, TokenOperator, TokenOperatorValue,
    TokenType, function_named, operator_of, tokens_model,
};

verus! {

pub open spec fn is_digit(c: char) -> bool {
    '0' <= c <= '9'
}

/// A character that may appear in a variable or function name.
pub open spec fn is_name_char(c: char) -> bool {
    is_digit(c) || ('a' <= c <= 'z') || ('A' <= c <= 'Z') || c == '_'
}

/// The end of the run of digits and points that starts at `i`, or a syntax
/// error if the run holds a second point; `seen_point` tells whether one
/// was met before `i`.
pub open spec fn number_end(s: Seq<char>, i: int, seen_point: bool) -> Result<int, ErrorType>
    decreases s.len() - i,
{
    if 0 <= i < s.len() && (is_digit(s[i]) || s[i] == '.') {
        if s[i] == '.' && seen_point {
            Err(ErrorType::SyntaxError)
        } else {
            number_end(s, i + 1, seen_point || s[i] == '.')
        }
    } else {
        Ok(i)
    }
}

/// The end of the run of name characters that starts at `i`.
pub open spec fn name_end(s: Seq<char>, i: int) -> int
    decreases s.len() - i,
{
    if 0 <= i < s.len() && is_name_char(s[i]) {
        name_end(s, i + 1)
    } else {
        i
    }
}

/// The multiplication inserted where two operands stand side by side.
pub open spec fn implicit_multiply() -> TokenModel {
    (
        TokenType::Operator(
            TokenOperator { operator_value: TokenOperatorValue::Multiply, unary: false },
        ),
        "*"@,
    )
}

/// An operator symbol read after `ts` is a prefix (unary) operator.
pub open spec fn reads_as_unary(ts: Seq<TokenModel>) -> bool {
    ts.len() == 0 || match ts.last().0 {
        TokenType::Operator(_) | TokenType::EndOfExpression | TokenType::LeftParenthesis
        | TokenType::Comma | TokenType::Name => true,
        _ => false,
    }
}

/// A `(` read after `ts` multiplies what precedes it.
pub open spec fn multiplies_parenthesis(ts: Seq<TokenModel>) -> bool {
    ts.len() > 0 && match ts.last().0 {
        TokenType::Variable | TokenType::Number | TokenType::RightParenthesis => true,
        _ => false,
    }
}

/// A `,` may follow `ts`.
pub open spec fn comma_allowed(ts: Seq<TokenModel>) -> bool {
    ts.len() > 0 && match ts.last().0 {
        TokenType::Number | TokenType::RightParenthesis | TokenType::Variable => true,
        _ => false,
    }
}

/// One step of the scanner at position `pos` of `s`, after the tokens `ts`:
/// the tokens after the step and the position where scanning goes on.
pub open spec fn scan_step(s: Seq<char>, pos: int, ts: Seq<TokenModel>) -> Result<
    (Seq<TokenModel>, int),
    ErrorType,
> {
    let c = s[pos];
    if is_digit(c) {
        match number_end(s, pos, false) {
            Ok(end) => Ok((ts.push((TokenType::Number, s.subrange(pos, end))), end)),
            Err(e) => Err(e),
        }
    } else if operator_of(c) is Some {
        let op = TokenOperator { operator_value: operator_of(c)->0, unary: reads_as_unary(ts) };
        Ok((ts.push((TokenType::Operator(op), seq![c])), pos + 1))
    } else if c == '(' {
        let before = if multiplies_parenthesis(ts) {
            ts.push(implicit_multiply())
        } else {
            ts
        };
        Ok((before.push((TokenType::LeftParenthesis, seq![c])), pos + 1))
    } else if c == ')' {
        Ok((ts.push((TokenType::RightParenthesis, seq![c])), pos + 1))
    } else if c == ',' {
        if comma_allowed(ts) {
            Ok((ts.push((TokenType::Comma, seq![c])), pos + 1))
        } else {
            Err(ErrorType::SyntaxError)
        }
    } else if c == ' ' || c == '\t' || c == '\n' {
        Ok((ts, pos + 1))
    } else if c == ';' {
        Ok((ts.push((TokenType::EndOfExpression, seq![c])), pos + 1))
    } else if c == '=' {
        if ts.len() > 0 && ts.last().0 == TokenType::Variable {
            Ok((ts.update(ts.len() - 1, (TokenType::Name, ts.last().1)), pos + 1))
        } else {
            Err(ErrorType::SyntaxError)
        }
    } else if is_name_char(c) {
        let end = name_end(s, pos);
        let name = s.subrange(pos, end);
        match function_named(name) {
            Some(f) => Ok(
                (ts.push((TokenType::Function(TokenFunction { defined_function: f }), name)), end),
            ),
            None => {
                let before = if ts.len() > 0 && ts.last().0 == TokenType::Number {
                    ts.push(implicit_multiply())
                } else {
                    ts
                };
                Ok((before.push((TokenType::Variable, name)), end))
            },
        }
    } else {
        Err(ErrorType::UnexpectedToken)
    }
}

/// The tokens of `s` from position `pos` on, after the tokens `ts`.
pub open spec fn scan(s: Seq<char>, pos: int, ts: Seq<TokenModel>) -> Result<
    Seq<TokenModel>,
    ErrorType,
>
    decreases s.len() - pos,
{
    if pos < 0 || pos >= s.len() {
        Ok(ts)
    } else {
        match scan_step(s, pos, ts) {
            Err(e) => Err(e),
            Ok((next, p)) => if pos < p <= s.len() {
                scan(s, p, next)
            } else {
                Ok(next)
            },
        }
    }
}

/// The token sequence of the text `s`.
pub open spec fn tokenize(s: Seq<char>) -> Result<Seq<TokenModel>, ErrorType> {
    scan(s, 0, seq![])
}

/// Turns a text into tokens, one scanning step at a time.
pub struct Lexer {
    input: String,
    chars: Vec<char>,
    position: usize,
    tokens: Vec<Token>,
}

impl Lexer {
    /// The text being scanned.
    pub closed spec fn source(&self) -> Seq<char> {
        self.chars@
    }

    /// The position of the next character to scan.
    pub closed spec fn pos(&self) -> int {
        self.position as int
    }

    /// The tokens scanned so far.
    pub closed spec fn token_models(&self) -> Seq<TokenModel> {
        tokens_model(self.tokens@)
    }

    pub closed spec fn wf(&self) -> bool {
        &&& self.input@ == self.chars@
        &&& self.position <= self.chars@.len()
        &&& self.chars@.len() <= usize::MAX
    }

    pub fn new(input: &str) -> (r: Lexer)
        ensures
            r.wf(),
            r.source() == input@,
            r.pos() == 0,
            r.token_models() == Seq::<TokenModel>::empty(),
    {
        let len = input.unicode_len();
        let mut chars: Vec<char> = Vec::new();
        let mut i: usize = 0;
        while i < len
            invariant
                len == input@.len(),
                i <= len,
                chars@ == input@.subrange(0, i as int),
            decreases len - i,
        {
            chars.push(input.get_char(i));
            i = i + 1;
            assert(chars@ =~= input@.subrange(0, i as int));
        }
        assert(chars@ =~= input@);
        let r = Lexer { input: String::from_str(input), chars, position: 0, tokens: Vec::new() };
        assert(r.token_models() =~= Seq::<TokenModel>::empty());
        r
    }

    /// Scans the rest of the text.
    pub fn process(&mut self) -> (r: Result<(), Error>)
        requires
            old(self).wf(),
        ensures
            final(self).wf(),
            final(self).source() == old(self).source(),
            r matches Ok(_) ==> scan(old(self).source(), old(self).pos(), old(self).token_models())
                == Ok::<Seq<TokenModel>, ErrorType>(final(self).token_models()),
            r matches Err(e) ==> scan(old(self).source(), old(self).pos(), old(self).token_models())
                == Err::<Seq<TokenModel>, ErrorType>(e.error_type),
    {
        while self.position < self.chars.len()
            invariant
                self.wf(),
                self.source() == old(self).source(),
                scan(old(self).source(), old(self).pos(), tokens_model(old(self).tokens@))
                    == scan(self.source(), self.pos(), tokens_model(self.tokens@)),
            decreases self.chars@.len() - self.position,
        {
            match self.make_token() {
                Ok(()) => {},
                Err(e) => {
                    return Err(e);
                },
            }
        }
        Ok(())
    }

    /// Hands out the tokens scanned so far.
    pub fn into_tokens(self) -> (r: Vec<Token>)
        ensures
            tokens_model(r@) == self.token_models(),
    {
        self.tokens
    }

    fn advance(&mut self)
        requires
            old(self).wf(),
            old(self).position < old(self).chars@.len(),
        ensures
            final(self).wf(),
            final(self).input == old(self).input,
            final(self).chars == old(self).chars,
            final(self).tokens == old(self).tokens,
            final(self).position == old(self).position + 1,
    {
        self.position = self.position + 1;
    }

    fn push_token(&mut self, token_type: TokenType, value: String)
        ensures
            final(self).input == old(self).input,
            final(self).chars == old(self).chars,
            final(self).position == old(self).position,
            tokens_model(final(self).tokens@) == tokens_model(old(self).tokens@).push(
                (token_type, value@),
            ),
    {
        self.tokens.push(Token::new(token_type, value));
        assert(tokens_model(self.tokens@) =~= tokens_model(old(self).tokens@).push(
            (token_type, value@),
        ));
    }

    /// The text of the characters in `[from, to)`.
    fn text(&self, from: usize, to: usize) -> (r: String)
        requires
            self.wf(),
            from <= to <= self.chars@.len(),
        ensures
            r@ == self.chars@.subrange(from as int, to as int),
    {
        String::from_str(self.input.as_str().substring_char(from, to))
    }

    /// The kind of the last token, if there is one.
    fn last_type(&self) -> (r: Option<TokenType>)
        ensures
            r == (if self.tokens@.len() == 0 {
                None::<TokenType>
            } else {
                Some(tokens_model(self.tokens@).last().0)
            }),
    {
        if self.tokens.len() == 0 {
            None
        } else {
            Some(self.tokens[self.tokens.len() - 1].token_type)
        }
    }

    /// Scans one token, or skips one blank, at the current position.
    fn make_token(&mut self) -> (r: Result<(), Error>)
        requires
            old(self).wf(),
            old(self).position < old(self).chars@.len(),
        ensures
            final(self).wf(),
            final(self).source() == old(self).source(),
            r matches Ok(_) ==> final(self).pos() > old(self).pos() && scan_step(
                old(self).source(),
                old(self).pos(),
                tokens_model(old(self).tokens@),
            ) == Ok::<(Seq<TokenModel>, int), ErrorType>(
                (tokens_model(final(self).tokens@), final(self).pos()),
            ),
            r matches Err(e) ==> scan_step(
                old(self).source(),
                old(self).pos(),
                tokens_model(old(self).tokens@),
            ) == Err::<(Seq<TokenModel>, int), ErrorType>(e.error_type),
    {
        let c = self.chars[self.position];
        let last = self.last_type();
        if '0' <= c && c <= '9' {
            return self.make_numer_token();
        } else if TokenOperator::get_operator_value(c).is_some() {
            self.make_token_operator();
        } else if c == '(' {
            let multiplies = match last {
                Some(TokenType::Variable) | Some(TokenType::Number) | Some(
                    TokenType::RightParenthesis,
                ) => true,
                _ => false,
            };
            if multiplies {
                self.push_token(
                    TokenType::Operator(
                        TokenOperator { operator_value: TokenOperatorValue::Multiply, unary: false },
                    ),
                    String::from_str("*"),
                );
            }
            let text = self.text(self.position, self.position + 1);
            self.push_token(TokenType::LeftParenthesis, text);
        } else if c == ')' {
            let text = self.text(self.position, self.position + 1);
            self.push_token(TokenType::RightParenthesis, text);
        } else if c == ',' {
            let allowed = match last {
                Some(TokenType::Number) | Some(TokenType::RightParenthesis) | Some(
                    TokenType::Variable,
                ) => true,
                _ => false,
            };
            if !allowed {
                return Err(Error::new(ErrorType::SyntaxError));
            }
            let text = self.text(self.position, self.position + 1);
            self.push_token(TokenType::Comma, text);
        } else if c == ' ' || c == '\t' || c == '\n' {
        } else if c == ';' {
            let text = self.text(self.position, self.position + 1);
            self.push_token(TokenType::EndOfExpression, text);
        } else if c == '=' {
            let is_variable = match last {
                Some(TokenType::Variable) => true,
                _ => false,
            };
            if !is_variable {
                return Err(Error::new(ErrorType::SyntaxError));
            }
            let target = self.tokens.pop().unwrap();
            self.tokens.push(Token::new(TokenType::Name, target.value));
            assert(tokens_model(self.tokens@) =~= tokens_model(old(self).tokens@).update(
                old(self).tokens@.len() - 1,
                (TokenType::Name, tokens_model(old(self).tokens@).last().1),
            ));
        } else if ('a' <= c && c <= 'z') || ('A' <= c && c <= 'Z') || c == '_' {
            self.make_name_token();
            return Ok(());
        } else {
            return Err(Error::new(ErrorType::UnexpectedToken));
        }
        assert(self.chars@.subrange(self.position as int, self.position + 1) =~= seq![c]);
        self.advance();
        Ok(())
    }

    /// Scans a number: a run of digits with at most one point.
    fn make_numer_token(&mut self) -> (r: Result<(), Error>)
        requires
            old(self).wf(),
            old(self).position < old(self).chars@.len(),
            is_digit(old(self).chars@[old(self).pos()]),
        ensures
            final(self).wf(),
            final(self).source() == old(self).source(),
            r matches Ok(_) ==> final(self).pos() > old(self).pos() && scan_step(
                old(self).source(),
                old(self).pos(),
                tokens_model(old(self).tokens@),
            ) == Ok::<(Seq<TokenModel>, int), ErrorType>(
                (tokens_model(final(self).tokens@), final(self).pos()),
            ),
            r matches Err(e) ==> scan_step(
                old(self).source(),
                old(self).pos(),
                tokens_model(old(self).tokens@),
            ) == Err::<(Seq<TokenModel>, int), ErrorType>(e.error_type),
    {
        let start = self.position;
        let mut end = start;
        let mut seen_point = false;
        while end < self.chars.len() && (('0' <= self.chars[end] && self.chars[end] <= '9')
            || self.chars[end] == '.')
            invariant
                self == old(self),
                self.wf(),
                start == self.position,
                start < self.chars@.len(),
                is_digit(self.chars@[start as int]),
                start <= end <= self.chars@.len(),
                number_end(self.chars@, start as int, false) == number_end(
                    self.chars@,
                    end as int,
                    seen_point,
                ),
            decreases self.chars@.len() - end,
        {
            if self.chars[end] == '.' {
                if seen_point {
                    assert(number_end(self.chars@, end as int, seen_point) == Err::<int, ErrorType>(
                        ErrorType::SyntaxError,
                    ));
                    return Err(Error::new(ErrorType::SyntaxError));
                }
                seen_point = true;
            }
            end = end + 1;
        }
        let text = self.text(start, end);
        self.push_token(TokenType::Number, text);
        self.position = end;
        Ok(())
    }

    /// Scans a name: a built-in function, or a variable, multiplied by a
    /// number just before it.
    fn make_name_token(&mut self)
        requires
            old(self).wf(),
            old(self).position < old(self).chars@.len(),
            is_name_char(old(self).chars@[old(self).pos()]),
            !is_digit(old(self).chars@[old(self).pos()]),
            operator_of(old(self).chars@[old(self).pos()]) is None,
        ensures
            final(self).wf(),
            final(self).source() == old(self).source(),
            final(self).pos() > old(self).pos(),
            scan_step(old(self).source(), old(self).pos(), tokens_model(old(self).tokens@))
                == Ok::<(Seq<TokenModel>, int), ErrorType>(
                (tokens_model(final(self).tokens@), final(self).pos()),
            ),
    {
        let start = self.position;
        let mut end = start;
        while end < self.chars.len() && is_name_character(self.chars[end])
            invariant
                self == old(self),
                self.wf(),
                start == self.position,
                start <= end <= self.chars@.len(),
                name_end(self.chars@, start as int) == name_end(self.chars@, end as int),
            decreases self.chars@.len() - end,
        {
            end = end + 1;
        }
        let name = self.text(start, end);
        match TokenFunction::new(name.as_str()) {
            Some(function) => {
                self.push_token(TokenType::Function(function), name);
            },
            None => {
                let after_number = match self.last_type() {
                    Some(TokenType::Number) => true,
                    _ => false,
                };
                if after_number {
                    self.push_token(
                        TokenType::Operator(
                            TokenOperator {
                                operator_value: TokenOperatorValue::Multiply,
                                unary: false,
                            },
                        ),
                        String::from_str("*"),
                    );
                }
                self.push_token(TokenType::Variable, name);
            },
        }
        self.position = end;
    }

    /// Scans an operator symbol, unary or binary by the token before it.
    fn make_token_operator(&mut self)
        requires
            old(self).wf(),
            old(self).position < old(self).chars@.len(),
            operator_of(old(self).chars@[old(self).pos()]) is Some,
        ensures
            final(self).wf(),
            final(self).chars == old(self).chars,
            final(self).input == old(self).input,
            final(self).position == old(self).position,
            tokens_model(final(self).tokens@) == tokens_model(old(self).tokens@).push(
                (
                    TokenType::Operator(
                        TokenOperator {
                            operator_value: operator_of(old(self).chars@[old(self).pos()])->0,
                            unary: reads_as_unary(tokens_model(old(self).tokens@)),
                        },
                    ),
                    seq![old(self).chars@[old(self).pos()]],
                ),
            ),
    {
        let unary = match self.last_type() {
            Some(TokenType::Operator(_)) | Some(TokenType::EndOfExpression) | Some(
                TokenType::LeftParenthesis,
            ) | Some(TokenType::Comma) | Some(TokenType::Name) | None => true,
            _ => false,
        };
        let c = self.chars[self.position];
        let op = TokenOperator::new(unary, c).unwrap();
        let text = self.text(self.position, self.position + 1);
        assert(text@ =~= seq![c]);
        self.push_token(TokenType::Operator(op), text);
    }
}

fn is_name_character(c: char) -> (r: bool)
    ensures
        r == is_name_char(c),
{
    ('0' <= c && c <= '9') || ('a' <= c && c <= 'z') || ('A' <= c && c <= 'Z') || c == '_'
}

} // verus!
