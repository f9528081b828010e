use vstd::prelude::*;

use crate::errors::{Error, ErrorType};
use crate::maths::{
    Math, abs, facto_result, fibo_result, fit_i64, gcd_result, max_result, min_result,
    prime_result, sqrt_result,
};

verus! {

/// The identity of an arithmetic operator.
#[derive(Debug, Clone, Copy, PartialEq, Eq, Structural)]
pub enum TokenOperatorValue {
    Plus,
    Minus,
    Multiply,
    Divide,
    Power,
    Modulo,
}

#[derive(Debug, Clone, Copy, PartialEq, Eq, Structural)]
pub enum Associativity {
    Left,
    Right,
}

/// An operator token's data: its identity, and whether it was read as a
/// prefix (unary) or an infix (binary) operator.
#[derive(Debug, Clone, Copy, PartialEq, Eq, Structural)]
pub struct TokenOperator {
    pub operator_value: TokenOperatorValue,
    pub unary: bool,
}

/// The built-in functions.
#[derive(Debug, Clone, Copy, PartialEq, Eq, Structural)]
pub enum DefinedFunction {
    Sqrt,
    Max,
    Min,
    Facto,
    Prime,
    Fibo,
    Gcd,
}

/// A function token's data: the built-in function it calls.
#[derive(Debug, Clone, Copy, PartialEq, Eq, Structural)]
pub struct TokenFunction {
    pub defined_function: DefinedFunction,
}

/// The kind of a token, with the data that operator and function tokens need.
#[derive(Debug, Clone, Copy, PartialEq, Eq, Structural)]
pub enum TokenType {
    LeftParenthesis,
    RightParenthesis,
    Operator(TokenOperator),
    /// A variable reference.
    Variable,
    /// An assignment target.
    Name,
    Number,
    Comma,
    /// The `;` that ends a statement.
    EndOfExpression,
    Function(TokenFunction),
}

/// A token: its kind and the text it was built from.
#[derive(Debug)]
pub struct Token {
    pub token_type: TokenType,
    pub value: String,
}

/// A token as a mathematical value: its kind and its text.
pub type TokenModel = (TokenType, Seq<char>);

impl View for Token {
    type V = TokenModel;

    open spec fn view(&self) -> TokenModel {
        (self.token_type, self.value@)
    }
}

pub open spec fn tokens_model(ts: Seq<Token>) -> Seq<TokenModel> {
    ts.map_values(|t: Token| t@)
}

pub open spec fn is_binary(t: TokenType) -> bool {
    t matches TokenType::Operator(op) && !op.unary
}

pub open spec fn is_unary(t: TokenType) -> bool {
    t matches TokenType::Operator(op) && op.unary
}

pub open spec fn operator_of(c: char) -> Option<TokenOperatorValue> {
    if c == '+' {
        Some(TokenOperatorValue::Plus)
    } else if c == '-' {
        Some(TokenOperatorValue::Minus)
    } else if c == '*' {
        Some(TokenOperatorValue::Multiply)
    } else if c == '/' {
        Some(TokenOperatorValue::Divide)
    } else if c == '^' {
        Some(TokenOperatorValue::Power)
    } else if c == '%' {
        Some(TokenOperatorValue::Modulo)
    } else {
        None
    }
}

pub open spec fn precedence(op: TokenOperator) -> i32 {
    match op.operator_value {
        TokenOperatorValue::Plus => 1,
        TokenOperatorValue::Minus => if op.unary {
            4
        } else {
            1
        },
        TokenOperatorValue::Multiply | TokenOperatorValue::Divide | TokenOperatorValue::Modulo => 2,
        TokenOperatorValue::Power => 3,
    }
}

pub open spec fn associativity(op: TokenOperator) -> Associativity {
    match op.operator_value {
        TokenOperatorValue::Power => Associativity::Right,
        TokenOperatorValue::Minus => if op.unary {
            Associativity::Right
        } else {
            Associativity::Left
        },
        _ => Associativity::Left,
    }
}

/// Integer power with a natural exponent.
pub open spec fn pow(b: int, e: nat) -> int
    decreases e,
{
    if e == 0 {
        1
    } else {
        b * pow(b, (e - 1) as nat)
    }
}

/// `x` brought into the range of `i64`.
pub open spec fn clamp_i64(x: int) -> i64 {
    if x > i64::MAX {
        i64::MAX
    } else if x < i64::MIN {
        i64::MIN
    } else {
        x as i64
    }
}

/// The power `l ^ r`, truncated toward zero and clamped to the range of
/// `i64`; a single zero operand is invalid, and `0 ^ 0` is one.
///
/// This is the exact integer power. A computation in double precision
/// followed by truncation gives the same value wherever the double result is
/// exact (magnitudes up to 2^53), and may differ by rounding above that;
/// floating point has no place in this verified library.
pub open spec fn power_result(l: i64, r: i64) -> Result<i64, ErrorType> {
    if l == 0 && r == 0 {
        Ok(1)
    } else if l == 0 || r == 0 {
        Err(ErrorType::InvalidOperation)
    } else if r > 0 {
        Ok(clamp_i64(pow(l as int, r as nat)))
    } else if l == 1 || l == -1 {
        Ok(pow(l as int, (-r) as nat) as i64)
    } else {
        Ok(0)
    }
}

/// Division truncated toward zero.
pub open spec fn trunc_div(a: int, b: int) -> int {
    if (a >= 0) == (b >= 0) {
        (abs(a) / abs(b)) as int
    } else {
        -((abs(a) / abs(b)) as int)
    }
}

/// The remainder of division truncated toward zero; it has the sign of `a`.
pub open spec fn trunc_rem(a: int, b: int) -> int {
    if a >= 0 {
        (abs(a) % abs(b)) as int
    } else {
        -((abs(a) % abs(b)) as int)
    }
}

/// The value of applying `op` to `left` and `right`; a unary operator is
/// applied to `left`, with `right` as zero for all but negation.
pub open spec fn operator_result(op: TokenOperator, left: i64, right: i64) -> Result<
    i64,
    ErrorType,
> {
    match op.operator_value {
        TokenOperatorValue::Plus => fit_i64(left + right),
        TokenOperatorValue::Minus => if op.unary {
            fit_i64(-left)
        } else {
            fit_i64(left - right)
        },
        TokenOperatorValue::Multiply => fit_i64(left * right),
        TokenOperatorValue::Divide => if right == 0 {
            Err(ErrorType::InvalidOperation)
        } else {
            fit_i64(trunc_div(left as int, right as int))
        },
        TokenOperatorValue::Modulo => if right == 0 {
            Err(ErrorType::InvalidOperation)
        } else {
            Ok(trunc_rem(left as int, right as int) as i64)
        },
        TokenOperatorValue::Power => power_result(left, right),
    }
}

pub open spec fn function_named(name: Seq<char>) -> Option<DefinedFunction> {
    if name == "sqrt"@ {
        Some(DefinedFunction::Sqrt)
    } else if name == "max"@ {
        Some(DefinedFunction::Max)
    } else if name == "min"@ {
        Some(DefinedFunction::Min)
    } else if name == "facto"@ {
        Some(DefinedFunction::Facto)
    } else if name == "isprime"@ {
        Some(DefinedFunction::Prime)
    } else if name == "fibo"@ {
        Some(DefinedFunction::Fibo)
    } else if name == "gcd"@ {
        Some(DefinedFunction::Gcd)
    } else {
        None
    }
}

pub open spec fn arity(f: DefinedFunction) -> nat {
    match f {
        DefinedFunction::Max | DefinedFunction::Min | DefinedFunction::Gcd => 2,
        _ => 1,
    }
}

pub open spec fn function_result(f: DefinedFunction, args: Seq<i64>) -> Result<i64, ErrorType> {
    match f {
        DefinedFunction::Sqrt => sqrt_result(args),
        DefinedFunction::Max => max_result(args),
        DefinedFunction::Min => min_result(args),
        DefinedFunction::Facto => facto_result(args),
        DefinedFunction::Prime => prime_result(args),
        DefinedFunction::Fibo => fibo_result(args),
        DefinedFunction::Gcd => gcd_result(args),
    }
}

/// `r` is the error-kind form of the result `e`.
pub open spec fn same_outcome(r: Result<i64, Error>, e: Result<i64, ErrorType>) -> bool {
    match r {
        Ok(v) => e == Ok::<i64, ErrorType>(v),
        Err(err) => e == Err::<i64, ErrorType>(err.error_type),
    }
}

proof fn lemma_pow_unit(n: nat)
    ensures
        pow(1, n) == 1,
        pow(-1, n) == if n % 2 == 0 {
            1int
        } else {
            -1int
        },
    decreases n,
{
    if n > 0 {
        lemma_pow_unit((n - 1) as nat);
    }
}

proof fn lemma_pow_sign(b: int, n: nat)
    ensures
        pow(b, n) == if b < 0 && n % 2 == 1 {
            -pow(abs(b) as int, n)
        } else {
            pow(abs(b) as int, n)
        },
    decreases n,
{
    if n > 0 {
        lemma_pow_sign(b, (n - 1) as nat);
        let p = pow(abs(b) as int, (n - 1) as nat);
        assert(b * (-p) == -(b * p)) by (nonlinear_arith);
        assert((-b) * p == -(b * p)) by (nonlinear_arith);
        assert((-b) * (-p) == b * p) by (nonlinear_arith);
    }
}

proof fn lemma_pow_grows(a: int, m: nat, n: nat)
    requires
        a >= 1,
        m <= n,
    ensures
        1 <= pow(a, m) <= pow(a, n),
    decreases n,
{
    if n > 0 {
        if m < n {
            lemma_pow_grows(a, m, (n - 1) as nat);
        } else {
            lemma_pow_grows(a, (n - 1) as nat, (n - 1) as nat);
        }
        let p = pow(a, (n - 1) as nat);
        assert(p <= a * p && 1 <= a * p) by (nonlinear_arith)
            requires
                a >= 1,
                p >= 1,
        ;
    }
}

impl TokenOperator {
    /// The operator written as the symbol `c`, if `c` is one.
    pub fn new(unary: bool, c: char) -> (r: Option<TokenOperator>)
        ensures
            r == (match operator_of(c) {
                Some(v) => Some(TokenOperator { operator_value: v, unary }),
                None => None::<TokenOperator>,
            }),
    {
        match TokenOperator::get_operator_value(c) {
            Some(operator_value) => Some(TokenOperator { operator_value, unary }),
            None => None,
        }
    }

    pub fn get_operator_value(c: char) -> (r: Option<TokenOperatorValue>)
        ensures
            r == operator_of(c),
    {
        if c == '+' {
            Some(TokenOperatorValue::Plus)
        } else if c == '-' {
            Some(TokenOperatorValue::Minus)
        } else if c == '*' {
            Some(TokenOperatorValue::Multiply)
        } else if c == '/' {
            Some(TokenOperatorValue::Divide)
        } else if c == '^' {
            Some(TokenOperatorValue::Power)
        } else if c == '%' {
            Some(TokenOperatorValue::Modulo)
        } else {
            None
        }
    }

    pub fn get_precedence(&self) -> (r: i32)
        ensures
            r == precedence(*self),
    {
        match self.operator_value {
            TokenOperatorValue::Plus => 1,
            TokenOperatorValue::Minus => if self.unary {
                4
            } else {
                1
            },
            TokenOperatorValue::Multiply => 2,
            TokenOperatorValue::Divide => 2,
            TokenOperatorValue::Power => 3,
            TokenOperatorValue::Modulo => 2,
        }
    }

    pub fn get_associativity(&self) -> (r: Associativity)
        ensures
            r == associativity(*self),
    {
        match self.operator_value {
            TokenOperatorValue::Power => Associativity::Right,
            TokenOperatorValue::Minus => if self.unary {
                Associativity::Right
            } else {
                Associativity::Left
            },
            _ => Associativity::Left,
        }
    }

    /// Applies the operator; overflow, division by zero and an invalid power
    /// are `InvalidOperation`.
    pub fn execute(&self, left: i64, right: i64) -> (r: Result<i64, Error>)
        ensures
            same_outcome(r, operator_result(*self, left, right)),
    {
        let invalid = Error::new(ErrorType::InvalidOperation);
        match self.operator_value {
            TokenOperatorValue::Plus => match left.checked_add(right) {
                Some(v) => Ok(v),
                None => Err(invalid),
            },
            TokenOperatorValue::Minus => {
                let v = if self.unary {
                    0i64.checked_sub(left)
                } else {
                    left.checked_sub(right)
                };
                match v {
                    Some(v) => Ok(v),
                    None => Err(invalid),
                }
            },
            TokenOperatorValue::Multiply => match left.checked_mul(right) {
                Some(v) => Ok(v),
                None => Err(invalid),
            },
            TokenOperatorValue::Divide => match left.checked_div(right) {
                Some(v) => Ok(v),
                None => Err(invalid),
            },
            TokenOperatorValue::Modulo => if right == -1 {
                Ok(0)
            } else {
                match left.checked_rem(right) {
                    Some(v) => Ok(v),
                    None => Err(invalid),
                }
            },
            TokenOperatorValue::Power => TokenOperator::power(left, right),
        }
    }

    fn power(left: i64, right: i64) -> (r: Result<i64, Error>)
        ensures
            same_outcome(r, power_result(left, right)),
    {
        if left == 0 && right == 0 {
            return Ok(1);
        }
        if left == 0 || right == 0 {
            return Err(Error::new(ErrorType::InvalidOperation));
        }
        if left == 1 || left == -1 {
            let odd = right % 2 != 0;
            proof {
                let n: nat = if right > 0 {
                    right as nat
                } else {
                    (-right) as nat
                };
                lemma_pow_unit(n);
                assert(odd == (n % 2 == 1));
            }
            return Ok(if left == 1 || !odd {
                1
            } else {
                -1
            });
        }
        if right < 0 {
            return Ok(0);
        }
        let mut acc: i64 = 1;
        let mut i: i64 = 0;
        while i < right
            invariant
                0 <= i <= right,
                left != 0 && left != 1 && left != -1,
                acc == pow(left as int, i as nat),
            decreases right - i,
        {
            match acc.checked_mul(left) {
                Some(v) => {
                    assert(pow(left as int, (i + 1) as nat) == left * acc);
                    assert(acc * left == left * acc) by (nonlinear_arith);
                    acc = v;
                    i = i + 1;
                },
                None => {
                    proof {
                        let a = abs(left as int) as int;
                        assert(pow(left as int, (i + 1) as nat) == left * acc);
                        assert(acc * left == left * acc) by (nonlinear_arith);
                        lemma_pow_sign(left as int, (i + 1) as nat);
                        lemma_pow_sign(left as int, right as nat);
                        lemma_pow_grows(a, (i + 1) as nat, right as nat);
                    }
                    return Ok(if left < 0 && right % 2 != 0 {
                        i64::MIN
                    } else {
                        i64::MAX
                    });
                },
            }
        }
        Ok(acc)
    }
}

impl DefinedFunction {
    pub fn get_args_count(&self) -> (r: usize)
        ensures
            r == arity(*self),
    {
        match self {
            DefinedFunction::Max | DefinedFunction::Min | DefinedFunction::Gcd => 2,
            _ => 1,
        }
    }

    /// The built-in function called `name`, if there is one.
    pub fn is_defined_function(name: &str) -> (r: Option<DefinedFunction>)
        ensures
            r == function_named(name@),
    {
        let name = String::from_str(name);
        if name == String::from_str("sqrt") {
            Some(DefinedFunction::Sqrt)
        } else if name == String::from_str("max") {
            Some(DefinedFunction::Max)
        } else if name == String::from_str("min") {
            Some(DefinedFunction::Min)
        } else if name == String::from_str("facto") {
            Some(DefinedFunction::Facto)
        } else if name == String::from_str("isprime") {
            Some(DefinedFunction::Prime)
        } else if name == String::from_str("fibo") {
            Some(DefinedFunction::Fibo)
        } else if name == String::from_str("gcd") {
            Some(DefinedFunction::Gcd)
        } else {
            None
        }
    }
}

impl TokenFunction {
    pub fn new(name: &str) -> (r: Option<TokenFunction>)
        ensures
            r == (match function_named(name@) {
                Some(f) => Some(TokenFunction { defined_function: f }),
                None => None::<TokenFunction>,
            }),
    {
        match DefinedFunction::is_defined_function(name) {
            Some(defined_function) => Some(TokenFunction { defined_function }),
            None => None,
        }
    }

    /// Calls the function on `args`, given in left-to-right order.
    pub fn execute(&self, args: Vec<i64>) -> (r: Result<i64, Error>)
        ensures
            same_outcome(r, function_result(self.defined_function, args@)),
    {
        match self.defined_function {
            DefinedFunction::Sqrt => Math::sqrt(args),
            DefinedFunction::Max => Math::max(args),
            DefinedFunction::Min => Math::min(args),
            DefinedFunction::Facto => Math::facto(args),
            DefinedFunction::Prime => Math::prime(args),
            DefinedFunction::Fibo => Math::fibo(args),
            DefinedFunction::Gcd => Math::gcd(args),
        }
    }

    pub fn get_args_count(&self) -> (r: usize)
        ensures
            r == arity(self.defined_function),
    {
        self.defined_function.get_args_count()
    }
}

impl Token {
    pub fn new(token_type: TokenType, value: String) -> (r: Token)
        ensures
            r.token_type == token_type,
            r.value@ == value@,
    {
        Token { token_type, value }
    }
}

} // verus!
