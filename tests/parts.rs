use calculator::errors::{Error, ErrorType};
use calculator::maths::Math;
use calculator::tokens::{
    Associativity, DefinedFunction, TokenFunction, TokenOperator, TokenOperatorValue,
};

fn op(operator_value: TokenOperatorValue, unary: bool) -> TokenOperator {
    TokenOperator { operator_value, unary }
}

#[test]
fn operator_symbols() {
    assert_eq!(TokenOperator::get_operator_value('+'), Some(TokenOperatorValue::Plus));
    assert_eq!(TokenOperator::get_operator_value('%'), Some(TokenOperatorValue::Modulo));
    assert_eq!(TokenOperator::get_operator_value('='), None);
    assert_eq!(TokenOperator::new(true, '-'), Some(op(TokenOperatorValue::Minus, true)));
}

#[test]
fn operator_precedence_and_associativity() {
    assert_eq!(op(TokenOperatorValue::Minus, true).get_precedence(), 4);
    assert_eq!(op(TokenOperatorValue::Minus, false).get_precedence(), 1);
    assert_eq!(op(TokenOperatorValue::Power, false).get_precedence(), 3);
    assert_eq!(op(TokenOperatorValue::Modulo, false).get_precedence(), 2);
    assert_eq!(op(TokenOperatorValue::Minus, true).get_associativity(), Associativity::Right);
    assert_eq!(op(TokenOperatorValue::Power, false).get_associativity(), Associativity::Right);
    assert_eq!(op(TokenOperatorValue::Divide, false).get_associativity(), Associativity::Left);
}

#[test]
fn operator_execution() {
    assert_eq!(op(TokenOperatorValue::Minus, true).execute(5, 0).unwrap(), -5);
    assert_eq!(op(TokenOperatorValue::Minus, false).execute(5, 7).unwrap(), -2);
    assert_eq!(op(TokenOperatorValue::Multiply, true).execute(5, 0).unwrap(), 0);
    assert_eq!(op(TokenOperatorValue::Power, false).execute(3, 4).unwrap(), 81);
    assert_eq!(op(TokenOperatorValue::Modulo, false).execute(i64::MIN, -1).unwrap(), 0);
    assert_eq!(op(TokenOperatorValue::Modulo, false).execute(-7, -1).unwrap(), 0);
    assert_eq!(
        op(TokenOperatorValue::Divide, false).execute(i64::MIN, -1).unwrap_err().error_type,
        ErrorType::InvalidOperation
    );
}

#[test]
fn function_names_and_arities() {
    assert!(matches!(DefinedFunction::is_defined_function("isprime"), Some(DefinedFunction::Prime)));
    assert!(DefinedFunction::is_defined_function("prime").is_none());
    assert_eq!(DefinedFunction::Gcd.get_args_count(), 2);
    assert_eq!(DefinedFunction::Fibo.get_args_count(), 1);
    let f = TokenFunction::new("min").unwrap();
    assert_eq!(f.get_args_count(), 2);
    assert_eq!(f.execute(vec![4, -9]).unwrap(), -9);
}

#[test]
fn math_arity_is_checked() {
    assert_eq!(Math::sqrt(vec![1, 2]).unwrap_err().error_type, ErrorType::InvalidOperation);
    assert_eq!(Math::max(vec![1]).unwrap_err().error_type, ErrorType::InvalidOperation);
    assert_eq!(Math::gcd(vec![]).unwrap_err().error_type, ErrorType::InvalidOperation);
}

#[test]
fn math_values() {
    assert_eq!(Math::sqrt(vec![0]).unwrap(), 0);
    assert_eq!(Math::sqrt(vec![i64::MAX]).unwrap(), 3037000499);
    assert_eq!(Math::sqrt(vec![-4]).unwrap(), 0);
    assert_eq!(Math::facto(vec![20]).unwrap(), 2432902008176640000);
    assert_eq!(Math::fibo(vec![92]).unwrap(), 7540113804746346429);
    assert_eq!(Math::fibo(vec![93]).unwrap_err().error_type, ErrorType::InvalidOperation);
    assert_eq!(Math::fibo(vec![-1]).unwrap_err().error_type, ErrorType::InvalidOperation);
    assert_eq!(Math::prime(vec![2]).unwrap(), 1);
    assert_eq!(Math::prime(vec![97]).unwrap(), 1);
    assert_eq!(Math::prime(vec![91]).unwrap(), 0);
    assert_eq!(Math::gcd(vec![0, 0]).unwrap(), 0);
    assert_eq!(Math::gcd(vec![i64::MIN, -1]).unwrap(), 1);
    assert_eq!(Math::gcd(vec![i64::MIN, 0]).unwrap_err().error_type, ErrorType::InvalidOperation);
    assert_eq!(Math::max(vec![-3, -8]).unwrap(), -3);
    assert_eq!(Math::min(vec![-3, -8]).unwrap(), -8);
}

#[test]
fn error_messages_and_codes() {
    let e = Error::new(ErrorType::SyntaxError);
    assert_eq!(e.message(), "Syntax error.");
    assert_eq!(e.exit_code(), 2);
    assert_eq!(Error::new(ErrorType::UnexpectedToken).exit_code(), 2);
    assert_eq!(Error::new(ErrorType::InvalidOperation).message(), "Invalid operation.");
    assert_eq!(Error::new(ErrorType::UnboundVariable).exit_code(), 3);
}
