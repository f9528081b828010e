use calculator::errors::ErrorType;
use calculator::evaluate;
use calculator::executor::Executor;
use calculator::lexer::Lexer;
use calculator::shunting_yard::ShuntingYard;
use calculator::tokens::{Token, TokenOperator, TokenOperatorValue, TokenType};

fn value(input: &str) -> i64 {
    evaluate(input).expect("evaluation should succeed")
}

fn failure(input: &str) -> ErrorType {
    evaluate(input).expect_err("evaluation should fail").error_type
}

fn lex(input: &str) -> Vec<Token> {
    let mut lexer = Lexer::new(input);
    lexer.process().expect("tokenizing should succeed");
    lexer.into_tokens()
}

fn run(input: &str) -> (i64, Executor) {
    let mut yard = ShuntingYard::new();
    yard.process(lex(input)).expect("conversion should succeed");
    let mut executor = Executor::new();
    let result = executor.execute(yard.into_output()).expect("evaluation should succeed");
    (result, executor)
}

fn binary(op: TokenOperatorValue) -> TokenType {
    TokenType::Operator(TokenOperator { operator_value: op, unary: false })
}

fn unary(op: TokenOperatorValue) -> TokenType {
    TokenType::Operator(TokenOperator { operator_value: op, unary: true })
}

#[test]
fn parenthesization_keeps_precedence_result() {
    assert_eq!(value("2+3*4"), 14);
    assert_eq!(value("2+(3*4)"), 14);
    assert_eq!(value("2*3+4"), 10);
    assert_eq!(value("(2*3)+4"), 10);
    assert_eq!(value("2^3^2"), 512);
    assert_eq!(value("2^(3^2)"), 512);
    assert_eq!(value("10-4-3"), 3);
    assert_eq!(value("(10-4)-3"), 3);
}

#[test]
fn default_example_is_syntax_error() {
    let mut lexer = Lexer::new("7=;9+8");
    let err = lexer.process().expect_err("tokenizing should fail");
    assert_eq!(err.error_type, ErrorType::SyntaxError);
    assert_eq!(failure("7=;9+8"), ErrorType::SyntaxError);
}

#[test]
fn assignment_then_reference() {
    let (result, executor) = run("a=5;a+3");
    assert_eq!(result, 8);
    let vars = executor.vars();
    assert_eq!(vars.len(), 1);
    assert_eq!(vars[0].0, "a");
    assert_eq!(vars[0].1, 5);
}

#[test]
fn juxtaposed_parenthesis_multiplies() {
    assert_eq!(value("2(3)"), 6);
    assert_eq!(value("(2)(3)"), 6);
    assert_eq!(value("a=4;a(2)"), 8);
}

#[test]
fn builtin_function_values() {
    assert_eq!(value("sqrt(16)"), 4);
    assert_eq!(value("facto(0)"), 1);
    assert_eq!(value("gcd(24,36)"), 12);
}

#[test]
fn unary_minus_binds_before_power() {
    assert_eq!(value("-3^2"), 9);
}

#[test]
fn unassigned_variable_is_unbound() {
    assert_eq!(failure("b+1"), ErrorType::UnboundVariable);
}

#[test]
fn leftover_operands_are_syntax_error() {
    assert_eq!(failure("1 2"), ErrorType::SyntaxError);
    assert_eq!(failure("1 2;"), ErrorType::SyntaxError);
    assert_eq!(failure("1 2;3"), ErrorType::SyntaxError);
}

#[test]
fn history_follows_pushes_of_last_statement() {
    let (result, executor) = run("1+2*3");
    assert_eq!(result, 7);
    assert_eq!(executor.token_history(), &vec![1, 2, 3, 6, 7]);
    let (result, executor) = run("1+1;2*3");
    assert_eq!(result, 6);
    assert_eq!(executor.token_history(), &vec![2, 3, 6]);
}

#[test]
fn variables_survive_statement_ends() {
    let (result, executor) = run("a=1;b=2;a+b");
    assert_eq!(result, 3);
    assert_eq!(executor.token_history(), &vec![1, 2, 3]);
    let vars = executor.vars();
    assert_eq!(vars.len(), 2);
    assert_eq!((vars[0].0.as_str(), vars[0].1), ("a", 1));
    assert_eq!((vars[1].0.as_str(), vars[1].1), ("b", 2));
}

#[test]
fn reassignment_overwrites_entry() {
    let (result, executor) = run("x=3;x=x+1;x");
    assert_eq!(result, 4);
    let vars = executor.vars();
    assert_eq!(vars.len(), 1);
    assert_eq!((vars[0].0.as_str(), vars[0].1), ("x", 4));
}

#[test]
fn tokens_of_number_then_name() {
    let tokens = lex("2a");
    let kinds: Vec<TokenType> = tokens.iter().map(|t| t.token_type).collect();
    assert_eq!(
        kinds,
        vec![TokenType::Number, binary(TokenOperatorValue::Multiply), TokenType::Variable]
    );
    assert_eq!(tokens[0].value, "2");
    assert_eq!(tokens[1].value, "*");
    assert_eq!(tokens[2].value, "a");
}

#[test]
fn tokens_of_assignment_and_functions() {
    let tokens = lex("x = max(1, -2);");
    let kinds: Vec<TokenType> = tokens.iter().map(|t| t.token_type).collect();
    assert_eq!(kinds[0], TokenType::Name);
    assert!(matches!(kinds[1], TokenType::Function(_)));
    assert_eq!(kinds[2], TokenType::LeftParenthesis);
    assert_eq!(kinds[3], TokenType::Number);
    assert_eq!(kinds[4], TokenType::Comma);
    assert_eq!(kinds[5], unary(TokenOperatorValue::Minus));
    assert_eq!(kinds[6], TokenType::Number);
    assert_eq!(kinds[7], TokenType::RightParenthesis);
    assert_eq!(kinds[8], TokenType::EndOfExpression);
    assert_eq!(tokens.len(), 9);
    assert_eq!(tokens[1].value, "max");
}

#[test]
fn postfix_order_of_mixed_expression() {
    let mut yard = ShuntingYard::new();
    yard.process(lex("1+2*3")).unwrap();
    let texts: Vec<String> = yard.into_output().iter().map(|t| t.value.clone()).collect();
    assert_eq!(texts, vec!["1", "2", "3", "*", "+"]);
}

#[test]
fn postfix_of_function_call() {
    let mut yard = ShuntingYard::new();
    yard.process(lex("max(1,2)+3")).unwrap();
    let texts: Vec<String> = yard.into_output().iter().map(|t| t.value.clone()).collect();
    assert_eq!(texts, vec!["1", "2", "max", "3", "+"]);
}

#[test]
fn unbalanced_parentheses_are_syntax_errors() {
    assert_eq!(failure("(1"), ErrorType::SyntaxError);
    assert_eq!(failure("1)"), ErrorType::SyntaxError);
    assert_eq!(failure("(1;2"), ErrorType::SyntaxError);
}

#[test]
fn misplaced_comma_is_syntax_error() {
    assert_eq!(failure(",1"), ErrorType::SyntaxError);
    assert_eq!(failure("max(,1)"), ErrorType::SyntaxError);
}

#[test]
fn bad_assignment_target_is_syntax_error() {
    assert_eq!(failure("3=4"), ErrorType::SyntaxError);
    assert_eq!(failure("=4"), ErrorType::SyntaxError);
}

#[test]
fn unknown_character_is_unexpected_token() {
    assert_eq!(failure("1$2"), ErrorType::UnexpectedToken);
    assert_eq!(failure("é"), ErrorType::UnexpectedToken);
}

#[test]
fn bad_numbers_are_syntax_errors() {
    assert_eq!(failure("1.5"), ErrorType::SyntaxError);
    assert_eq!(failure("1.2.3"), ErrorType::SyntaxError);
    assert_eq!(failure("9223372036854775808"), ErrorType::SyntaxError);
    assert_eq!(value("9223372036854775807"), i64::MAX);
}

#[test]
fn empty_input_is_zero() {
    assert_eq!(value(""), 0);
    assert_eq!(value("  \t\n"), 0);
    assert_eq!(failure(";"), ErrorType::SyntaxError);
}

#[test]
fn final_semicolon_returns_last_value() {
    assert_eq!(value("5;"), 5);
    assert_eq!(value("1;2;3"), 3);
    assert_eq!(value("1;2*3;5"), 5);
}

#[test]
fn division_and_remainder_truncate() {
    assert_eq!(value("7/2"), 3);
    assert_eq!(value("-7/2"), -3);
    assert_eq!(value("-7%3"), -1);
    assert_eq!(value("7%-3"), 1);
    assert_eq!(failure("10/0"), ErrorType::InvalidOperation);
    assert_eq!(failure("7%0"), ErrorType::InvalidOperation);
}

#[test]
fn overflow_is_invalid_operation() {
    assert_eq!(failure("9223372036854775807+1"), ErrorType::InvalidOperation);
    assert_eq!(failure("0-9223372036854775807-2"), ErrorType::InvalidOperation);
    assert_eq!(failure("4294967296*4294967296"), ErrorType::InvalidOperation);
}

#[test]
fn power_rules() {
    assert_eq!(value("0^0"), 1);
    assert_eq!(failure("0^2"), ErrorType::InvalidOperation);
    assert_eq!(failure("2^0"), ErrorType::InvalidOperation);
    assert_eq!(value("2^10"), 1024);
    assert_eq!(value("2^-1"), 0);
    assert_eq!(value("-1^-3"), -1);
    assert_eq!(value("-1^4"), 1);
    assert_eq!(value("2^63"), i64::MAX);
    assert_eq!(value("(0-2)^63"), i64::MIN);
    assert_eq!(value("(0-2)^64"), i64::MAX);
}

#[test]
fn repeated_unary_operators() {
    assert_eq!(value("--3"), 3);
    assert_eq!(value("2*-3"), -6);
    assert_eq!(value("+4"), 4);
}

#[test]
fn builtin_functions_in_expressions() {
    assert_eq!(value("max(3,7)"), 7);
    assert_eq!(value("min(3,7)"), 3);
    assert_eq!(value("isprime(7)"), 1);
    assert_eq!(value("isprime(8)"), 0);
    assert_eq!(value("isprime(0)"), 1);
    assert_eq!(value("isprime(1)"), 1);
    assert_eq!(value("fibo(0)"), 1);
    assert_eq!(value("fibo(1)"), 1);
    assert_eq!(value("fibo(10)"), 55);
    assert_eq!(value("facto(5)"), 120);
    assert_eq!(value("gcd(0-24,36)"), 12);
    assert_eq!(value("sqrt(15)"), 3);
    assert_eq!(failure("facto(21)"), ErrorType::InvalidOperation);
    assert_eq!(failure("facto(-1)"), ErrorType::InvalidOperation);
    assert_eq!(failure("2sqrt(9)"), ErrorType::SyntaxError);
}

#[test]
fn name_before_binary_operator_is_syntax_error() {
    let plus = Token::new(binary(TokenOperatorValue::Plus), "+".to_string());
    let tokens = vec![
        Token::new(TokenType::Number, "3".to_string()),
        Token::new(TokenType::Name, "a".to_string()),
        plus,
    ];
    let mut executor = Executor::new();
    let err = executor.execute(tokens).expect_err("evaluation should fail");
    assert_eq!(err.error_type, ErrorType::SyntaxError);
}

#[test]
fn missing_operands_are_syntax_errors() {
    let mut executor = Executor::new();
    let tokens = vec![Token::new(binary(TokenOperatorValue::Plus), "+".to_string())];
    assert_eq!(executor.execute(tokens).unwrap_err().error_type, ErrorType::SyntaxError);
    assert_eq!(failure("-"), ErrorType::SyntaxError);
}

#[test]
fn assignments_update_table_in_order() {
    let (result, executor) = run("a=1;b=2;a=3");
    assert_eq!(result, 3);
    let vars = executor.vars();
    assert_eq!(vars.len(), 2);
    assert_eq!((vars[0].0.as_str(), vars[0].1), ("a", 3));
    assert_eq!((vars[1].0.as_str(), vars[1].1), ("b", 2));
}

#[test]
fn history_restarts_after_assignment_statement() {
    let (result, executor) = run("a=5;a+3");
    assert_eq!(result, 8);
    assert_eq!(executor.token_history(), &vec![5, 3, 8]);
}
