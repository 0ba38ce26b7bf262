use basic_interpreter::ast::Ast;
use basic_interpreter::number::{Number, RealTerm};

fn fold(term: &RealTerm) -> f32 {
    match term {
        RealTerm::Literal(text) => text.parse::<f32>().unwrap(),
        RealTerm::FromInt(value) => *value as f32,
        RealTerm::Neg(a) => -fold(a),
        RealTerm::Add(a, b) => fold(a) + fold(b),
        RealTerm::Sub(a, b) => fold(a) - fold(b),
        RealTerm::Mul(a, b) => fold(a) * fold(b),
        RealTerm::Div(a, b) => fold(a) / fold(b),
    }
}

fn real_value(number: Number) -> f32 {
    match number {
        Number::Real(term) => fold(&term),
        other => panic!("not a real: {:?}", other),
    }
}

#[test]
fn ast_add_two_single_digit_numbers() {
    let ast = Ast::new("4 + 7");
    let result = ast.evaluate();

    assert_eq!(result, Ok(Number::Int(11)));
}

#[test]
fn subtract_two_single_digit_numbers() {
    let ast = Ast::new("4 - 7");
    let result = ast.evaluate();

    assert_eq!(result, Ok(Number::Int(-3)));
}

#[test]
fn ast_multiply_two_single_digit_numbers() {
    let ast = Ast::new("4 * 7");
    let result = ast.evaluate();

    assert_eq!(result, Ok(Number::Int(28)));
}

#[test]
fn divide_two_single_digit_numbers() {
    let ast = Ast::new("10 / 3");
    let result = ast.evaluate();

    let quotient = real_value(result.unwrap());
    assert_eq!(quotient, 10.0 / 3.0);
    assert!((quotient - 3.3333334).abs() < 0.000001);
}

#[test]
fn add_multiple_digit_numbers() {
    let ast = Ast::new("101 + 99");
    let result = ast.evaluate();

    assert_eq!(result, Ok(Number::Int(200)));
}

#[test]
fn subtract_multiple_digit_numbers() {
    let ast = Ast::new("1234 - 134");
    let result = ast.evaluate();

    assert_eq!(result, Ok(Number::Int(1100)));
}

#[test]
fn add_multiple_numbers() {
    let ast = Ast::new("1 + 2 + 3 + 4 + 5");
    let result = ast.evaluate();

    assert_eq!(result, Ok(Number::Int(15)));
}

#[test]
fn add_and_subtract_multiple_numbers() {
    let ast = Ast::new("1 + 2 - 3 + 4 - 5");
    let result = ast.evaluate();

    assert_eq!(result, Ok(Number::Int(-1)));
}

#[test]
fn muliply_and_divide_multiple_numbers() {
    let ast = Ast::new("10 * 20 / 2 / 10");
    let result = ast.evaluate();

    assert_eq!(real_value(result.unwrap()), 10.0);
}

#[test]
fn evaluate_multiterm_expression_contain_parens() {
    let ast = Ast::new("6 * (3 + 7) / 2");
    let result = ast.evaluate();

    assert_eq!(real_value(result.unwrap()), 30.0);
}

#[test]
fn integer_division_of_the_same_numbers() {
    assert_eq!(Ast::new("10 * 20 DIV 2 DIV 10").evaluate(), Ok(Number::Int(10)));
    assert_eq!(Ast::new("6 * (3 + 7) DIV 2").evaluate(), Ok(Number::Int(30)));
}
