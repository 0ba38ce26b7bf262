use basic_interpreter::ast::Ast;
use basic_interpreter::error::{InterpretError, ParseError, RuntimeError, SemanticError};
use basic_interpreter::interpreter::{interpret, Interpreter};
use basic_interpreter::lexer::LexError;
use basic_interpreter::number::{Number, RealTerm};
use basic_interpreter::token::Token;
use std::rc::Rc;

fn fold(term: &RealTerm) -> f32 {
    match term {
        RealTerm::Literal(text) => text.parse::<f32>().unwrap(),
        RealTerm::FromInt(value) => *value as f32,
        RealTerm::Neg(a) => -fold(a),
        RealTerm::Add(a, b) => fold(a) + fold(b),
        RealTerm::Sub(a, b) => fold(a) - fold(b),
        RealTerm::Mul(a, b) => fold(a) * fold(b),
        RealTerm::Div(a, b) => fold(a) / fold(b),
    }
}

fn real_value(number: Number) -> f32 {
    match number {
        Number::Real(term) => fold(&term),
        other => panic!("not a real: {:?}", other),
    }
}

fn value_of(expression: &str) -> Number {
    Ast::new(expression).evaluate().unwrap()
}

fn parse_error(expected: Token, found: Token) -> InterpretError {
    InterpretError::Parse(ParseError { expected, found })
}

#[test]
fn empty_program_is_nil() {
    assert_eq!(interpret("PROGRAM p; BEGIN END."), Ok(Number::Nil));
}

#[test]
fn integer_and_real_division() {
    assert_eq!(value_of("10 DIV 3"), Number::Int(3));
    let quotient = real_value(value_of("10 / 3"));
    assert_eq!(quotient, 10.0 / 3.0);
    assert!((quotient - 3.3333334).abs() < 0.000001);
    assert_eq!(real_value(value_of("6 * (3 + 7) / 2")), 30.0);
}

#[test]
fn real_division_is_kept_as_its_term() {
    assert_eq!(
        value_of("10 / 3"),
        Number::Real(Rc::new(RealTerm::Div(
            Rc::new(RealTerm::FromInt(10)),
            Rc::new(RealTerm::FromInt(3))
        )))
    );
    assert_eq!(
        value_of("1.5 * 2.0"),
        Number::Real(Rc::new(RealTerm::Mul(
            Rc::new(RealTerm::Literal("1.5".to_string())),
            Rc::new(RealTerm::Literal("2.0".to_string()))
        )))
    );
    assert_eq!(
        value_of("1 / 2.0"),
        Number::Real(Rc::new(RealTerm::Div(
            Rc::new(RealTerm::FromInt(1)),
            Rc::new(RealTerm::Literal("2.0".to_string()))
        )))
    );
}

#[test]
fn double_negation() {
    assert_eq!(value_of("- - 5"), Number::Int(5));
    assert_eq!(value_of("-5"), Number::Int(-5));
    assert_eq!(value_of("+5"), Number::Int(5));
    assert_eq!(value_of("- + - 5"), Number::Int(5));
    assert_eq!(real_value(value_of("-2.5")), -2.5);
}

#[test]
fn assignment_to_undeclared_variable() {
    assert_eq!(
        interpret("PROGRAM p; BEGIN x := 1 END."),
        Err(InterpretError::Semantic(SemanticError::UndeclaredVariable("x".to_string())))
    );
}

#[test]
fn use_of_undeclared_variable() {
    assert_eq!(
        interpret("PROGRAM p; VAR a: INTEGER; BEGIN a := b END."),
        Err(InterpretError::Semantic(SemanticError::UndeclaredVariable("b".to_string())))
    );
}

#[test]
fn duplicate_declaration() {
    assert_eq!(
        interpret("PROGRAM p; VAR a: INTEGER; a: REAL; BEGIN END."),
        Err(InterpretError::Semantic(SemanticError::DuplicateDeclaration("a".to_string())))
    );
    assert_eq!(
        interpret("PROGRAM p; VAR a, a: INTEGER; BEGIN END."),
        Err(InterpretError::Semantic(SemanticError::DuplicateDeclaration("a".to_string())))
    );
}

#[test]
fn duplicate_parameter() {
    assert_eq!(
        interpret("PROGRAM p; PROCEDURE q(a: INTEGER; a: REAL); BEGIN END; BEGIN END."),
        Err(InterpretError::Semantic(SemanticError::DuplicateDeclaration("a".to_string())))
    );
    assert_eq!(
        interpret("PROGRAM p; PROCEDURE q(a: INTEGER); VAR a: REAL; BEGIN END; BEGIN END."),
        Err(InterpretError::Semantic(SemanticError::DuplicateDeclaration("a".to_string())))
    );
}

#[test]
fn procedure_scope_is_closed_after_it() {
    assert_eq!(
        interpret("PROGRAM p; PROCEDURE q(a: INTEGER); BEGIN a := 1 END; BEGIN a := 1 END."),
        Err(InterpretError::Semantic(SemanticError::UndeclaredVariable("a".to_string())))
    );
    assert_eq!(
        interpret(
            "PROGRAM p; VAR g: INTEGER; PROCEDURE q; VAR g: REAL; BEGIN g := 1.0 END; \
             BEGIN g := 1 END."
        ),
        Ok(Number::Nil)
    );
}

#[test]
fn procedure_sees_the_enclosing_scopes() {
    assert_eq!(
        interpret(
            "PROGRAM p; VAR g: INTEGER; PROCEDURE q; PROCEDURE r; BEGIN g := 1 END; BEGIN END; \
             BEGIN END."
        ),
        Ok(Number::Nil)
    );
}

#[test]
fn procedures_are_not_run() {
    let mut interpreter = Interpreter::new(
        "PROGRAM p; VAR g: INTEGER; PROCEDURE q; BEGIN g := 1 DIV 0 END; BEGIN END.",
    );
    assert_eq!(interpreter.interpret(), Ok(Number::Nil));
    assert_eq!(interpreter.lookup("g"), None);
}

#[test]
fn mixed_addition_is_a_type_mismatch() {
    assert_eq!(
        interpret("PROGRAM p; VAR a: INTEGER; b: REAL; BEGIN a:=1; b:=2.0; a := a + b END."),
        Err(InterpretError::Runtime(RuntimeError::TypeMismatch))
    );
    assert_eq!(
        Ast::new("1 - 2.0").evaluate(),
        Err(InterpretError::Runtime(RuntimeError::TypeMismatch))
    );
    assert_eq!(
        Ast::new("2.0 * 1").evaluate(),
        Err(InterpretError::Runtime(RuntimeError::TypeMismatch))
    );
    assert_eq!(
        Ast::new("2.0 DIV 1.0").evaluate(),
        Err(InterpretError::Runtime(RuntimeError::TypeMismatch))
    );
}

#[test]
fn final_environment_of_a_program() {
    let mut interpreter = Interpreter::new(
        "PROGRAM m; VAR a,b,result: INTEGER; BEGIN a:=10*4; b:=-19+1; result:=a DIV b -1 END.",
    );
    assert_eq!(interpreter.interpret(), Ok(Number::Nil));
    assert_eq!(interpreter.lookup("a"), Some(Number::Int(40)));
    assert_eq!(interpreter.lookup("b"), Some(Number::Int(-18)));
    assert_eq!(interpreter.lookup("result"), Some(Number::Int(-3)));
    assert_eq!(interpreter.lookup("m"), None);
}

#[test]
fn second_run_gives_the_same_result() {
    let mut interpreter = Interpreter::new("PROGRAM p; BEGIN END.");
    let first = interpreter.interpret();
    let second = interpreter.interpret();
    assert_eq!(first, Ok(Number::Nil));
    assert_eq!(first, second);

    let ast = Ast::new("2 * (3 + 4) / 7");
    assert_eq!(ast.evaluate(), ast.evaluate());

    let text = "PROGRAM p; VAR a: INTEGER; BEGIN a := a END.";
    assert_eq!(interpret(text), interpret(text));
}

#[test]
fn second_run_starts_with_no_variable_set() {
    let mut interpreter = Interpreter::new("PROGRAM p; VAR a: INTEGER; BEGIN a := 1 END.");
    assert_eq!(interpreter.lookup("a"), None);
    assert_eq!(interpreter.interpret(), Ok(Number::Nil));
    assert_eq!(interpreter.lookup("a"), Some(Number::Int(1)));
    assert_eq!(interpreter.interpret(), Ok(Number::Nil));
    assert_eq!(interpreter.lookup("a"), Some(Number::Int(1)));
}

#[test]
fn well_formed_programs_are_ok() {
    for text in [
        "PROGRAM p; BEGIN END.",
        "program p; var a: integer; begin a := 1; a := a + 1 end.",
        "PROGRAM p; VAR x, y: REAL; BEGIN x := 1.5; y := x * x / 2 END.",
        "PROGRAM p; VAR a: INTEGER; BEGIN BEGIN a := 1 END; BEGIN END; END.",
        "PROGRAM p; VAR a: INTEGER; BEGIN a := 2147483647; a := a + 1 END.",
    ] {
        assert_eq!(interpret(text), Ok(Number::Nil));
    }
}

#[test]
fn declared_but_unassigned_variable_is_uninitialized() {
    assert_eq!(
        interpret("PROGRAM p; VAR a: INTEGER; BEGIN a := a END."),
        Err(InterpretError::Runtime(RuntimeError::UninitializedVariable("a".to_string())))
    );
    assert_eq!(
        Ast::new("x + 1").evaluate(),
        Err(InterpretError::Runtime(RuntimeError::UninitializedVariable("x".to_string())))
    );
}

#[test]
fn integer_division_by_zero() {
    assert_eq!(
        Ast::new("1 DIV 0").evaluate(),
        Err(InterpretError::Runtime(RuntimeError::DivisionByZero))
    );
    assert_eq!(
        interpret("PROGRAM p; VAR a: INTEGER; BEGIN a := 0; a := 7 DIV a END."),
        Err(InterpretError::Runtime(RuntimeError::DivisionByZero))
    );
}

#[test]
fn real_division_by_zero_is_not_an_error() {
    assert_eq!(real_value(value_of("1 / 0")), f32::INFINITY);
}

#[test]
fn integer_division_rounds_toward_zero() {
    assert_eq!(value_of("7 DIV 2"), Number::Int(3));
    assert_eq!(value_of("-7 DIV 2"), Number::Int(-3));
    assert_eq!(value_of("7 DIV -2"), Number::Int(-3));
    assert_eq!(value_of("-7 DIV -2"), Number::Int(3));
    assert_eq!(value_of("0 DIV 5"), Number::Int(0));
    assert_eq!(value_of("40 DIV -18"), Number::Int(-2));
}

#[test]
fn integer_arithmetic_wraps() {
    assert_eq!(value_of("2147483647 + 1"), Number::Int(-2147483648));
    assert_eq!(value_of("-2147483647 - 2"), Number::Int(2147483647));
    assert_eq!(value_of("65536 * 65536"), Number::Int(0));
    assert_eq!(value_of("(-2147483647 - 1) DIV -1"), Number::Int(-2147483648));
    assert_eq!(value_of("-(-2147483647 - 1)"), Number::Int(-2147483648));
}

#[test]
fn operators_associate_to_the_left() {
    assert_eq!(value_of("10 - 4 - 3"), Number::Int(3));
    assert_eq!(value_of("100 DIV 10 DIV 5"), Number::Int(2));
    assert_eq!(value_of("2 + 3 * 4"), Number::Int(14));
    assert_eq!(value_of("(2 + 3) * 4"), Number::Int(20));
    assert_eq!(value_of("2 * -3"), Number::Int(-6));
}

#[test]
fn integer_literal_out_of_range() {
    assert_eq!(
        Ast::new("2147483648").evaluate(),
        Err(parse_error(
            Token::IntegerConst(String::new()),
            Token::IntegerConst("2147483648".to_string())
        ))
    );
    assert_eq!(value_of("2147483647"), Number::Int(2147483647));
    assert_eq!(value_of("007"), Number::Int(7));
}

#[test]
fn lexical_error_is_reported_by_its_stage() {
    assert_eq!(
        interpret("PROGRAM p; BEGIN a = 1 END."),
        Err(InterpretError::Lex(LexError::UnknownCharacter('=')))
    );
    assert_eq!(interpret("?"), Err(InterpretError::Lex(LexError::UnknownCharacter('?'))));
    assert_eq!(
        interpret("PROGRAM p; { BEGIN END."),
        Err(InterpretError::Lex(LexError::UnterminatedComment))
    );
}

#[test]
fn syntax_error_before_a_lexical_error_comes_first() {
    assert_eq!(
        interpret("PROGRAM ; ?"),
        Err(parse_error(Token::Id(String::new()), Token::Semi))
    );
}

#[test]
fn missing_final_period() {
    assert_eq!(
        interpret("PROGRAM empty; BEGIN END"),
        Err(parse_error(Token::Period, Token::EOF))
    );
}

#[test]
fn trailing_tokens_after_the_program() {
    assert_eq!(
        interpret("PROGRAM p; BEGIN END. BEGIN"),
        Err(parse_error(Token::EOF, Token::Begin))
    );
    assert_eq!(Ast::new("1 2").evaluate(), Err(parse_error(
        Token::EOF,
        Token::IntegerConst("2".to_string())
    )));
}

#[test]
fn missing_semicolon_between_statements() {
    assert_eq!(
        interpret("PROGRAM p; VAR a, b: INTEGER; BEGIN a := 1; b := 2 a := 3 END."),
        Err(parse_error(Token::Semi, Token::Id("a".to_string())))
    );
    assert_eq!(
        interpret("PROGRAM p; VAR a: INTEGER; BEGIN BEGIN END a := 3 END."),
        Err(parse_error(Token::Semi, Token::Id("a".to_string())))
    );
}

#[test]
fn extra_semicolon_is_an_empty_statement() {
    assert_eq!(
        interpret("PROGRAM p; VAR a: INTEGER; BEGIN ; a := 1; ; END."),
        Ok(Number::Nil)
    );
}

#[test]
fn var_needs_a_declaration() {
    assert_eq!(
        interpret("PROGRAM p; VAR BEGIN END."),
        Err(parse_error(Token::Id(String::new()), Token::Begin))
    );
    assert_eq!(
        interpret("PROGRAM p; VAR a: INTEGER BEGIN END."),
        Err(parse_error(Token::Semi, Token::Begin))
    );
    assert_eq!(
        interpret("PROGRAM p; VAR a: BOOLEAN; BEGIN END."),
        Err(parse_error(Token::Integer, Token::Id("BOOLEAN".to_string())))
    );
}

#[test]
fn unbalanced_parenthesis() {
    assert_eq!(Ast::new("(1 + 2").evaluate(), Err(parse_error(Token::RParen, Token::EOF)));
    assert_eq!(
        Ast::new("1 + )").evaluate(),
        Err(parse_error(Token::Id(String::new()), Token::RParen))
    );
}
