use basic_interpreter::ast::Ast;
use basic_interpreter::error::{InterpretError, ParseError, RuntimeError, SemanticError};
use basic_interpreter::evaluator::Evaluator;
use basic_interpreter::interpreter::Interpreter;
use basic_interpreter::lexer::LexError;
use basic_interpreter::node::{
    AssignNode, BinOpNode, IntegerNumNode, NoOpNode, Node, RealNumNode, UnaryOpNode, VarNode,
};
use basic_interpreter::number::{Number, RealTerm};
use basic_interpreter::parser::Parser;
use basic_interpreter::printer::{render_tokens, to_string, tokens_of};
use basic_interpreter::token::Token;
use std::rc::Rc;

fn number(value: i32) -> Box<Node> {
    Box::new(Node::Integer(IntegerNumNode::new(value)))
}

fn decimal(text: &str) -> Box<Node> {
    Box::new(Node::Real(RealNumNode::new(text.to_string())))
}

fn variable(name: &str) -> Box<Node> {
    Box::new(Node::Var(VarNode::new(Token::Id(name.to_string()))))
}

fn binary(left: Box<Node>, operator: Token, right: Box<Node>) -> Box<Node> {
    Box::new(Node::BinOp(BinOpNode::new(left, right, operator)))
}

fn unary(operator: Token, operand: Box<Node>) -> Box<Node> {
    Box::new(Node::UnaryOp(UnaryOpNode::new(operator, operand)))
}

fn parsed(text: &str) -> Node {
    Parser::new(text).expression().unwrap()
}

fn sample_trees() -> Vec<Box<Node>> {
    vec![
        number(0),
        number(2147483647),
        decimal("3.25"),
        variable("x1"),
        unary(Token::Minus, unary(Token::Minus, number(5))),
        binary(number(6), Token::Multiply, binary(number(3), Token::Plus, number(7))),
        binary(
            binary(number(10), Token::Minus, number(4)),
            Token::Minus,
            number(3),
        ),
        binary(
            number(10),
            Token::Minus,
            binary(number(4), Token::Minus, number(3)),
        ),
        binary(
            unary(Token::Plus, variable("a")),
            Token::IntegerDivision,
            binary(decimal("0.5"), Token::RealDivision, variable("Divisor")),
        ),
    ]
}

#[test]
fn text_of_expressions() {
    assert_eq!(to_string(&number(42)), "42");
    assert_eq!(to_string(&number(0)), "0");
    assert_eq!(to_string(&number(-7)), "- 7");
    assert_eq!(to_string(&number(-2147483648)), "- 2147483648");
    assert_eq!(to_string(&decimal("1.50")), "1.50");
    assert_eq!(to_string(&variable("x")), "x");
    assert_eq!(to_string(&unary(Token::Minus, unary(Token::Minus, number(5)))), "- - 5");
    assert_eq!(
        to_string(&binary(number(6), Token::Multiply, binary(number(3), Token::Plus, number(7)))),
        "( 6 * ( 3 + 7 ) )"
    );
    assert_eq!(
        to_string(&binary(variable("a"), Token::IntegerDivision, variable("b"))),
        "( a DIV b )"
    );
}

#[test]
fn text_of_a_tree_that_is_no_expression() {
    assert_eq!(to_string(&Node::NoOp(NoOpNode {})), "");
    let assign = Node::Assign(AssignNode::new(
        VarNode::new(Token::Id("a".to_string())),
        number(1),
        Token::Assign,
    ));
    assert_eq!(to_string(&assign), "");
}

#[test]
fn tokens_of_an_expression() {
    assert_eq!(
        tokens_of(&binary(number(1), Token::Plus, variable("x"))),
        vec![
            Token::LParen,
            Token::IntegerConst("1".to_string()),
            Token::Plus,
            Token::Id("x".to_string()),
            Token::RParen
        ]
    );
    assert_eq!(render_tokens(&vec![]), "");
    assert_eq!(render_tokens(&vec![Token::Begin]), "BEGIN");
    assert_eq!(render_tokens(&vec![Token::Begin, Token::End, Token::Period]), "BEGIN END .");
}

#[test]
fn printed_expression_parses_to_itself() {
    for tree in sample_trees() {
        let text = to_string(&tree);
        assert_eq!(parsed(&text), *tree, "{}", text);
    }
}

#[test]
fn parsed_expression_prints_to_a_text_that_parses_to_it() {
    for text in ["1 + 2 * 3", "(1 + 2) * 3", "- - 5", "a DIV b - 1", "10 / 3", "2.5 * -x"] {
        let tree = parsed(text);
        assert_eq!(parsed(&to_string(&tree)), tree, "{}", text);
    }
}

#[test]
fn printed_expression_has_the_same_value() {
    assert_eq!(Ast::new("- ( 8 DIV 3 ) * 4").evaluate(), Ok(Number::Int(-8)));
    let tree = parsed("- ( 8 DIV 3 ) * 4");
    assert_eq!(Ast::new(&to_string(&tree)).evaluate(), Ok(Number::Int(-8)));
}

#[test]
fn messages_of_errors() {
    assert_eq!(LexError::UnknownCharacter('?').to_string(), "Unknown token found: ?");
    assert_eq!(LexError::UnterminatedComment.to_string(), "Comment without a closing brace");
    assert_eq!(
        ParseError { expected: Token::Semi, found: Token::Id("a".to_string()) }.to_string(),
        "Unexpected token error: expected ;, received a"
    );
    assert_eq!(
        SemanticError::DuplicateDeclaration("a".to_string()).to_string(),
        "Found duplicate variable declaration for 'a'!"
    );
    assert_eq!(
        SemanticError::UndeclaredVariable("a".to_string()).to_string(),
        "Undeclared variable a found."
    );
    assert_eq!(
        SemanticError::UnknownType("BOOLEAN".to_string()).to_string(),
        "Invalid builtin type BOOLEAN"
    );
    assert_eq!(
        RuntimeError::UninitializedVariable("a".to_string()).to_string(),
        "Possible use of uninitialised variable a."
    );
    assert_eq!(
        RuntimeError::TypeMismatch.to_string(),
        "Invalid operation on operands of different types"
    );
    assert_eq!(RuntimeError::DivisionByZero.to_string(), "Division by zero");
    assert_eq!(
        RuntimeError::UnknownOperator(Token::Comma).to_string(),
        "Unknown operator found: ,"
    );
    assert_eq!(
        InterpretError::Lex(LexError::UnknownCharacter('=')).to_string(),
        "Unknown token found: ="
    );
    assert_eq!(
        InterpretError::Runtime(RuntimeError::DivisionByZero).to_string(),
        "Division by zero"
    );
    assert_eq!(
        InterpretError::Semantic(SemanticError::UndeclaredVariable("x".to_string())).to_string(),
        "Undeclared variable x found."
    );
    assert_eq!(
        InterpretError::Parse(ParseError { expected: Token::Period, found: Token::EOF })
            .to_string(),
        "Unexpected token error: expected ., received EOF"
    );
    assert_eq!(
        InterpretError::Runtime(RuntimeError::TypeMismatch).clone(),
        InterpretError::Runtime(RuntimeError::TypeMismatch)
    );
}

#[test]
fn real_variable_is_read_as_the_term_it_was_given() {
    let mut interpreter = Interpreter::new(
        "PROGRAM p; VAR a, b: REAL; BEGIN a := 1.5; b := a + a; a := b * a END.",
    );
    assert_eq!(interpreter.interpret(), Ok(Number::Nil));
    let literal = || Rc::new(RealTerm::Literal("1.5".to_string()));
    let sum = || Rc::new(RealTerm::Add(literal(), literal()));
    assert_eq!(interpreter.lookup("b"), Some(Number::Real(sum())));
    assert_eq!(
        interpreter.lookup("a"),
        Some(Number::Real(Rc::new(RealTerm::Mul(sum(), literal()))))
    );
}

#[test]
fn copy_of_a_real_is_the_same_term() {
    let mut evaluator = Evaluator::new();
    let assign = Node::Assign(AssignNode::new(
        VarNode::new(Token::Id("r".to_string())),
        binary(decimal("2.0"), Token::Minus, decimal("0.5")),
        Token::Assign,
    ));
    assert_eq!(evaluator.visit(&assign), Ok(Number::Nil));
    let term = Number::Real(Rc::new(RealTerm::Sub(
        Rc::new(RealTerm::Literal("2.0".to_string())),
        Rc::new(RealTerm::Literal("0.5".to_string())),
    )));
    assert_eq!(evaluator.lookup("r"), Some(term.clone()));
    assert_eq!(term.clone(), term);
    match (evaluator.lookup("r"), evaluator.lookup("r")) {
        (Some(Number::Real(first)), Some(Number::Real(second))) => {
            assert!(Rc::ptr_eq(&first, &second))
        }
        _ => panic!("not a real"),
    }
}
