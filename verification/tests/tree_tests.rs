use basic_interpreter::error::{RuntimeError, SemanticError};
use basic_interpreter::evaluator::Evaluator;
use basic_interpreter::node::{
    AssignNode, BinOpNode, BlockNode, CompoundNode, DeclarationNode, IntegerNumNode, NoOpNode,
    Node, ParameterNode, ProcedureNode, ProgramNode, RealNumNode, TypeNode, UnaryOpNode, VarNode,
};
use basic_interpreter::number::Number;
use basic_interpreter::parser::Parser;
use basic_interpreter::table_builder::TableBuilder;
use basic_interpreter::text::parse_integer;
use basic_interpreter::token::Token;

fn id(name: &str) -> Token {
    Token::Id(name.to_string())
}

fn var(name: &str) -> Node {
    Node::Var(VarNode::new(id(name)))
}

fn integer(value: i32) -> Box<Node> {
    Box::new(Node::Integer(IntegerNumNode::new(value)))
}

fn binop(left: Box<Node>, operator: Token, right: Box<Node>) -> Box<Node> {
    Box::new(Node::BinOp(BinOpNode::new(left, right, operator)))
}

#[test]
fn expression_tree_shape() {
    let mut parser = Parser::new("1 + 2 * x - (3 + 4)");
    let tree = parser.expression().unwrap();
    let product = binop(integer(2), Token::Multiply, Box::new(var("x")));
    let sum = binop(integer(1), Token::Plus, product);
    let inner = binop(integer(3), Token::Plus, integer(4));
    assert_eq!(tree, *binop(sum, Token::Minus, inner));
}

#[test]
fn unary_operator_binds_tighter_than_binary() {
    let mut parser = Parser::new("-1 + 2");
    let tree = parser.expression().unwrap();
    let negated = Box::new(Node::UnaryOp(UnaryOpNode::new(Token::Minus, integer(1))));
    assert_eq!(tree, *binop(negated, Token::Plus, integer(2)));
}

#[test]
fn program_tree_shape() {
    let mut parser = Parser::new(
        "PROGRAM p; VAR a, b: INTEGER; x: REAL; PROCEDURE q(n: INTEGER); BEGIN END; \
         BEGIN a := 1.5; END.",
    );
    let tree = parser.parse().unwrap();
    let declaration = |name: &str, kind: Token| {
        Box::new(Node::Declaration(DeclarationNode::new(
            VarNode::new(id(name)),
            TypeNode::new(kind),
        )))
    };
    let empty = Box::new(Node::Compound(CompoundNode::new(vec![Box::new(Node::NoOp(
        NoOpNode {},
    ))])));
    let procedure = Box::new(Node::Procedure(ProcedureNode::new(
        id("q"),
        vec![Box::new(Node::Parameter(ParameterNode::new(
            VarNode::new(id("n")),
            TypeNode::new(Token::Integer),
        )))],
        Box::new(Node::Block(BlockNode::new(vec![], empty))),
    )));
    let assignment = Box::new(Node::Assign(AssignNode::new(
        VarNode::new(id("a")),
        Box::new(Node::Real(RealNumNode::new("1.5".to_string()))),
        Token::Assign,
    )));
    let body = Box::new(Node::Compound(CompoundNode::new(vec![
        assignment,
        Box::new(Node::NoOp(NoOpNode {})),
    ])));
    let block = Box::new(Node::Block(BlockNode::new(
        vec![
            declaration("a", Token::Integer),
            declaration("b", Token::Integer),
            declaration("x", Token::Real),
            procedure,
        ],
        body,
    )));
    assert_eq!(tree, Node::Program(ProgramNode::new(id("p"), block)));
}

#[test]
fn parser_steps_over_the_tokens() {
    let mut parser = Parser::new("a , b");
    assert_eq!(parser.get_current_token(), Ok(id("a")));
    assert_eq!(parser.consume(&id("a")), Ok(()));
    assert_eq!(parser.consume(&Token::Comma), Ok(()));
    assert!(parser.consume(&Token::Comma).is_err());
    assert_eq!(parser.variable(), Ok(VarNode::new(id("b"))));
    assert_eq!(parser.get_current_token(), Ok(Token::EOF));
    assert_eq!(parser.consume(&Token::EOF), Ok(()));
    assert_eq!(parser.get_current_token(), Ok(Token::EOF));
}

#[test]
fn type_spec_takes_the_two_types() {
    assert_eq!(Parser::new("INTEGER").type_spec(), Ok(TypeNode::new(Token::Integer)));
    assert_eq!(Parser::new("real").type_spec(), Ok(TypeNode::new(Token::Real)));
    assert!(Parser::new("x").type_spec().is_err());
}

#[test]
fn unknown_operator_in_a_built_tree() {
    let mut evaluator = Evaluator::new();
    let tree = binop(integer(1), Token::Comma, integer(2));
    assert_eq!(evaluator.visit(&tree), Err(RuntimeError::UnknownOperator(Token::Comma)));
    let tree = Node::UnaryOp(UnaryOpNode::new(Token::Multiply, integer(1)));
    assert_eq!(evaluator.visit(&tree), Err(RuntimeError::UnknownOperator(Token::Multiply)));
}

#[test]
fn unknown_type_in_a_built_tree() {
    let mut builder = TableBuilder::new();
    let tree = Node::Declaration(DeclarationNode::new(
        VarNode::new(id("a")),
        TypeNode::new(id("BOOLEAN")),
    ));
    assert_eq!(builder.visit(&tree), Err(SemanticError::UnknownType("BOOLEAN".to_string())));
    let first = Node::Declaration(DeclarationNode::new(
        VarNode::new(id("a")),
        TypeNode::new(Token::Integer),
    ));
    assert_eq!(builder.visit(&first), Ok(()));
    let second = Node::Declaration(DeclarationNode::new(
        VarNode::new(id("b")),
        TypeNode::new(id("a")),
    ));
    assert_eq!(builder.visit(&second), Err(SemanticError::UnknownType("a".to_string())));
}

#[test]
fn builder_knows_what_is_declared() {
    let mut builder = TableBuilder::new();
    assert!(builder.is_declared("INTEGER"));
    assert!(!builder.is_declared("a"));
    let tree = Node::Declaration(DeclarationNode::new(
        VarNode::new(id("a")),
        TypeNode::new(Token::Real),
    ));
    assert_eq!(builder.visit(&tree), Ok(()));
    assert!(builder.is_declared("a"));
    assert_eq!(builder.visit(&tree), Err(SemanticError::DuplicateDeclaration("a".to_string())));
    assert_eq!(builder.visit(&var("a")), Ok(()));
    assert_eq!(
        builder.visit(&var("b")),
        Err(SemanticError::UndeclaredVariable("b".to_string()))
    );
}

#[test]
fn evaluator_keeps_assigned_values() {
    let mut evaluator = Evaluator::new();
    assert_eq!(evaluator.lookup("a"), None);
    let assign = Node::Assign(AssignNode::new(VarNode::new(id("a")), integer(5), Token::Assign));
    assert_eq!(evaluator.visit(&assign), Ok(Number::Nil));
    assert_eq!(evaluator.lookup("a"), Some(Number::Int(5)));
    assert_eq!(evaluator.visit(&var("a")), Ok(Number::Int(5)));
    let twice = binop(Box::new(var("a")), Token::Plus, Box::new(var("a")));
    assert_eq!(evaluator.visit(&twice), Ok(Number::Int(10)));
    assert_eq!(evaluator.visit(&twice), Ok(Number::Int(10)));
}

#[test]
fn nil_leaves_the_other_operand() {
    let noop = || Box::new(Node::NoOp(NoOpNode {}));
    let mut evaluator = Evaluator::new();
    assert_eq!(evaluator.visit(&binop(noop(), Token::Plus, integer(2))), Ok(Number::Int(2)));
    assert_eq!(evaluator.visit(&binop(integer(2), Token::Minus, noop())), Ok(Number::Int(2)));
    assert_eq!(evaluator.visit(&binop(noop(), Token::Multiply, noop())), Ok(Number::Nil));
    assert_eq!(
        evaluator.visit(&binop(noop(), Token::IntegerDivision, integer(0))),
        Ok(Number::Int(0))
    );
    assert_eq!(
        evaluator.visit(&Node::UnaryOp(UnaryOpNode::new(Token::Minus, noop()))),
        Ok(Number::Nil)
    );
}

#[test]
fn number_arithmetic() {
    assert_eq!(Number::Int(2).add(Number::Int(3)), Ok(Number::Int(5)));
    assert_eq!(Number::Int(2).sub(Number::Int(3)), Ok(Number::Int(-1)));
    assert_eq!(Number::Int(2).mul(Number::Int(3)), Ok(Number::Int(6)));
    assert_eq!(Number::Int(7).div(Number::Int(2)), Ok(Number::Int(3)));
    assert_eq!(Number::Int(7).div(Number::Int(0)), Err(RuntimeError::DivisionByZero));
    assert_eq!(Number::Int(7).neg(), Number::Int(-7));
    assert_eq!(Number::Nil.neg(), Number::Nil);
    assert_eq!(Number::from(4), Number::Int(4));
    assert_eq!(
        Number::Int(1).add(Number::from_literal("1.0".to_string())),
        Err(RuntimeError::TypeMismatch)
    );
    assert_eq!(Number::Nil.real_div(Number::Nil), Number::Nil);
    assert_eq!(Number::Int(3).clone(), Number::Int(3));
}

#[test]
fn numerals() {
    assert_eq!(parse_integer("0"), Some(0));
    assert_eq!(parse_integer("0042"), Some(42));
    assert_eq!(parse_integer("2147483647"), Some(2147483647));
    assert_eq!(parse_integer("2147483648"), None);
    assert_eq!(parse_integer("99999999999999999999999"), None);
    assert_eq!(parse_integer(""), None);
    assert_eq!(parse_integer("12a"), None);
    assert_eq!(parse_integer("-1"), None);
}

#[test]
fn builder_keeps_the_table_of_the_global_scope() {
    let mut builder = TableBuilder::new();
    assert_eq!(builder.current_scope().scope_name(), "Global Scope");
    assert_eq!(builder.current_scope().scope_level(), 1);
    assert_eq!(builder.depth(), 1);
    let mut parser = Parser::new(
        "PROGRAM p; VAR a: INTEGER; x: REAL; PROCEDURE q(n: INTEGER); VAR m: REAL; BEGIN END; \
         BEGIN END.",
    );
    let tree = parser.parse().unwrap();
    assert_eq!(builder.visit(&tree), Ok(()));
    let table = builder.current_scope();
    assert_eq!(table.scope_name(), "Global Scope");
    assert_eq!(table.scope_level(), 1);
    assert_eq!(table.lookup("a").unwrap().to_string(), "a: INTEGER");
    assert_eq!(table.lookup("x").unwrap().to_string(), "x: REAL");
    assert_eq!(table.lookup("INTEGER").unwrap().to_string(), "INTEGER");
    assert_eq!(table.lookup("n"), None);
    assert_eq!(table.lookup("m"), None);
    assert_eq!(builder.depth(), 1);
}
