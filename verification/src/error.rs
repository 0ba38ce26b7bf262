//! The errors of the stages after lexing, and the error of the whole
//! pipeline.
use vstd::prelude::*;
use vstd::string::StringExecFns;
use crate::lexer::LexError;
use crate::token::{Token, TokenView};

verus! {

/// The parser met `found` where only `expected` can stand. Where any
/// identifier or any integer constant is expected, `expected` is that kind
/// of token with an empty text; where a type is expected it is `INTEGER`.
#[derive(Debug, PartialEq)]
pub struct ParseError {
    pub expected: Token,
    pub found: Token,
}

/// The mathematical value of a [`ParseError`].
pub ghost struct ParseErrorView {
    pub expected: TokenView,
    pub found: TokenView,
}

impl View for ParseError {
    type V = ParseErrorView;

    open spec fn view(&self) -> ParseErrorView {
        ParseErrorView { expected: self.expected@, found: self.found@ }
    }
}

/// A violation of the scoping rules.
#[derive(Debug, PartialEq)]
pub enum SemanticError {
    /// The name is already declared in the same scope.
    DuplicateDeclaration(String),
    /// The name is declared in no scope that is open where it is used.
    UndeclaredVariable(String),
    /// The name of a declaration's type is not that of a built-in type.
    UnknownType(String),
}

/// The mathematical value of a [`SemanticError`].
pub ghost enum SemanticErrorView {
    DuplicateDeclaration(Seq<char>),
    UndeclaredVariable(Seq<char>),
    UnknownType(Seq<char>),
}

impl View for SemanticError {
    type V = SemanticErrorView;

    open spec fn view(&self) -> SemanticErrorView {
        match self {
            SemanticError::DuplicateDeclaration(name) => SemanticErrorView::DuplicateDeclaration(
                name@,
            ),
            SemanticError::UndeclaredVariable(name) => SemanticErrorView::UndeclaredVariable(
                name@,
            ),
            SemanticError::UnknownType(name) => SemanticErrorView::UnknownType(name@),
        }
    }
}

/// A failure of evaluation.
#[derive(Debug, PartialEq)]
pub enum RuntimeError {
    /// The variable is read before any value was assigned to it.
    UninitializedVariable(String),
    /// The operands of an arithmetic operator are of different kinds, or of
    /// a kind the operator does not take.
    TypeMismatch,
    /// An integer is divided by zero.
    DivisionByZero,
    /// The token is not an operator of the node that holds it.
    UnknownOperator(Token),
}

/// The mathematical value of a [`RuntimeError`].
pub ghost enum RuntimeErrorView {
    UninitializedVariable(Seq<char>),
    TypeMismatch,
    DivisionByZero,
    UnknownOperator(TokenView),
}

impl View for RuntimeError {
    type V = RuntimeErrorView;

    open spec fn view(&self) -> RuntimeErrorView {
        match self {
            RuntimeError::UninitializedVariable(name) => RuntimeErrorView::UninitializedVariable(
                name@,
            ),
            RuntimeError::TypeMismatch => RuntimeErrorView::TypeMismatch,
            RuntimeError::DivisionByZero => RuntimeErrorView::DivisionByZero,
            RuntimeError::UnknownOperator(token) => RuntimeErrorView::UnknownOperator(token@),
        }
    }
}

/// The first error of an interpretation, tagged by the stage that found it.
#[derive(Debug, PartialEq)]
pub enum InterpretError {
    Lex(LexError),
    Parse(ParseError),
    Semantic(SemanticError),
    Runtime(RuntimeError),
}

/// The mathematical value of an [`InterpretError`].
pub ghost enum InterpretErrorView {
    Lex(LexError),
    Parse(ParseErrorView),
    Semantic(SemanticErrorView),
    Runtime(RuntimeErrorView),
}

impl View for InterpretError {
    type V = InterpretErrorView;

    open spec fn view(&self) -> InterpretErrorView {
        match self {
            InterpretError::Lex(error) => InterpretErrorView::Lex(*error),
            InterpretError::Parse(error) => InterpretErrorView::Parse(error@),
            InterpretError::Semantic(error) => InterpretErrorView::Semantic(error@),
            InterpretError::Runtime(error) => InterpretErrorView::Runtime(error@),
        }
    }
}

impl ParseErrorView {
    /// The message of the error.
    pub open spec fn text(self) -> Seq<char> {
        "Unexpected token error: expected "@ + self.expected.text() + ", received "@
            + self.found.text()
    }
}

impl SemanticErrorView {
    /// The message of the error.
    pub open spec fn text(self) -> Seq<char> {
        match self {
            SemanticErrorView::DuplicateDeclaration(name) =>
                "Found duplicate variable declaration for '"@ + name + "'!"@,
            SemanticErrorView::UndeclaredVariable(name) => "Undeclared variable "@ + name
                + " found."@,
            SemanticErrorView::UnknownType(name) => "Invalid builtin type "@ + name,
        }
    }
}

impl RuntimeErrorView {
    /// The message of the error.
    pub open spec fn text(self) -> Seq<char> {
        match self {
            RuntimeErrorView::UninitializedVariable(name) =>
                "Possible use of uninitialised variable "@ + name + "."@,
            RuntimeErrorView::TypeMismatch => "Invalid operation on operands of different types"@,
            RuntimeErrorView::DivisionByZero => "Division by zero"@,
            RuntimeErrorView::UnknownOperator(token) => "Unknown operator found: "@
                + token.text(),
        }
    }
}

impl InterpretErrorView {
    /// The message of the error: that of its stage.
    pub open spec fn text(self) -> Seq<char> {
        match self {
            InterpretErrorView::Lex(error) => error.text(),
            InterpretErrorView::Parse(error) => error.text(),
            InterpretErrorView::Semantic(error) => error.text(),
            InterpretErrorView::Runtime(error) => error.text(),
        }
    }
}

impl ParseError {
    /// The message of the error.
    pub fn to_string(&self) -> (text: String)
        ensures
            text@ == self@.text(),
    {
        let expected = self.expected.to_string();
        let found = self.found.to_string();
        String::from_str("Unexpected token error: expected ").concat(expected.as_str()).concat(
            ", received ",
        ).concat(found.as_str())
    }
}

impl SemanticError {
    /// The message of the error.
    pub fn to_string(&self) -> (text: String)
        ensures
            text@ == self@.text(),
    {
        match self {
            SemanticError::DuplicateDeclaration(name) => String::from_str(
                "Found duplicate variable declaration for '",
            ).concat(name.as_str()).concat("'!"),
            SemanticError::UndeclaredVariable(name) => String::from_str(
                "Undeclared variable ",
            ).concat(name.as_str()).concat(" found."),
            SemanticError::UnknownType(name) => String::from_str("Invalid builtin type ").concat(
                name.as_str(),
            ),
        }
    }
}

impl RuntimeError {
    /// The message of the error.
    pub fn to_string(&self) -> (text: String)
        ensures
            text@ == self@.text(),
    {
        match self {
            RuntimeError::UninitializedVariable(name) => String::from_str(
                "Possible use of uninitialised variable ",
            ).concat(name.as_str()).concat("."),
            RuntimeError::TypeMismatch => String::from_str(
                "Invalid operation on operands of different types",
            ),
            RuntimeError::DivisionByZero => String::from_str("Division by zero"),
            RuntimeError::UnknownOperator(token) => {
                let operator = token.to_string();
                String::from_str("Unknown operator found: ").concat(operator.as_str())
            },
        }
    }
}

impl InterpretError {
    /// The message of the error: that of its stage.
    pub fn to_string(&self) -> (text: String)
        ensures
            text@ == self@.text(),
    {
        match self {
            InterpretError::Lex(error) => error.to_string(),
            InterpretError::Parse(error) => error.to_string(),
            InterpretError::Semantic(error) => error.to_string(),
            InterpretError::Runtime(error) => error.to_string(),
        }
    }
}

impl Clone for ParseError {
    fn clone(&self) -> (copy: Self)
        ensures
            copy@ == self@,
    {
        ParseError { expected: self.expected.clone(), found: self.found.clone() }
    }
}

impl Clone for SemanticError {
    fn clone(&self) -> (copy: Self)
        ensures
            copy@ == self@,
    {
        match self {
            SemanticError::DuplicateDeclaration(name) => SemanticError::DuplicateDeclaration(
                name.clone(),
            ),
            SemanticError::UndeclaredVariable(name) => SemanticError::UndeclaredVariable(
                name.clone(),
            ),
            SemanticError::UnknownType(name) => SemanticError::UnknownType(name.clone()),
        }
    }
}

impl Clone for RuntimeError {
    fn clone(&self) -> (copy: Self)
        ensures
            copy@ == self@,
    {
        match self {
            RuntimeError::UninitializedVariable(name) => RuntimeError::UninitializedVariable(
                name.clone(),
            ),
            RuntimeError::TypeMismatch => RuntimeError::TypeMismatch,
            RuntimeError::DivisionByZero => RuntimeError::DivisionByZero,
            RuntimeError::UnknownOperator(token) => RuntimeError::UnknownOperator(token.clone()),
        }
    }
}

impl Clone for InterpretError {
    fn clone(&self) -> (copy: Self)
        ensures
            copy@ == self@,
    {
        match self {
            InterpretError::Lex(error) => InterpretError::Lex(*error),
            InterpretError::Parse(error) => InterpretError::Parse(error.clone()),
            InterpretError::Semantic(error) => InterpretError::Semantic(error.clone()),
            InterpretError::Runtime(error) => InterpretError::Runtime(error.clone()),
        }
    }
}

} // verus!
