//! A single expression, parsed and ready to be evaluated.
use vstd::prelude::*;
use crate::error::{InterpretError, InterpretErrorView};
use crate::evaluator::{eval, Evaluator};
use crate::grammar;
use crate::interpreter::{outcome_view, program_view};
use crate::lexer::lexemes;
use crate::node::{Node, NodeView};
use crate::number::{Number, NumberView};
use crate::parser::Parser;

verus! {

/// The value of a parsed expression in which no variable is set.
pub open spec fn expression_value(root: Result<NodeView, InterpretErrorView>) -> Result<
    NumberView,
    InterpretErrorView,
> {
    match root {
        Err(error) => Err(error),
        Ok(root) => match eval(root, Map::empty()).result {
            Ok(value) => Ok(value),
            Err(error) => Err(InterpretErrorView::Runtime(error)),
        },
    }
}

/// The tree of one expression.
pub struct Ast {
    root_node: Result<Node, InterpretError>,
}

impl Ast {
    /// The tree, or the error that parsing ended with.
    pub closed spec fn root(&self) -> Result<NodeView, InterpretErrorView> {
        program_view(self.root_node)
    }

    /// Parses `text` as an expression.
    pub fn new(text: &str) -> (ast: Self)
        ensures
            ast.root() == grammar::expression(lexemes(text@)),
    {
        let mut parser = Parser::new(text);
        let root_node = parser.expression();
        Ast { root_node }
    }

    /// The value of the expression. No variable is set, so an expression
    /// that reads one fails.
    pub fn evaluate(&self) -> (result: Result<Number, InterpretError>)
        ensures
            outcome_view(result) == expression_value(self.root()),
    {
        match &self.root_node {
            Err(error) => Err(error.clone()),
            Ok(root) => {
                let mut evaluator = Evaluator::new();
                match evaluator.visit(root) {
                    Ok(value) => Ok(value),
                    Err(error) => Err(InterpretError::Runtime(error)),
                }
            },
        }
    }
}

} // verus!
