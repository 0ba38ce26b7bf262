//! The whole pipeline: parse, check, evaluate.
use vstd::prelude::*;
use crate::error::{InterpretError, InterpretErrorView, RuntimeErrorView, SemanticErrorView};
use crate::evaluator::{
    assigns, eval, eval_all, lemma_evaluation_without_assignment_repeats,
    lemma_list_value_is_nil, lemma_well_formed_operators_are_known, Environment, Evaluator,
};
use crate::grammar;
use crate::lexer::lexemes;
use crate::node::{Node, NodeView};
use crate::number::{Number, NumberView};
use crate::parser::Parser;
use crate::table_builder::{
    check, global_scope, lemma_global_scope_seeded, lemma_well_formed_types_are_known,
    TableBuilder,
};

verus! {

/// The outcome of interpreting a program: its value or the first error,
/// and the variables afterwards.
pub ghost struct Interpretation {
    pub result: Result<NumberView, InterpretErrorView>,
    pub env: Environment,
}

/// The interpretation of a parsed program. The semantic pass runs to its
/// end before evaluation begins; evaluation starts with no variable set.
/// Where parsing or the semantic pass fails, no variable is set.
pub open spec fn interpretation(program: Result<NodeView, InterpretErrorView>) -> Interpretation {
    match program {
        Err(error) => Interpretation { result: Err(error), env: Map::empty() },
        Ok(root) => match check(root, seq![global_scope(1)]).result {
            Err(error) => Interpretation {
                result: Err(InterpretErrorView::Semantic(error)),
                env: Map::empty(),
            },
            Ok(_) => {
                let run = eval(root, Map::empty());
                Interpretation {
                    result: match run.result {
                        Ok(value) => Ok(value),
                        Err(error) => Err(InterpretErrorView::Runtime(error)),
                    },
                    env: run.env,
                }
            },
        },
    }
}

/// The interpretation of a source text.
pub open spec fn interpret_text(text: Seq<char>) -> Interpretation {
    interpretation(grammar::parse(lexemes(text)))
}

/// A program that sets no variable leaves none set, whatever its outcome.
pub proof fn lemma_run_without_assignment_sets_nothing(root: NodeView)
    requires
        !assigns(root),
    ensures
        interpretation(Ok(root)).env == Map::<Seq<char>, NumberView>::empty(),
{
    lemma_evaluation_without_assignment_repeats(root, Map::empty());
}

/// A text is interpreted without error, and its value is `Nil`, if
///
/// - the grammar derives a program from it,
/// - the semantic pass finds no variable that is used without a
///   declaration, and none that is declared twice in one scope,
/// - the evaluation meets no operands of mismatched kinds, no variable
///   without a value and no division of an integer by zero.
///
/// Nothing else can fail: the grammar derives no unknown operator and no
/// unknown type.
pub proof fn lemma_well_formed_program_is_ok(text: Seq<char>)
    requires
        grammar::parse(lexemes(text)) is Ok,
        ({
            let root = grammar::parse(lexemes(text))->Ok_0;
            let found = check(root, seq![global_scope(1)]).result;
            let value = eval(root, Map::empty()).result;
            &&& !(found matches Err(SemanticErrorView::UndeclaredVariable(_)))
            &&& !(found matches Err(SemanticErrorView::DuplicateDeclaration(_)))
            &&& !(value matches Err(RuntimeErrorView::TypeMismatch))
            &&& !(value matches Err(RuntimeErrorView::UninitializedVariable(_)))
            &&& !(value matches Err(RuntimeErrorView::DivisionByZero))
        }),
    ensures
        interpret_text(text).result == Ok::<NumberView, InterpretErrorView>(NumberView::Nil),
{
    let ts = lexemes(text);
    let root = grammar::parse(ts)->Ok_0;
    grammar::lemma_parse_well_formed(ts);
    lemma_global_scope_seeded(1);
    lemma_well_formed_types_are_known(root, seq![global_scope(1)]);
    lemma_well_formed_operators_are_known(root, Map::empty());
    grammar::lemma_program_shape(ts);
    match root {
        NodeView::Program { identifier, block } => match *block {
            NodeView::Block { declarations, compound_statement } => match *compound_statement {
                NodeView::Compound { children } => {
                    let empty = Map::<Seq<char>, NumberView>::empty();
                    let declared = eval_all(declarations, empty, 0);
                    lemma_list_value_is_nil(children, declared.env, 0);
                    assert(eval(root, empty) == eval(*block, empty));
                    assert(eval(*compound_statement, declared.env) == eval_all(
                        children,
                        declared.env,
                        0,
                    ));
                    assert(eval(*block, empty) == if declared.result is Err {
                        declared
                    } else {
                        eval(*compound_statement, declared.env)
                    });
                },
                _ => {},
            },
            _ => {},
        },
        _ => {},
    }
}

/// The view of a parser's result.
pub open spec fn program_view(program: Result<Node, InterpretError>) -> Result<
    NodeView,
    InterpretErrorView,
> {
    match program {
        Ok(root) => Ok(root@),
        Err(error) => Err(error@),
    }
}

/// The view of an interpreter's result.
pub open spec fn outcome_view(result: Result<Number, InterpretError>) -> Result<
    NumberView,
    InterpretErrorView,
> {
    match result {
        Ok(value) => Ok(value@),
        Err(error) => Err(error@),
    }
}

/// A parsed program and the variables of its last run.
pub struct Interpreter {
    root_node: Result<Node, InterpretError>,
    evaluator: Evaluator,
}

impl Interpreter {
    /// The program: its tree, or the error that parsing ended with.
    pub closed spec fn program(&self) -> Result<NodeView, InterpretErrorView> {
        program_view(self.root_node)
    }

    /// The variables that the last run has set.
    pub closed spec fn environment(&self) -> Environment {
        self.evaluator@
    }

    /// Parses `text`. A text that does not parse gives an interpreter that
    /// reports the error when it is run.
    pub fn new(text: &str) -> (interpreter: Self)
        ensures
            interpreter.program() == grammar::parse(lexemes(text@)),
            interpreter.environment() == Map::<Seq<char>, NumberView>::empty(),
    {
        let mut parser = Parser::new(text);
        let root_node = parser.parse();
        Interpreter { root_node, evaluator: Evaluator::new() }
    }

    /// Runs the program from the start: the semantic pass, then the
    /// evaluation. Every run begins with no variable set.
    pub fn interpret(&mut self) -> (result: Result<Number, InterpretError>)
        ensures
            outcome_view(result) == interpretation(old(self).program()).result,
            final(self).environment() == interpretation(old(self).program()).env,
            final(self).program() == old(self).program(),
    {
        self.evaluator = Evaluator::new();
        let root = match &self.root_node {
            Ok(root) => root,
            Err(error) => {
                return Err(error.clone());
            },
        };
        let mut builder = TableBuilder::new();
        match builder.visit(root) {
            Ok(()) => {},
            Err(error) => {
                return Err(InterpretError::Semantic(error));
            },
        }
        match self.evaluator.visit(root) {
            Ok(value) => Ok(value),
            Err(error) => Err(InterpretError::Runtime(error)),
        }
    }

    /// The value that the last run left in the variable `name`.
    pub fn lookup(&self, name: &str) -> (value: Option<Number>)
        ensures
            match value {
                Some(number) => self.environment().contains_key(name@) && number@
                    == self.environment()[name@],
                None => !self.environment().contains_key(name@),
            },
    {
        self.evaluator.lookup(name)
    }
}

/// Interprets a source text: lexes, parses, checks and evaluates it, and
/// returns the value of the program or the first error of the first stage
/// that fails.
pub fn interpret(text: &str) -> (result: Result<Number, InterpretError>)
    ensures
        outcome_view(result) == interpret_text(text@).result,
{
    let mut interpreter = Interpreter::new(text);
    interpreter.interpret()
}

} // verus!
