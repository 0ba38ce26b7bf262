//! The evaluation pass: a walk over the tree that computes the value of
//! each node and keeps the variables in one flat environment.
//!
//! [`eval`] defines the pass. [`Evaluator`] performs it.
use vstd::hash_map::StringHashMap;
use vstd::prelude::*;
use crate::error::{RuntimeError, RuntimeErrorView};
use crate::grammar::{all_well_formed, well_formed};
use crate::node::{
    views_of, AssignNode, BinOpNode, BlockNode, CompoundNode, DeclarationNode, IntegerNumNode,
    NoOpNode, Node, NodeView, ParameterNode, ProcedureNode, ProgramNode, RealNumNode, TypeNode,
    UnaryOpNode, VarNode,
};
use crate::number::{number_result, Number, NumberResult, NumberView, RealTermView};
use crate::token::{Token, TokenView};

verus! {

/// The variables that hold a value, by name.
pub type Environment = Map<Seq<char>, NumberView>;

/// The outcome of evaluating a node: its value or the first error, and the
/// environment afterwards.
pub ghost struct Evaluated {
    pub result: Result<NumberView, RuntimeErrorView>,
    pub env: Environment,
}

/// The value of a binary operation on two values. `+`, `-` and `*` take
/// two integers or two reals; `DIV` takes two integers; `/` takes its
/// operands as reals and gives a real. Any other token is no operator.
pub open spec fn apply_binary(operator: TokenView, left: NumberView, right: NumberView) -> Result<
    NumberView,
    RuntimeErrorView,
> {
    match operator {
        TokenView::Plus => left.sum(right),
        TokenView::Minus => left.difference(right),
        TokenView::Multiply => left.product(right),
        TokenView::IntegerDivision => left.quotient(right),
        TokenView::RealDivision => Ok(left.ratio(right)),
        _ => Err(RuntimeErrorView::UnknownOperator(operator)),
    }
}

/// The evaluation of `node` in `env`. It stops at the first error.
///
/// A literal is its value. A variable is the value that the environment
/// holds under its name; without one it is uninitialized. A binary
/// operation evaluates its left operand, then its right operand, then
/// applies the operator. Unary `+` is its operand; unary `-` negates it. An
/// assignment evaluates its expression and stores the value under the name
/// of its target; its own value is `Nil`. A compound statement evaluates
/// its children in order, a block its declarations and then its body. A
/// declaration does nothing, and neither does a procedure: procedures are
/// not run.
pub open spec fn eval(node: NodeView, env: Environment) -> Evaluated
    decreases node,
{
    match node {
        NodeView::Program { identifier, block } => eval(*block, env),
        NodeView::Block { declarations, compound_statement } => {
            let declared = eval_all(declarations, env, 0);
            if declared.result is Err {
                declared
            } else {
                eval(*compound_statement, declared.env)
            }
        },
        NodeView::Compound { children } => eval_all(children, env, 0),
        NodeView::Assign { identifier, expr, operator } => {
            let value = eval(*expr, env);
            match value.result {
                Ok(number) => Evaluated {
                    result: Ok(NumberView::Nil),
                    env: value.env.insert(identifier.text(), number),
                },
                Err(_) => value,
            }
        },
        NodeView::Var { identifier } => if env.contains_key(identifier.text()) {
            Evaluated { result: Ok(env[identifier.text()]), env }
        } else {
            Evaluated {
                result: Err(RuntimeErrorView::UninitializedVariable(identifier.text())),
                env,
            }
        },
        NodeView::Integer { value } => Evaluated { result: Ok(NumberView::Int(value)), env },
        NodeView::Real { text } => Evaluated {
            result: Ok(NumberView::Real(RealTermView::Literal(text))),
            env,
        },
        NodeView::BinOp { left, right, operator } => {
            let first = eval(*left, env);
            match first.result {
                Err(_) => first,
                Ok(lhs) => {
                    let second = eval(*right, first.env);
                    match second.result {
                        Err(_) => second,
                        Ok(rhs) => Evaluated {
                            result: apply_binary(operator, lhs, rhs),
                            env: second.env,
                        },
                    }
                },
            }
        },
        NodeView::UnaryOp { operator, expr } => match operator {
            TokenView::Plus => eval(*expr, env),
            TokenView::Minus => {
                let operand = eval(*expr, env);
                match operand.result {
                    Ok(number) => Evaluated { result: Ok(number.negation()), env: operand.env },
                    Err(_) => operand,
                }
            },
            _ => Evaluated { result: Err(RuntimeErrorView::UnknownOperator(operator)), env },
        },
        NodeView::Declaration { variable, type_spec } => Evaluated {
            result: Ok(NumberView::Nil),
            env,
        },
        NodeView::Parameter { variable, type_spec } => Evaluated {
            result: Ok(NumberView::Nil),
            env,
        },
        NodeView::Procedure { proc_name, params, block } => Evaluated {
            result: Ok(NumberView::Nil),
            env,
        },
        NodeView::Type { token } => Evaluated { result: Ok(NumberView::Nil), env },
        NodeView::NoOp => Evaluated { result: Ok(NumberView::Nil), env },
    }
}

/// The evaluation of `nodes[from..]`, in order. Its value is `Nil`.
pub open spec fn eval_all(nodes: Seq<NodeView>, env: Environment, from: int) -> Evaluated
    decreases nodes, nodes.len() - from,
{
    if 0 <= from < nodes.len() {
        let first = eval(nodes[from], env);
        if first.result is Err {
            first
        } else {
            eval_all(nodes, first.env, from + 1)
        }
    } else {
        Evaluated { result: Ok(NumberView::Nil), env }
    }
}

/// Whether the evaluation of `node` can come to an assignment. A procedure
/// is not run, so what it holds does not count.
pub open spec fn assigns(node: NodeView) -> bool
    decreases node,
{
    match node {
        NodeView::Program { identifier, block } => assigns(*block),
        NodeView::Block { declarations, compound_statement } => any_assigns(declarations, 0)
            || assigns(*compound_statement),
        NodeView::Compound { children } => any_assigns(children, 0),
        NodeView::Assign { identifier, expr, operator } => true,
        NodeView::BinOp { left, right, operator } => assigns(*left) || assigns(*right),
        NodeView::UnaryOp { operator, expr } => assigns(*expr),
        _ => false,
    }
}

/// Whether the evaluation of one of `nodes[from..]` can come to an
/// assignment.
pub open spec fn any_assigns(nodes: Seq<NodeView>, from: int) -> bool
    decreases nodes, nodes.len() - from,
{
    if 0 <= from < nodes.len() {
        assigns(nodes[from]) || any_assigns(nodes, from + 1)
    } else {
        false
    }
}

/// Evaluation without an assignment keeps no state: it leaves the
/// environment as it was. So evaluating the same tree a second time, after
/// the first, gives the same value or the same error as the first time.
pub proof fn lemma_evaluation_without_assignment_repeats(node: NodeView, env: Environment)
    requires
        !assigns(node),
    ensures
        eval(node, env).env == env,
        eval(node, eval(node, env).env) == eval(node, env),
    decreases node,
{
    match node {
        NodeView::Program { identifier, block } => {
            lemma_evaluation_without_assignment_repeats(*block, env);
        },
        NodeView::Block { declarations, compound_statement } => {
            lemma_list_without_assignment_repeats(declarations, env, 0);
            lemma_evaluation_without_assignment_repeats(*compound_statement, env);
        },
        NodeView::Compound { children } => {
            lemma_list_without_assignment_repeats(children, env, 0);
        },
        NodeView::BinOp { left, right, operator } => {
            lemma_evaluation_without_assignment_repeats(*left, env);
            lemma_evaluation_without_assignment_repeats(*right, env);
        },
        NodeView::UnaryOp { operator, expr } => {
            lemma_evaluation_without_assignment_repeats(*expr, env);
        },
        _ => {},
    }
}

/// As [`lemma_evaluation_without_assignment_repeats`], for the nodes of a
/// list.
pub proof fn lemma_list_without_assignment_repeats(
    nodes: Seq<NodeView>,
    env: Environment,
    from: int,
)
    requires
        !any_assigns(nodes, from),
    ensures
        eval_all(nodes, env, from).env == env,
        eval_all(nodes, eval_all(nodes, env, from).env, from) == eval_all(nodes, env, from),
    decreases nodes, nodes.len() - from,
{
    if 0 <= from < nodes.len() {
        lemma_evaluation_without_assignment_repeats(nodes[from], env);
        lemma_list_without_assignment_repeats(nodes, env, from + 1);
    }
}

/// A list that is evaluated without error has the value `Nil`.
pub proof fn lemma_list_value_is_nil(nodes: Seq<NodeView>, env: Environment, from: int)
    ensures
        eval_all(nodes, env, from).result is Ok ==> eval_all(nodes, env, from).result == Ok::<
            NumberView,
            RuntimeErrorView,
        >(NumberView::Nil),
    decreases nodes, nodes.len() - from,
{
    if 0 <= from < nodes.len() {
        lemma_list_value_is_nil(nodes, eval(nodes[from], env).env, from + 1);
    }
}

/// Whether an outcome is the error of an unknown operator.
pub open spec fn is_unknown_operator(outcome: Evaluated) -> bool {
    outcome.result matches Err(RuntimeErrorView::UnknownOperator(_))
}

/// The evaluation of a well-formed tree never meets an unknown operator.
pub proof fn lemma_well_formed_operators_are_known(node: NodeView, env: Environment)
    requires
        well_formed(node),
    ensures
        !is_unknown_operator(eval(node, env)),
    decreases node,
{
    match node {
        NodeView::Program { identifier, block } => {
            lemma_well_formed_operators_are_known(*block, env);
        },
        NodeView::Block { declarations, compound_statement } => {
            lemma_well_formed_list_operators_are_known(declarations, env, 0);
            lemma_well_formed_operators_are_known(
                *compound_statement,
                eval_all(declarations, env, 0).env,
            );
        },
        NodeView::Compound { children } => {
            lemma_well_formed_list_operators_are_known(children, env, 0);
        },
        NodeView::Assign { identifier, expr, operator } => {
            lemma_well_formed_operators_are_known(*expr, env);
        },
        NodeView::BinOp { left, right, operator } => {
            lemma_well_formed_operators_are_known(*left, env);
            lemma_well_formed_operators_are_known(*right, eval(*left, env).env);
        },
        NodeView::UnaryOp { operator, expr } => {
            lemma_well_formed_operators_are_known(*expr, env);
        },
        _ => {},
    }
}

/// As [`lemma_well_formed_operators_are_known`], for the nodes of a list.
pub proof fn lemma_well_formed_list_operators_are_known(
    nodes: Seq<NodeView>,
    env: Environment,
    from: int,
)
    requires
        all_well_formed(nodes),
    ensures
        !is_unknown_operator(eval_all(nodes, env, from)),
    decreases nodes, nodes.len() - from,
{
    if 0 <= from < nodes.len() {
        lemma_well_formed_operators_are_known(nodes[from], env);
        lemma_well_formed_list_operators_are_known(nodes, eval(nodes[from], env).env, from + 1);
    }
}

/// What a visit that ends with `result` and leaves the environment `env`
/// has computed.
pub open spec fn evaluated(result: NumberResult, env: Environment) -> Evaluated {
    Evaluated { result: number_result(result), env }
}

/// The visitor that evaluates a tree.
pub struct Evaluator {
    global_scope: StringHashMap<Number>,
}

impl Evaluator {
    /// The environment: the value of each variable that has one.
    pub closed spec fn view(&self) -> Environment {
        self.global_scope@.map_values(|number: Number| number@)
    }

    /// An evaluator in which no variable has a value.
    pub fn new() -> (evaluator: Self)
        ensures
            evaluator@ == Map::<Seq<char>, NumberView>::empty(),
    {
        let evaluator = Evaluator { global_scope: StringHashMap::new() };
        assert(evaluator@ =~= Map::<Seq<char>, NumberView>::empty());
        evaluator
    }

    /// The value of the variable `name`, if it has one.
    pub fn lookup(&self, name: &str) -> (value: Option<Number>)
        ensures
            match value {
                Some(number) => self@.contains_key(name@) && number@ == self@[name@],
                None => !self@.contains_key(name@),
            },
    {
        match self.global_scope.get(name) {
            Some(number) => Some(number.clone()),
            None => None,
        }
    }

    /// Gives the variable `name` the value `value`.
    fn store(&mut self, name: String, value: Number)
        ensures
            final(self)@ == old(self)@.insert(name@, value@),
    {
        self.global_scope.insert(name, value);
        assert(self@ =~= old(self)@.insert(name@, value@));
    }

    /// The value of a binary operation on two values.
    pub fn apply_binary(operator: &Token, left: Number, right: Number) -> (result: NumberResult)
        ensures
            number_result(result) == apply_binary(operator@, left@, right@),
    {
        match operator {
            Token::Plus => left.add(right),
            Token::Multiply => left.mul(right),
            Token::Minus => left.sub(right),
            Token::IntegerDivision => left.div(right),
            Token::RealDivision => Ok(left.real_div(right)),
            _ => Err(RuntimeError::UnknownOperator(operator.clone())),
        }
    }

    /// Evaluates the nodes of a list, in order.
    fn visit_all(&mut self, nodes: &Vec<Box<Node>>) -> (result: NumberResult)
        ensures
            evaluated(result, final(self)@) == eval_all(views_of(nodes@), old(self)@, 0),
        decreases nodes,
    {
        let mut i: usize = 0;
        while i < nodes.len()
            invariant
                i <= nodes.len(),
                eval_all(views_of(nodes@), self@, i as int) == eval_all(
                    views_of(nodes@),
                    old(self)@,
                    0,
                ),
            decreases nodes.len() - i,
        {
            match self.visit(&nodes[i]) {
                Ok(_) => {},
                Err(error) => {
                    return Err(error);
                },
            }
            i += 1;
        }
        Ok(Number::Nil)
    }

    /// Evaluates `node`: dispatches on its kind.
    pub fn visit(&mut self, node: &Node) -> (result: NumberResult)
        ensures
            evaluated(result, final(self)@) == eval(node@, old(self)@),
        decreases node,
    {
        match node {
            Node::Program(n) => self.visit_program(n),
            Node::Block(n) => self.visit_block(n),
            Node::Declaration(n) => self.visit_declaration(n),
            Node::Type(n) => self.visit_type(n),
            Node::Integer(n) => self.visit_integer(n),
            Node::Real(n) => self.visit_real(n),
            Node::BinOp(n) => self.visit_binop(n),
            Node::UnaryOp(n) => self.visit_unaryop(n),
            Node::Compound(n) => self.visit_compound(n),
            Node::Assign(n) => self.visit_assign(n),
            Node::Var(n) => self.visit_var(n),
            Node::NoOp(n) => self.visit_noop(n),
            Node::Procedure(n) => self.visit_procedure(n),
            Node::Parameter(n) => self.visit_parameter(n),
        }
    }

    /// Evaluates a program: its block.
    pub fn visit_program(&mut self, node: &ProgramNode) -> (result: NumberResult)
        ensures
            evaluated(result, final(self)@) == eval(node@, old(self)@),
        decreases node,
    {
        self.visit(&node.block)
    }

    /// Evaluates a block: its declarations, then its body.
    pub fn visit_block(&mut self, node: &BlockNode) -> (result: NumberResult)
        ensures
            evaluated(result, final(self)@) == eval(node@, old(self)@),
        decreases node,
    {
        match self.visit_all(&node.declarations) {
            Ok(_) => {},
            Err(error) => {
                return Err(error);
            },
        }
        self.visit(&node.compound_statement)
    }

    /// Evaluates a declaration: it does nothing, and its value is `Nil`.
    pub fn visit_declaration(&mut self, node: &DeclarationNode) -> (result: NumberResult)
        ensures
            evaluated(result, final(self)@) == eval(node@, old(self)@),
    {
        Ok(Number::Nil)
    }

    /// Evaluates a parameter: it does nothing, and its value is `Nil`.
    pub fn visit_parameter(&mut self, node: &ParameterNode) -> (result: NumberResult)
        ensures
            evaluated(result, final(self)@) == eval(node@, old(self)@),
    {
        Ok(Number::Nil)
    }

    /// Evaluates a procedure: it is not run, and its value is `Nil`.
    pub fn visit_procedure(&mut self, node: &ProcedureNode) -> (result: NumberResult)
        ensures
            evaluated(result, final(self)@) == eval(node@, old(self)@),
    {
        Ok(Number::Nil)
    }

    /// Evaluates the name of a type: its value is `Nil`.
    pub fn visit_type(&mut self, node: &TypeNode) -> (result: NumberResult)
        ensures
            evaluated(result, final(self)@) == eval(node@, old(self)@),
    {
        Ok(Number::Nil)
    }

    /// Evaluates the empty statement: its value is `Nil`.
    pub fn visit_noop(&mut self, node: &NoOpNode) -> (result: NumberResult)
        ensures
            evaluated(result, final(self)@) == eval(node@, old(self)@),
    {
        Ok(Number::Nil)
    }

    /// Evaluates an integer literal: its value is the integer.
    pub fn visit_integer(&mut self, node: &IntegerNumNode) -> (result: NumberResult)
        ensures
            evaluated(result, final(self)@) == eval(node@, old(self)@),
    {
        Ok(Number::from(node.value))
    }

    /// Evaluates a real literal: its value is the literal, as a real term.
    pub fn visit_real(&mut self, node: &RealNumNode) -> (result: NumberResult)
        ensures
            evaluated(result, final(self)@) == eval(node@, old(self)@),
    {
        Ok(Number::from_literal(node.value.clone()))
    }

    /// Evaluates a binary operation: its left operand, then its right
    /// operand, then the operator on their values.
    pub fn visit_binop(&mut self, node: &BinOpNode) -> (result: NumberResult)
        ensures
            evaluated(result, final(self)@) == eval(node@, old(self)@),
        decreases node,
    {
        let lhs = match self.visit(&node.left) {
            Ok(number) => number,
            Err(error) => {
                return Err(error);
            },
        };
        let rhs = match self.visit(&node.right) {
            Ok(number) => number,
            Err(error) => {
                return Err(error);
            },
        };
        Self::apply_binary(&node.operator, lhs, rhs)
    }

    /// Evaluates a unary operation: `+` gives the operand, `-` its negation.
    pub fn visit_unaryop(&mut self, node: &UnaryOpNode) -> (result: NumberResult)
        ensures
            evaluated(result, final(self)@) == eval(node@, old(self)@),
        decreases node,
    {
        match &node.operator {
            Token::Plus => self.visit(&node.expr),
            Token::Minus => match self.visit(&node.expr) {
                Ok(number) => Ok(number.neg()),
                Err(error) => Err(error),
            },
            operator => Err(RuntimeError::UnknownOperator(operator.clone())),
        }
    }

    /// Evaluates a compound statement: its children, in order.
    pub fn visit_compound(&mut self, node: &CompoundNode) -> (result: NumberResult)
        ensures
            evaluated(result, final(self)@) == eval(node@, old(self)@),
        decreases node,
    {
        self.visit_all(&node.children)
    }

    /// Evaluates an assignment: stores the value of the expression under
    /// the name of the target. Its own value is `Nil`.
    pub fn visit_assign(&mut self, node: &AssignNode) -> (result: NumberResult)
        ensures
            evaluated(result, final(self)@) == eval(node@, old(self)@),
        decreases node,
    {
        match self.visit(&node.expr) {
            Ok(value) => {
                self.store(node.identifier.identifier.to_string(), value);
                Ok(Number::Nil)
            },
            Err(error) => Err(error),
        }
    }

    /// Evaluates a variable: the value that it holds.
    pub fn visit_var(&mut self, node: &VarNode) -> (result: NumberResult)
        ensures
            evaluated(result, final(self)@) == eval(node@, old(self)@),
    {
        let name = node.identifier.to_string();
        match self.lookup(name.as_str()) {
            Some(value) => Ok(value),
            None => Err(RuntimeError::UninitializedVariable(name)),
        }
    }
}

} // verus!
