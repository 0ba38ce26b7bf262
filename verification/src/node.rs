//! The syntax tree: one struct for each kind of node, and the closed
//! variant [`Node`] over them.
use vstd::prelude::*;
use crate::token::{Token, TokenView};

verus! {

/// An integer literal.
#[derive(Debug, PartialEq)]
pub struct IntegerNumNode {
    pub value: i32,
}

/// A real literal, kept as the decimal numeral it was written with.
#[derive(Debug, PartialEq)]
pub struct RealNumNode {
    pub value: String,
}

/// A binary operation.
#[derive(Debug, PartialEq)]
pub struct BinOpNode {
    pub left: Box<Node>,
    pub right: Box<Node>,
    pub operator: Token,
}

/// A unary operation.
#[derive(Debug, PartialEq)]
pub struct UnaryOpNode {
    pub operator: Token,
    pub expr: Box<Node>,
}

/// A sequence of statements between `BEGIN` and `END`.
#[derive(Debug, PartialEq)]
pub struct CompoundNode {
    pub children: Vec<Box<Node>>,
}

/// An assignment of the value of `expr` to the variable `identifier`.
#[derive(Debug, PartialEq)]
pub struct AssignNode {
    pub identifier: VarNode,
    pub expr: Box<Node>,
    pub operator: Token,
}

/// A variable. Its name is the text of the token.
#[derive(Debug, PartialEq)]
pub struct VarNode {
    pub identifier: Token,
}

/// The empty statement.
#[derive(Debug, PartialEq)]
pub struct NoOpNode {}

/// A whole program.
#[derive(Debug, PartialEq)]
pub struct ProgramNode {
    pub identifier: Token,
    pub block: Box<Node>,
}

/// A procedure declaration.
#[derive(Debug, PartialEq)]
pub struct ProcedureNode {
    pub proc_name: Token,
    pub params: Vec<Box<Node>>,
    pub block: Box<Node>,
}

/// Declarations followed by a compound statement.
#[derive(Debug, PartialEq)]
pub struct BlockNode {
    pub declarations: Vec<Box<Node>>,
    pub compound_statement: Box<Node>,
}

/// The declaration of one variable.
#[derive(Debug, PartialEq)]
pub struct DeclarationNode {
    pub var_node: VarNode,
    pub type_node: TypeNode,
}

/// One formal parameter of a procedure.
#[derive(Debug, PartialEq)]
pub struct ParameterNode {
    pub var_node: VarNode,
    pub type_node: TypeNode,
}

/// The name of a type.
#[derive(Debug, PartialEq)]
pub struct TypeNode {
    pub token: Token,
}

/// A node of the syntax tree.
#[derive(Debug, PartialEq)]
pub enum Node {
    Program(ProgramNode),
    Block(BlockNode),
    Declaration(DeclarationNode),
    Type(TypeNode),
    Integer(IntegerNumNode),
    Real(RealNumNode),
    BinOp(BinOpNode),
    UnaryOp(UnaryOpNode),
    Compound(CompoundNode),
    Assign(AssignNode),
    Var(VarNode),
    NoOp(NoOpNode),
    Procedure(ProcedureNode),
    Parameter(ParameterNode),
}

/// The mathematical value of a [`Node`].
pub ghost enum NodeView {
    Program { identifier: TokenView, block: Box<NodeView> },
    Block { declarations: Seq<NodeView>, compound_statement: Box<NodeView> },
    Declaration { variable: TokenView, type_spec: TokenView },
    Type { token: TokenView },
    Integer { value: i32 },
    Real { text: Seq<char> },
    BinOp { left: Box<NodeView>, right: Box<NodeView>, operator: TokenView },
    UnaryOp { operator: TokenView, expr: Box<NodeView> },
    Compound { children: Seq<NodeView> },
    Assign { identifier: TokenView, expr: Box<NodeView>, operator: TokenView },
    Var { identifier: TokenView },
    NoOp,
    Procedure { proc_name: TokenView, params: Seq<NodeView>, block: Box<NodeView> },
    Parameter { variable: TokenView, type_spec: TokenView },
}

/// The values of a list of nodes, in order.
pub open spec fn views_of(nodes: Seq<Box<Node>>) -> Seq<NodeView>
    decreases nodes,
{
    Seq::new(
        nodes.len(),
        |i: int|
            if 0 <= i < nodes.len() {
                nodes[i].view()
            } else {
                NodeView::NoOp
            },
    )
}

impl Node {
    /// The value of the node.
    pub open spec fn view(&self) -> NodeView
        decreases self,
    {
        match self {
            Node::Program(n) => n.view(),
            Node::Block(n) => n.view(),
            Node::Declaration(n) => n.view(),
            Node::Type(n) => n.view(),
            Node::Integer(n) => n.view(),
            Node::Real(n) => n.view(),
            Node::BinOp(n) => n.view(),
            Node::UnaryOp(n) => n.view(),
            Node::Compound(n) => n.view(),
            Node::Assign(n) => n.view(),
            Node::Var(n) => n.view(),
            Node::NoOp(n) => n.view(),
            Node::Procedure(n) => n.view(),
            Node::Parameter(n) => n.view(),
        }
    }
}

impl ProgramNode {
    /// The value of the node.
    pub open spec fn view(&self) -> NodeView
        decreases self,
    {
        NodeView::Program { identifier: self.identifier@, block: Box::new(self.block.view()) }
    }
}

impl BlockNode {
    /// The value of the node.
    pub open spec fn view(&self) -> NodeView
        decreases self,
    {
        NodeView::Block {
            declarations: views_of(self.declarations@),
            compound_statement: Box::new(self.compound_statement.view()),
        }
    }
}

impl DeclarationNode {
    /// The value of the node.
    pub open spec fn view(&self) -> NodeView {
        NodeView::Declaration {
            variable: self.var_node.identifier@,
            type_spec: self.type_node.token@,
        }
    }
}

impl ParameterNode {
    /// The value of the node.
    pub open spec fn view(&self) -> NodeView {
        NodeView::Parameter {
            variable: self.var_node.identifier@,
            type_spec: self.type_node.token@,
        }
    }
}

impl TypeNode {
    /// The value of the node.
    pub open spec fn view(&self) -> NodeView {
        NodeView::Type { token: self.token@ }
    }
}

impl IntegerNumNode {
    /// The value of the node.
    pub open spec fn view(&self) -> NodeView {
        NodeView::Integer { value: self.value }
    }
}

impl RealNumNode {
    /// The value of the node.
    pub open spec fn view(&self) -> NodeView {
        NodeView::Real { text: self.value@ }
    }
}

impl BinOpNode {
    /// The value of the node.
    pub open spec fn view(&self) -> NodeView
        decreases self,
    {
        NodeView::BinOp {
            left: Box::new(self.left.view()),
            right: Box::new(self.right.view()),
            operator: self.operator@,
        }
    }
}

impl UnaryOpNode {
    /// The value of the node.
    pub open spec fn view(&self) -> NodeView
        decreases self,
    {
        NodeView::UnaryOp { operator: self.operator@, expr: Box::new(self.expr.view()) }
    }
}

impl CompoundNode {
    /// The value of the node.
    pub open spec fn view(&self) -> NodeView
        decreases self,
    {
        NodeView::Compound { children: views_of(self.children@) }
    }
}

impl AssignNode {
    /// The value of the node.
    pub open spec fn view(&self) -> NodeView
        decreases self,
    {
        NodeView::Assign {
            identifier: self.identifier.identifier@,
            expr: Box::new(self.expr.view()),
            operator: self.operator@,
        }
    }
}

impl VarNode {
    /// The value of the node.
    pub open spec fn view(&self) -> NodeView {
        NodeView::Var { identifier: self.identifier@ }
    }
}

impl NoOpNode {
    /// The value of the node.
    pub open spec fn view(&self) -> NodeView {
        NodeView::NoOp
    }
}

impl ProcedureNode {
    /// The value of the node.
    pub open spec fn view(&self) -> NodeView
        decreases self,
    {
        NodeView::Procedure {
            proc_name: self.proc_name@,
            params: views_of(self.params@),
            block: Box::new(self.block.view()),
        }
    }
}

impl IntegerNumNode {
    /// A node with the given parts.
    pub fn new(value: i32) -> (node: Self)
        ensures
            node.value == value,
    {
        IntegerNumNode { value }
    }
}

impl RealNumNode {
    /// A node with the given parts.
    pub fn new(value: String) -> (node: Self)
        ensures
            node.value == value,
    {
        RealNumNode { value }
    }
}

impl BinOpNode {
    /// A node with the given parts.
    pub fn new(left: Box<Node>, right: Box<Node>, operator: Token) -> (node: Self)
        ensures
            node.left == left,
            node.right == right,
            node.operator == operator,
    {
        BinOpNode { left, right, operator }
    }
}

impl UnaryOpNode {
    /// A node with the given parts.
    pub fn new(operator: Token, expr: Box<Node>) -> (node: Self)
        ensures
            node.operator == operator,
            node.expr == expr,
    {
        UnaryOpNode { operator, expr }
    }
}

impl CompoundNode {
    /// A node with the given parts.
    pub fn new(children: Vec<Box<Node>>) -> (node: Self)
        ensures
            node.children == children,
    {
        CompoundNode { children }
    }
}

impl AssignNode {
    /// A node with the given parts.
    pub fn new(identifier: VarNode, expr: Box<Node>, operator: Token) -> (node: Self)
        ensures
            node.identifier == identifier,
            node.expr == expr,
            node.operator == operator,
    {
        AssignNode { identifier, expr, operator }
    }
}

impl VarNode {
    /// A node with the given parts.
    pub fn new(identifier: Token) -> (node: Self)
        ensures
            node.identifier == identifier,
    {
        VarNode { identifier }
    }
}

impl Clone for VarNode {
    fn clone(&self) -> (copy: Self)
        ensures
            copy.identifier@ == self.identifier@,
    {
        VarNode { identifier: self.identifier.clone() }
    }
}

impl ProgramNode {
    /// A node with the given parts.
    pub fn new(identifier: Token, block: Box<Node>) -> (node: Self)
        ensures
            node.identifier == identifier,
            node.block == block,
    {
        ProgramNode { identifier, block }
    }
}

impl ProcedureNode {
    /// A node with the given parts.
    pub fn new(proc_name: Token, params: Vec<Box<Node>>, block: Box<Node>) -> (node: Self)
        ensures
            node.proc_name == proc_name,
            node.params == params,
            node.block == block,
    {
        ProcedureNode { proc_name, params, block }
    }
}

impl BlockNode {
    /// A node with the given parts.
    pub fn new(declarations: Vec<Box<Node>>, compound_statement: Box<Node>) -> (node: Self)
        ensures
            node.declarations == declarations,
            node.compound_statement == compound_statement,
    {
        BlockNode { declarations, compound_statement }
    }
}

impl DeclarationNode {
    /// A node with the given parts.
    pub fn new(var_node: VarNode, type_node: TypeNode) -> (node: Self)
        ensures
            node.var_node == var_node,
            node.type_node == type_node,
    {
        DeclarationNode { var_node, type_node }
    }
}

impl ParameterNode {
    /// A node with the given parts.
    pub fn new(var_node: VarNode, type_node: TypeNode) -> (node: Self)
        ensures
            node.var_node == var_node,
            node.type_node == type_node,
    {
        ParameterNode { var_node, type_node }
    }
}

impl TypeNode {
    /// A node with the given parts.
    pub fn new(token: Token) -> (node: Self)
        ensures
            node.token == token,
    {
        TypeNode { token }
    }
}

impl Clone for TypeNode {
    fn clone(&self) -> (copy: Self)
        ensures
            copy.token@ == self.token@,
    {
        TypeNode { token: self.token.clone() }
    }
}

} // verus!
