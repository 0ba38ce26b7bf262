//! The semantic pass: a walk over the tree that keeps the symbols of the
//! open scopes and rejects a name declared twice in one scope, and a
//! variable used where no open scope declares it.
//!
//! [`check`] defines the pass. [`TableBuilder`] performs it.
use vstd::prelude::*;
use crate::error::{SemanticError, SemanticErrorView};
use crate::grammar::{all_well_formed, well_formed};
use crate::node::{
    views_of, AssignNode, BinOpNode, BlockNode, CompoundNode, DeclarationNode, IntegerNumNode,
    NoOpNode, Node, NodeView, ParameterNode, ProcedureNode, ProgramNode, RealNumNode, TypeNode,
    UnaryOpNode, VarNode,
};
use crate::symbol::{builtin_symbols, Scope, Symbol, SymbolTable, SymbolView, Symbols};
use crate::token::{Token, TokenView};

verus! {

/// The outcome of checking a node: success or the first error, and the
/// open scopes afterwards, the innermost last.
pub ghost struct Checked {
    pub result: Result<(), SemanticErrorView>,
    pub scopes: Seq<Scope>,
}

/// The symbols of the scope that declarations go to.
pub open spec fn innermost(scopes: Seq<Scope>) -> Symbols {
    if scopes.len() > 0 {
        scopes.last().symbols
    } else {
        Map::empty()
    }
}

/// The scopes with `scope` in place of the innermost.
pub open spec fn replace_innermost(scopes: Seq<Scope>, scope: Scope) -> Seq<Scope> {
    if scopes.len() > 0 {
        scopes.update(scopes.len() - 1, scope)
    } else {
        seq![scope]
    }
}

/// The scopes with `symbols` as the symbols of the innermost.
pub open spec fn with_symbols(scopes: Seq<Scope>, symbols: Symbols) -> Seq<Scope> {
    if scopes.len() > 0 {
        scopes.update(
            scopes.len() - 1,
            Scope { name: scopes.last().name, level: scopes.last().level, symbols },
        )
    } else {
        scopes
    }
}

/// The nesting level of the innermost scope: the number of open scopes, as
/// far as 32 bits count.
pub open spec fn depth(scopes: Seq<Scope>) -> u32 {
    if scopes.len() < u32::MAX {
        scopes.len() as u32
    } else {
        u32::MAX
    }
}

/// The scope of a program at nesting level `level`: it is named
/// `Global Scope` and holds the built-in types.
pub open spec fn global_scope(level: u32) -> Scope {
    Scope { name: "Global Scope"@, level, symbols: builtin_symbols() }
}

/// The scopes after a procedure named `name` is entered: a new innermost
/// scope of that name, one level deeper, which holds the built-in types.
pub open spec fn enter(scopes: Seq<Scope>, name: Seq<char>) -> Seq<Scope> {
    scopes.push(
        Scope {
            name,
            level: if depth(scopes) < u32::MAX {
                (depth(scopes) + 1) as u32
            } else {
                u32::MAX
            },
            symbols: builtin_symbols(),
        },
    )
}

/// The scopes after a procedure is left. The outermost scope is never
/// closed.
pub open spec fn leave(scopes: Seq<Scope>) -> Seq<Scope> {
    if scopes.len() > 1 {
        scopes.drop_last()
    } else {
        scopes
    }
}

/// Whether some open scope holds `name`.
pub open spec fn declared(scopes: Seq<Scope>, name: Seq<char>) -> bool {
    exists|i: int| 0 <= i < scopes.len() && (#[trigger] scopes[i]).symbols.contains_key(name)
}

/// Declares a variable in the innermost scope. The name is the text of
/// `variable`; it must be new to that scope. The type is the built-in type
/// that the scope holds under the text of `type_spec`.
pub open spec fn declare(scopes: Seq<Scope>, variable: TokenView, type_spec: TokenView) -> Checked {
    let scope = innermost(scopes);
    let name = variable.text();
    let kind_name = type_spec.text();
    if scope.contains_key(name) {
        Checked { result: Err(SemanticErrorView::DuplicateDeclaration(name)), scopes }
    } else if scope.contains_key(kind_name) {
        match scope[kind_name] {
            SymbolView::BuiltInSymbol(kind) => Checked {
                result: Ok(()),
                scopes: with_symbols(
                    scopes,
                    scope.insert(name, SymbolView::VarSymbol(name, kind)),
                ),
            },
            SymbolView::VarSymbol(_, _) => Checked {
                result: Err(SemanticErrorView::UnknownType(kind_name)),
                scopes,
            },
        }
    } else {
        Checked { result: Err(SemanticErrorView::UnknownType(kind_name)), scopes }
    }
}

/// A use of the variable `identifier`: some open scope must declare it.
pub open spec fn reference(scopes: Seq<Scope>, identifier: TokenView) -> Checked {
    if declared(scopes, identifier.text()) {
        Checked { result: Ok(()), scopes }
    } else {
        Checked { result: Err(SemanticErrorView::UndeclaredVariable(identifier.text())), scopes }
    }
}

/// The semantic pass over `node`, with `scopes` open. It stops at the first
/// error.
///
/// A program starts its scope anew, as the global scope, with the built-in
/// types alone. A declaration and a parameter declare their variable. A
/// procedure opens a scope of its own name for its parameters and its
/// block and closes it when it is left, with or without an error. A variable, and the target of an assignment,
/// must be declared.
pub open spec fn check(node: NodeView, scopes: Seq<Scope>) -> Checked
    decreases node,
{
    match node {
        NodeView::Program { identifier, block } => check(
            *block,
            replace_innermost(scopes, global_scope(depth(scopes))),
        ),
        NodeView::Block { declarations, compound_statement } => {
            let declared = check_all(declarations, scopes, 0);
            if declared.result is Err {
                declared
            } else {
                check(*compound_statement, declared.scopes)
            }
        },
        NodeView::Declaration { variable, type_spec } => declare(scopes, variable, type_spec),
        NodeView::Parameter { variable, type_spec } => declare(scopes, variable, type_spec),
        NodeView::Procedure { proc_name, params, block } => {
            let with_params = check_all(params, enter(scopes, proc_name.text()), 0);
            if with_params.result is Err {
                Checked { result: with_params.result, scopes: leave(with_params.scopes) }
            } else {
                let body = check(*block, with_params.scopes);
                Checked { result: body.result, scopes: leave(body.scopes) }
            }
        },
        NodeView::BinOp { left, right, operator } => {
            let first = check(*left, scopes);
            if first.result is Err {
                first
            } else {
                check(*right, first.scopes)
            }
        },
        NodeView::UnaryOp { operator, expr } => check(*expr, scopes),
        NodeView::Compound { children } => check_all(children, scopes, 0),
        NodeView::Assign { identifier, expr, operator } => {
            let target = reference(scopes, identifier);
            if target.result is Err {
                target
            } else {
                check(*expr, scopes)
            }
        },
        NodeView::Var { identifier } => reference(scopes, identifier),
        NodeView::Type { token } => Checked { result: Ok(()), scopes },
        NodeView::Integer { value } => Checked { result: Ok(()), scopes },
        NodeView::Real { text } => Checked { result: Ok(()), scopes },
        NodeView::NoOp => Checked { result: Ok(()), scopes },
    }
}

/// The pass over `nodes[from..]`, in order.
pub open spec fn check_all(nodes: Seq<NodeView>, scopes: Seq<Scope>, from: int) -> Checked
    decreases nodes, nodes.len() - from,
{
    if 0 <= from < nodes.len() {
        let first = check(nodes[from], scopes);
        if first.result is Err {
            first
        } else {
            check_all(nodes, first.scopes, from + 1)
        }
    } else {
        Checked { result: Ok(()), scopes }
    }
}

/// Whether every scope holds the two built-in types under their names.
pub open spec fn seeded(scopes: Seq<Scope>) -> bool {
    forall|i: int|
        0 <= i < scopes.len() ==> {
            &&& (#[trigger] scopes[i]).symbols.contains_key(TokenView::Integer.text())
            &&& scopes[i].symbols[TokenView::Integer.text()] == SymbolView::BuiltInSymbol(
                TokenView::Integer,
            )
            &&& scopes[i].symbols.contains_key(TokenView::Real.text())
            &&& scopes[i].symbols[TokenView::Real.text()] == SymbolView::BuiltInSymbol(
                TokenView::Real,
            )
        }
}

/// Whether an outcome is the error of an unknown type.
pub open spec fn is_unknown_type(outcome: Checked) -> bool {
    outcome.result matches Err(SemanticErrorView::UnknownType(_))
}

/// A global scope holds the built-in types.
pub proof fn lemma_global_scope_seeded(level: u32)
    ensures
        seeded(seq![global_scope(level)]),
{
    reveal_strlit("INTEGER");
    reveal_strlit("REAL");
    assert("INTEGER"@.len() != "REAL"@.len());
}

/// In scopes that hold the built-in types, the semantic pass over a
/// well-formed tree never meets an unknown type. It leaves as many scopes
/// open as it found, and they hold the built-in types.
pub proof fn lemma_well_formed_types_are_known(node: NodeView, scopes: Seq<Scope>)
    requires
        well_formed(node),
        seeded(scopes),
        scopes.len() > 0,
    ensures
        !is_unknown_type(check(node, scopes)),
        seeded(check(node, scopes).scopes),
        check(node, scopes).scopes.len() == scopes.len(),
    decreases node,
{
    lemma_global_scope_seeded(depth(scopes));
    assert(seq![global_scope(depth(scopes))][0] == global_scope(depth(scopes)));
    match node {
        NodeView::Program { identifier, block } => {
            lemma_well_formed_types_are_known(
                *block,
                replace_innermost(scopes, global_scope(depth(scopes))),
            );
        },
        NodeView::Block { declarations, compound_statement } => {
            lemma_well_formed_list_types_are_known(declarations, scopes, 0);
            lemma_well_formed_types_are_known(
                *compound_statement,
                check_all(declarations, scopes, 0).scopes,
            );
        },
        NodeView::Procedure { proc_name, params, block } => {
            let inner = enter(scopes, proc_name.text());
            lemma_well_formed_list_types_are_known(params, inner, 0);
            lemma_well_formed_types_are_known(*block, check_all(params, inner, 0).scopes);
        },
        NodeView::BinOp { left, right, operator } => {
            lemma_well_formed_types_are_known(*left, scopes);
            lemma_well_formed_types_are_known(*right, check(*left, scopes).scopes);
        },
        NodeView::UnaryOp { operator, expr } => {
            lemma_well_formed_types_are_known(*expr, scopes);
        },
        NodeView::Compound { children } => {
            lemma_well_formed_list_types_are_known(children, scopes, 0);
        },
        NodeView::Assign { identifier, expr, operator } => {
            lemma_well_formed_types_are_known(*expr, scopes);
        },
        _ => {},
    }
}

/// As [`lemma_well_formed_types_are_known`], for the nodes of a list.
pub proof fn lemma_well_formed_list_types_are_known(
    nodes: Seq<NodeView>,
    scopes: Seq<Scope>,
    from: int,
)
    requires
        all_well_formed(nodes),
        seeded(scopes),
        scopes.len() > 0,
    ensures
        !is_unknown_type(check_all(nodes, scopes, from)),
        seeded(check_all(nodes, scopes, from).scopes),
        check_all(nodes, scopes, from).scopes.len() == scopes.len(),
    decreases nodes, nodes.len() - from,
{
    if 0 <= from < nodes.len() {
        lemma_well_formed_types_are_known(nodes[from], scopes);
        lemma_well_formed_list_types_are_known(nodes, check(nodes[from], scopes).scopes, from + 1);
    }
}

/// What a visit that ends with `result` and leaves `scopes` open has found.
pub open spec fn checked(result: Result<(), SemanticError>, scopes: Seq<Scope>) -> Checked {
    Checked {
        result: match result {
            Ok(_) => Ok(()),
            Err(error) => Err(error@),
        },
        scopes,
    }
}

/// The visitor that builds the symbol tables and checks the scoping rules.
pub struct TableBuilder {
    enclosing_scopes: Vec<SymbolTable>,
    current_scope: SymbolTable,
}

impl TableBuilder {
    /// The open scopes, the innermost last.
    pub closed spec fn view(&self) -> Seq<Scope> {
        Seq::new(
            self.enclosing_scopes@.len(),
            |i: int| self.enclosing_scopes@[i].scope(),
        ).push(self.current_scope.scope())
    }

    /// A builder with one open scope: the global scope, at level 1.
    pub fn new() -> (builder: Self)
        ensures
            builder@ == seq![global_scope(1)],
    {
        let builder = TableBuilder {
            enclosing_scopes: Vec::new(),
            current_scope: SymbolTable::new("Global Scope", 1),
        };
        assert(builder@ =~= seq![global_scope(1)]);
        builder
    }

    /// The innermost open scope.
    pub fn current_scope(&self) -> (table: &SymbolTable)
        ensures
            table.scope() == self@.last(),
    {
        &self.current_scope
    }

    /// The nesting level of the innermost scope.
    pub fn depth(&self) -> (level: u32)
        ensures
            level == depth(self@),
    {
        if self.enclosing_scopes.len() < 0xffff_fffe {
            self.enclosing_scopes.len() as u32 + 1
        } else {
            u32::MAX
        }
    }

    /// Whether some open scope holds `name`.
    pub fn is_declared(&self, name: &str) -> (found: bool)
        ensures
            found == declared(self@, name@),
    {
        if self.current_scope.lookup(name).is_some() {
            assert(self@[self@.len() - 1].symbols.contains_key(name@));
            return true;
        }
        let mut i: usize = 0;
        while i < self.enclosing_scopes.len()
            invariant
                i <= self.enclosing_scopes.len(),
                !self.current_scope@.contains_key(name@),
                forall|j: int| 0 <= j < i ==> !(#[trigger] self@[j]).symbols.contains_key(name@),
            decreases self.enclosing_scopes.len() - i,
        {
            if self.enclosing_scopes[i].lookup(name).is_some() {
                assert(self@[i as int].symbols.contains_key(name@));
                return true;
            }
            i += 1;
        }
        false
    }

    /// Declares a variable in the innermost scope.
    fn declare(&mut self, variable: &Token, type_spec: &Token) -> (result: Result<
        (),
        SemanticError,
    >)
        ensures
            checked(result, final(self)@) == declare(old(self)@, variable@, type_spec@),
    {
        let name = variable.to_string();
        let kind_name = type_spec.to_string();
        assert(innermost(self@) == self.current_scope@);
        if self.current_scope.lookup(name.as_str()).is_some() {
            return Err(SemanticError::DuplicateDeclaration(name));
        }
        match self.current_scope.lookup(kind_name.as_str()) {
            Some(Symbol::BuiltInSymbol(kind)) => {
                self.current_scope.insert(Symbol::VarSymbol(name, kind));
                assert(self@ =~= with_symbols(old(self)@, self.current_scope@));
                Ok(())
            },
            _ => Err(SemanticError::UnknownType(kind_name)),
        }
    }

    /// A use of the variable `identifier`.
    fn reference(&self, identifier: &Token) -> (result: Result<(), SemanticError>)
        ensures
            checked(result, self@) == reference(self@, identifier@),
    {
        let name = identifier.to_string();
        if self.is_declared(name.as_str()) {
            Ok(())
        } else {
            Err(SemanticError::UndeclaredVariable(name))
        }
    }

    /// Opens a scope named `name` inside the open ones.
    fn enter(&mut self, name: &str)
        ensures
            final(self)@ == enter(old(self)@, name@),
    {
        let depth = self.depth();
        let level = if depth < u32::MAX {
            depth + 1
        } else {
            u32::MAX
        };
        let mut scope = SymbolTable::new(name, level);
        std::mem::swap(&mut self.current_scope, &mut scope);
        self.enclosing_scopes.push(scope);
        assert(self@ =~= enter(old(self)@, name@));
    }

    /// Closes the innermost scope, unless it is the only one.
    fn leave(&mut self)
        ensures
            final(self)@ == leave(old(self)@),
    {
        match self.enclosing_scopes.pop() {
            Some(scope) => {
                self.current_scope = scope;
                assert(self@ =~= leave(old(self)@));
            },
            None => {},
        }
    }

    /// Checks the nodes of a list, in order.
    fn visit_all(&mut self, nodes: &Vec<Box<Node>>) -> (result: Result<(), SemanticError>)
        ensures
            checked(result, final(self)@) == check_all(views_of(nodes@), old(self)@, 0),
        decreases nodes,
    {
        let mut i: usize = 0;
        while i < nodes.len()
            invariant
                i <= nodes.len(),
                check_all(views_of(nodes@), self@, i as int) == check_all(
                    views_of(nodes@),
                    old(self)@,
                    0,
                ),
            decreases nodes.len() - i,
        {
            match self.visit(&nodes[i]) {
                Ok(()) => {},
                Err(error) => {
                    return Err(error);
                },
            }
            i += 1;
        }
        Ok(())
    }

    /// Checks `node`: dispatches on its kind.
    pub fn visit(&mut self, node: &Node) -> (result: Result<(), SemanticError>)
        ensures
            checked(result, final(self)@) == check(node@, old(self)@),
        decreases node,
    {
        match node {
            Node::Program(n) => self.visit_program(n),
            Node::Block(n) => self.visit_block(n),
            Node::Declaration(n) => self.visit_declaration(n),
            Node::Type(n) => self.visit_type(n),
            Node::Integer(n) => self.visit_integer(n),
            Node::Real(n) => self.visit_real(n),
            Node::BinOp(n) => self.visit_binop(n),
            Node::UnaryOp(n) => self.visit_unaryop(n),
            Node::Compound(n) => self.visit_compound(n),
            Node::Assign(n) => self.visit_assign(n),
            Node::Var(n) => self.visit_var(n),
            Node::NoOp(n) => self.visit_noop(n),
            Node::Procedure(n) => self.visit_procedure(n),
            Node::Parameter(n) => self.visit_parameter(n),
        }
    }

    /// Checks a program: starts the innermost scope anew, with the built-in
    /// types alone, and checks the block.
    pub fn visit_program(&mut self, node: &ProgramNode) -> (result: Result<(), SemanticError>)
        ensures
            checked(result, final(self)@) == check(node@, old(self)@),
        decreases node,
    {
        let level = self.depth();
        self.current_scope = SymbolTable::new("Global Scope", level);
        assert(self@ =~= replace_innermost(old(self)@, global_scope(level)));
        self.visit(&node.block)
    }

    /// Checks a block: its declarations, then its body.
    pub fn visit_block(&mut self, node: &BlockNode) -> (result: Result<(), SemanticError>)
        ensures
            checked(result, final(self)@) == check(node@, old(self)@),
        decreases node,
    {
        match self.visit_all(&node.declarations) {
            Ok(()) => {},
            Err(error) => {
                return Err(error);
            },
        }
        self.visit(&node.compound_statement)
    }

    /// Checks a procedure: opens a scope for it, declares its parameters,
    /// checks its block and closes the scope.
    pub fn visit_procedure(&mut self, node: &ProcedureNode) -> (result: Result<
        (),
        SemanticError,
    >)
        ensures
            checked(result, final(self)@) == check(node@, old(self)@),
        decreases node,
    {
        let proc_name = node.proc_name.to_string();
        self.enter(proc_name.as_str());
        let result = match self.visit_all(&node.params) {
            Ok(()) => self.visit(&node.block),
            Err(error) => Err(error),
        };
        self.leave();
        result
    }

    /// Checks a parameter: declares it in the innermost scope.
    pub fn visit_parameter(&mut self, node: &ParameterNode) -> (result: Result<
        (),
        SemanticError,
    >)
        ensures
            checked(result, final(self)@) == check(node@, old(self)@),
    {
        self.declare(&node.var_node.identifier, &node.type_node.token)
    }

    /// Checks a declaration: declares its variable in the innermost scope.
    pub fn visit_declaration(&mut self, node: &DeclarationNode) -> (result: Result<
        (),
        SemanticError,
    >)
        ensures
            checked(result, final(self)@) == check(node@, old(self)@),
    {
        self.declare(&node.var_node.identifier, &node.type_node.token)
    }

    /// Checks the name of a type: there is nothing to check.
    pub fn visit_type(&mut self, node: &TypeNode) -> (result: Result<(), SemanticError>)
        ensures
            checked(result, final(self)@) == check(node@, old(self)@),
    {
        Ok(())
    }

    /// Checks an integer literal: there is nothing to check.
    pub fn visit_integer(&mut self, node: &IntegerNumNode) -> (result: Result<(), SemanticError>)
        ensures
            checked(result, final(self)@) == check(node@, old(self)@),
    {
        Ok(())
    }

    /// Checks a real literal: there is nothing to check.
    pub fn visit_real(&mut self, node: &RealNumNode) -> (result: Result<(), SemanticError>)
        ensures
            checked(result, final(self)@) == check(node@, old(self)@),
    {
        Ok(())
    }

    /// Checks the empty statement: there is nothing to check.
    pub fn visit_noop(&mut self, node: &NoOpNode) -> (result: Result<(), SemanticError>)
        ensures
            checked(result, final(self)@) == check(node@, old(self)@),
    {
        Ok(())
    }

    /// Checks a binary operation: its left operand, then its right operand.
    pub fn visit_binop(&mut self, node: &BinOpNode) -> (result: Result<(), SemanticError>)
        ensures
            checked(result, final(self)@) == check(node@, old(self)@),
        decreases node,
    {
        match self.visit(&node.left) {
            Ok(()) => {},
            Err(error) => {
                return Err(error);
            },
        }
        self.visit(&node.right)
    }

    /// Checks a unary operation: its operand.
    pub fn visit_unaryop(&mut self, node: &UnaryOpNode) -> (result: Result<(), SemanticError>)
        ensures
            checked(result, final(self)@) == check(node@, old(self)@),
        decreases node,
    {
        self.visit(&node.expr)
    }

    /// Checks a compound statement: its children, in order.
    pub fn visit_compound(&mut self, node: &CompoundNode) -> (result: Result<(), SemanticError>)
        ensures
            checked(result, final(self)@) == check(node@, old(self)@),
        decreases node,
    {
        self.visit_all(&node.children)
    }

    /// Checks an assignment: its target must be declared; then its
    /// expression is checked.
    pub fn visit_assign(&mut self, node: &AssignNode) -> (result: Result<(), SemanticError>)
        ensures
            checked(result, final(self)@) == check(node@, old(self)@),
        decreases node,
    {
        match self.reference(&node.identifier.identifier) {
            Ok(()) => {},
            Err(error) => {
                return Err(error);
            },
        }
        self.visit(&node.expr)
    }

    /// Checks a variable: it must be declared.
    pub fn visit_var(&mut self, node: &VarNode) -> (result: Result<(), SemanticError>)
        ensures
            checked(result, final(self)@) == check(node@, old(self)@),
    {
        self.reference(&node.identifier)
    }
}

} // verus!
