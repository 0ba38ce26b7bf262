//! The grammar of the language, as functions from a stream of lexemes to
//! the tree it derives and the lexemes left over.
//!
//! ```text
//! program        := "PROGRAM" variable ";" block "."
//! block          := declarations compound_statement
//! declarations   := ("VAR" (var_decl ";")+)? proc_decl*
//! proc_decl      := "PROCEDURE" ID ("(" formal_params ")")? ";" block ";"
//! formal_params  := param (";" param)*
//! param          := ID ("," ID)* ":" type_spec
//! var_decl       := ID ("," ID)* ":" type_spec
//! type_spec      := "INTEGER" | "REAL"
//! compound_stmt  := "BEGIN" stmt_list "END"
//! stmt_list      := statement (";" statement)*
//! statement      := compound_stmt | assignment | empty
//! assignment     := variable ":=" expr
//! expr           := term (("+"|"-") term)*
//! term           := factor (("*"|"DIV"|"/") factor)*
//! factor         := ("+"|"-") factor | INT_CONST | REAL_CONST | "(" expr ")" | variable
//! variable       := ID
//! ```
//!
//! A stream is read from its head. Past its end, and at a terminal lexeme,
//! it never moves: the end of input and a lexical error repeat for ever. A
//! lexical error at the head of the stream fails every rule that looks at
//! the head.
use vstd::prelude::*;
use crate::error::{InterpretErrorView, ParseErrorView};
use crate::lexer::{is_terminal, LexError, Lexeme};
use crate::node::NodeView;
use crate::text::integer_value;
use crate::token::TokenView;

verus! {

/// The lexemes of a text that are still to be read, the next one first.
pub type Stream = Seq<Lexeme>;

/// Why a rule derives nothing: the first error, and the stream at which it
/// was met.
pub ghost struct Failure {
    pub error: InterpretErrorView,
    pub at: Stream,
}

/// What a rule derives: a value and the rest of the stream, or a failure.
pub type Parsed<T> = Result<(T, Stream), Failure>;

/// The lexeme a rule looks at.
pub open spec fn head(ts: Stream) -> Lexeme {
    if ts.len() > 0 {
        ts[0]
    } else {
        Ok(TokenView::EOF)
    }
}

/// The stream after its head is consumed.
pub open spec fn tail(ts: Stream) -> Stream {
    if ts.len() > 0 && !is_terminal(ts[0]) {
        ts.drop_first()
    } else {
        ts
    }
}

/// The error of a rule that met `found` in place of `expected`.
pub open spec fn unexpected(expected: TokenView, found: TokenView) -> InterpretErrorView {
    InterpretErrorView::Parse(ParseErrorView { expected, found })
}

/// The failure of a rule that met `found` in place of `expected` at the
/// head of `ts`.
pub open spec fn mismatch(ts: Stream, expected: TokenView, found: TokenView) -> Failure {
    Failure { error: unexpected(expected, found), at: ts }
}

/// The failure of a rule that met a lexical error at the head of `ts`.
pub open spec fn lexical(ts: Stream, error: LexError) -> Failure {
    Failure { error: InterpretErrorView::Lex(error), at: ts }
}

/// The value of a rule whose recursion would not shorten the stream. No
/// stream reaches it: every rule that succeeds after consuming a token
/// leaves a shorter stream.
pub open spec fn stalled(ts: Stream) -> Failure {
    mismatch(ts, TokenView::EOF, TokenView::EOF)
}

/// Consumes the head if it is `wanted`.
pub open spec fn expect(ts: Stream, wanted: TokenView) -> Result<Stream, Failure> {
    match head(ts) {
        Err(error) => Err(lexical(ts, error)),
        Ok(found) => if found == wanted {
            Ok(tail(ts))
        } else {
            Err(mismatch(ts, wanted, found))
        },
    }
}

/// `variable := ID`. The value is the identifier token.
pub open spec fn variable(ts: Stream) -> Parsed<TokenView> {
    match head(ts) {
        Err(error) => Err(lexical(ts, error)),
        Ok(TokenView::Id(name)) => Ok((TokenView::Id(name), tail(ts))),
        Ok(found) => Err(mismatch(ts, TokenView::Id(Seq::empty()), found)),
    }
}

/// `type_spec := "INTEGER" | "REAL"`. The value is the type's token.
pub open spec fn type_spec(ts: Stream) -> Parsed<TokenView> {
    match head(ts) {
        Err(error) => Err(lexical(ts, error)),
        Ok(TokenView::Integer) => Ok((TokenView::Integer, tail(ts))),
        Ok(TokenView::Real) => Ok((TokenView::Real, tail(ts))),
        Ok(found) => Err(mismatch(ts, TokenView::Integer, found)),
    }
}

/// `ID ("," ID)*`.
pub open spec fn identifiers(ts: Stream) -> Parsed<Seq<TokenView>>
    decreases ts.len(),
{
    match variable(ts) {
        Err(error) => Err(error),
        Ok((first, rest)) => if head(rest) == Ok::<TokenView, LexError>(TokenView::Comma) {
            if tail(rest).len() < ts.len() {
                match identifiers(tail(rest)) {
                    Err(error) => Err(error),
                    Ok((others, rest)) => Ok((seq![first] + others, rest)),
                }
            } else {
                Err(stalled(ts))
            }
        } else {
            Ok((seq![first], rest))
        },
    }
}

/// `ID ("," ID)* ":" type_spec`. The value is the names and the type.
pub open spec fn typed_names(ts: Stream) -> Parsed<(Seq<TokenView>, TokenView)> {
    match identifiers(ts) {
        Err(error) => Err(error),
        Ok((names, rest)) => match expect(rest, TokenView::Colon) {
            Err(error) => Err(error),
            Ok(rest) => match type_spec(rest) {
                Err(error) => Err(error),
                Ok((type_token, rest)) => Ok(((names, type_token), rest)),
            },
        },
    }
}

/// One declaration node for each name, all of one type.
pub open spec fn declaration_nodes(names: Seq<TokenView>, type_spec: TokenView) -> Seq<NodeView> {
    Seq::new(names.len(), |i: int| NodeView::Declaration { variable: names[i], type_spec })
}

/// One parameter node for each name, all of one type.
pub open spec fn parameter_nodes(names: Seq<TokenView>, type_spec: TokenView) -> Seq<NodeView> {
    Seq::new(names.len(), |i: int| NodeView::Parameter { variable: names[i], type_spec })
}

/// `var_decl := ID ("," ID)* ":" type_spec`.
pub open spec fn variable_declaration(ts: Stream) -> Parsed<Seq<NodeView>> {
    match typed_names(ts) {
        Err(error) => Err(error),
        Ok(((names, type_token), rest)) => Ok((declaration_nodes(names, type_token), rest)),
    }
}

/// `param := ID ("," ID)* ":" type_spec`.
pub open spec fn formal_parameters(ts: Stream) -> Parsed<Seq<NodeView>> {
    match typed_names(ts) {
        Err(error) => Err(error),
        Ok(((names, type_token), rest)) => Ok((parameter_nodes(names, type_token), rest)),
    }
}

/// `formal_params := param (";" param)*`.
pub open spec fn formal_parameter_list(ts: Stream) -> Parsed<Seq<NodeView>>
    decreases ts.len(),
{
    match formal_parameters(ts) {
        Err(error) => Err(error),
        Ok((first, rest)) => if head(rest) == Ok::<TokenView, LexError>(TokenView::Semi) {
            if tail(rest).len() < ts.len() {
                match formal_parameter_list(tail(rest)) {
                    Err(error) => Err(error),
                    Ok((others, rest)) => Ok((first + others, rest)),
                }
            } else {
                Err(stalled(ts))
            }
        } else {
            Ok((first, rest))
        },
    }
}

/// `(var_decl ";")+`: declarations go on while an identifier follows.
pub open spec fn variable_declarations(ts: Stream) -> Parsed<Seq<NodeView>>
    decreases ts.len(),
{
    match variable_declaration(ts) {
        Err(error) => Err(error),
        Ok((first, rest)) => match expect(rest, TokenView::Semi) {
            Err(error) => Err(error),
            Ok(rest) => if head(rest) matches Ok(TokenView::Id(_)) {
                if rest.len() < ts.len() {
                    match variable_declarations(rest) {
                        Err(error) => Err(error),
                        Ok((others, rest)) => Ok((first + others, rest)),
                    }
                } else {
                    Err(stalled(ts))
                }
            } else {
                Ok((first, rest))
            },
        },
    }
}

/// `variable`, as a node.
pub open spec fn variable_node(ts: Stream) -> Parsed<NodeView> {
    match variable(ts) {
        Err(error) => Err(error),
        Ok((identifier, rest)) => Ok((NodeView::Var { identifier }, rest)),
    }
}

/// Whether a token is `+` or `-`.
pub open spec fn is_additive(token: TokenView) -> bool {
    token == TokenView::Plus || token == TokenView::Minus
}

/// Whether a token is `*`, `DIV` or `/`.
pub open spec fn is_multiplicative(token: TokenView) -> bool {
    token == TokenView::Multiply || token == TokenView::IntegerDivision || token
        == TokenView::RealDivision
}

/// `expr := term (("+"|"-") term)*`, left associative.
pub open spec fn expr(ts: Stream) -> Parsed<NodeView>
    decreases ts.len(), 4int,
{
    match term(ts) {
        Err(error) => Err(error),
        Ok((left, rest)) => if rest.len() <= ts.len() {
            expr_rest(left, rest)
        } else {
            Err(stalled(ts))
        },
    }
}

/// `(("+"|"-") term)*` after the operand `left`.
pub open spec fn expr_rest(left: NodeView, ts: Stream) -> Parsed<NodeView>
    decreases ts.len(), 3int,
{
    match head(ts) {
        Ok(operator) => if is_additive(operator) {
            match term(tail(ts)) {
                Err(error) => Err(error),
                Ok((right, rest)) => if rest.len() < ts.len() {
                    expr_rest(
                        NodeView::BinOp { left: Box::new(left), right: Box::new(right), operator },
                        rest,
                    )
                } else {
                    Err(stalled(ts))
                },
            }
        } else {
            Ok((left, ts))
        },
        Err(_) => Ok((left, ts)),
    }
}

/// `term := factor (("*"|"DIV"|"/") factor)*`, left associative.
pub open spec fn term(ts: Stream) -> Parsed<NodeView>
    decreases ts.len(), 2int,
{
    match factor(ts) {
        Err(error) => Err(error),
        Ok((left, rest)) => if rest.len() <= ts.len() {
            term_rest(left, rest)
        } else {
            Err(stalled(ts))
        },
    }
}

/// `(("*"|"DIV"|"/") factor)*` after the operand `left`.
pub open spec fn term_rest(left: NodeView, ts: Stream) -> Parsed<NodeView>
    decreases ts.len(), 1int,
{
    match head(ts) {
        Ok(operator) => if is_multiplicative(operator) {
            match factor(tail(ts)) {
                Err(error) => Err(error),
                Ok((right, rest)) => if rest.len() < ts.len() {
                    term_rest(
                        NodeView::BinOp { left: Box::new(left), right: Box::new(right), operator },
                        rest,
                    )
                } else {
                    Err(stalled(ts))
                },
            }
        } else {
            Ok((left, ts))
        },
        Err(_) => Ok((left, ts)),
    }
}

/// `factor := ("+"|"-") factor | INT_CONST | REAL_CONST | "(" expr ")" |
/// variable`. An integer constant must denote a number that fits.
pub open spec fn factor(ts: Stream) -> Parsed<NodeView>
    decreases ts.len(), 0int,
{
    match head(ts) {
        Err(error) => Err(lexical(ts, error)),
        Ok(TokenView::Plus) => match factor(tail(ts)) {
            Err(error) => Err(error),
            Ok((operand, rest)) => Ok(
                (NodeView::UnaryOp { operator: TokenView::Plus, expr: Box::new(operand) }, rest),
            ),
        },
        Ok(TokenView::Minus) => match factor(tail(ts)) {
            Err(error) => Err(error),
            Ok((operand, rest)) => Ok(
                (NodeView::UnaryOp { operator: TokenView::Minus, expr: Box::new(operand) }, rest),
            ),
        },
        Ok(TokenView::IntegerConst(text)) => match integer_value(text) {
            Some(value) => Ok((NodeView::Integer { value }, tail(ts))),
            None => Err(
                mismatch(
                    ts,
                    TokenView::IntegerConst(Seq::empty()),
                    TokenView::IntegerConst(text),
                ),
            ),
        },
        Ok(TokenView::RealConst(text)) => Ok((NodeView::Real { text }, tail(ts))),
        Ok(TokenView::LParen) => match expr(tail(ts)) {
            Err(error) => Err(error),
            Ok((inner, rest)) => match expect(rest, TokenView::RParen) {
                Err(error) => Err(error),
                Ok(rest) => Ok((inner, rest)),
            },
        },
        Ok(_) => variable_node(ts),
    }
}

/// `assignment := variable ":=" expr`.
pub open spec fn assignment_statement(ts: Stream) -> Parsed<NodeView> {
    match variable(ts) {
        Err(error) => Err(error),
        Ok((identifier, rest)) => match expect(rest, TokenView::Assign) {
            Err(error) => Err(error),
            Ok(rest) => match expr(rest) {
                Err(error) => Err(error),
                Ok((value, rest)) => Ok(
                    (
                        NodeView::Assign {
                            identifier,
                            expr: Box::new(value),
                            operator: TokenView::Assign,
                        },
                        rest,
                    ),
                ),
            },
        },
    }
}

/// `compound_stmt := "BEGIN" stmt_list "END"`.
pub open spec fn compound_statement(ts: Stream) -> Parsed<NodeView>
    decreases ts.len(), 0int,
{
    match expect(ts, TokenView::Begin) {
        Err(error) => Err(error),
        Ok(rest) => if rest.len() < ts.len() {
            match statement_list(rest) {
                Err(error) => Err(error),
                Ok((children, rest)) => match expect(rest, TokenView::End) {
                    Err(error) => Err(error),
                    Ok(rest) => Ok((NodeView::Compound { children }, rest)),
                },
            }
        } else {
            Err(stalled(ts))
        },
    }
}

/// `stmt_list := statement (";" statement)*`. An identifier right after
/// the list stands where a `;` is missing.
pub open spec fn statement_list(ts: Stream) -> Parsed<Seq<NodeView>>
    decreases ts.len(), 3int,
{
    match statements(ts) {
        Err(error) => Err(error),
        Ok((children, rest)) => match head(rest) {
            Ok(TokenView::Id(name)) => Err(mismatch(rest, TokenView::Semi, TokenView::Id(name))),
            _ => Ok((children, rest)),
        },
    }
}

/// `statement (";" statement)*`.
pub open spec fn statements(ts: Stream) -> Parsed<Seq<NodeView>>
    decreases ts.len(), 2int,
{
    match statement(ts) {
        Err(error) => Err(error),
        Ok((first, rest)) => if head(rest) == Ok::<TokenView, LexError>(TokenView::Semi) {
            if tail(rest).len() < ts.len() {
                match statements(tail(rest)) {
                    Err(error) => Err(error),
                    Ok((others, rest)) => Ok((seq![first] + others, rest)),
                }
            } else {
                Err(stalled(ts))
            }
        } else {
            Ok((seq![first], rest))
        },
    }
}

/// `statement := compound_stmt | assignment | empty`.
pub open spec fn statement(ts: Stream) -> Parsed<NodeView>
    decreases ts.len(), 1int,
{
    match head(ts) {
        Err(error) => Err(lexical(ts, error)),
        Ok(TokenView::Begin) => compound_statement(ts),
        Ok(TokenView::Id(_)) => assignment_statement(ts),
        Ok(_) => Ok((NodeView::NoOp, ts)),
    }
}

/// `block := declarations compound_statement`.
pub open spec fn block(ts: Stream) -> Parsed<NodeView>
    decreases ts.len(), 3int,
{
    match declarations(ts) {
        Err(error) => Err(error),
        Ok((declarations, rest)) => match compound_statement(rest) {
            Err(error) => Err(error),
            Ok((body, rest)) => Ok(
                (NodeView::Block { declarations, compound_statement: Box::new(body) }, rest),
            ),
        },
    }
}

/// `declarations := ("VAR" (var_decl ";")+)? proc_decl*`.
pub open spec fn declarations(ts: Stream) -> Parsed<Seq<NodeView>>
    decreases ts.len(), 2int,
{
    if head(ts) == Ok::<TokenView, LexError>(TokenView::Var) {
        match variable_declarations(tail(ts)) {
            Err(error) => Err(error),
            Ok((variables, rest)) => if rest.len() <= ts.len() {
                match procedures(rest) {
                    Err(error) => Err(error),
                    Ok((procedures, rest)) => Ok((variables + procedures, rest)),
                }
            } else {
                Err(stalled(ts))
            },
        }
    } else {
        procedures(ts)
    }
}

/// `proc_decl*`.
pub open spec fn procedures(ts: Stream) -> Parsed<Seq<NodeView>>
    decreases ts.len(), 1int,
{
    if head(ts) == Ok::<TokenView, LexError>(TokenView::Procedure) {
        match procedure_declaration(ts) {
            Err(error) => Err(error),
            Ok((first, rest)) => if rest.len() < ts.len() {
                match procedures(rest) {
                    Err(error) => Err(error),
                    Ok((others, rest)) => Ok((seq![first] + others, rest)),
                }
            } else {
                Err(stalled(ts))
            },
        }
    } else {
        Ok((Seq::empty(), ts))
    }
}

/// `("(" formal_params ")")?`.
pub open spec fn optional_parameters(ts: Stream) -> Parsed<Seq<NodeView>> {
    if head(ts) == Ok::<TokenView, LexError>(TokenView::LParen) {
        match formal_parameter_list(tail(ts)) {
            Err(error) => Err(error),
            Ok((params, rest)) => match expect(rest, TokenView::RParen) {
                Err(error) => Err(error),
                Ok(rest) => Ok((params, rest)),
            },
        }
    } else {
        Ok((Seq::empty(), ts))
    }
}

/// `"PROCEDURE" ID ("(" formal_params ")")? ";"`: the name and the
/// parameters of a procedure.
pub open spec fn procedure_heading(ts: Stream) -> Parsed<(TokenView, Seq<NodeView>)> {
    match expect(ts, TokenView::Procedure) {
        Err(error) => Err(error),
        Ok(rest) => match variable(rest) {
            Err(error) => Err(error),
            Ok((proc_name, rest)) => match optional_parameters(rest) {
                Err(error) => Err(error),
                Ok((params, rest)) => match expect(rest, TokenView::Semi) {
                    Err(error) => Err(error),
                    Ok(rest) => Ok(((proc_name, params), rest)),
                },
            },
        },
    }
}

/// `proc_decl := "PROCEDURE" ID ("(" formal_params ")")? ";" block ";"`.
pub open spec fn procedure_declaration(ts: Stream) -> Parsed<NodeView>
    decreases ts.len(), 0int,
{
    match procedure_heading(ts) {
        Err(error) => Err(error),
        Ok(((proc_name, params), rest)) => if rest.len() < ts.len() {
            match block(rest) {
                Err(error) => Err(error),
                Ok((body, rest)) => match expect(rest, TokenView::Semi) {
                    Err(error) => Err(error),
                    Ok(rest) => Ok(
                        (NodeView::Procedure { proc_name, params, block: Box::new(body) }, rest),
                    ),
                },
            }
        } else {
            Err(stalled(ts))
        },
    }
}

/// `program := "PROGRAM" variable ";" block "."`.
pub open spec fn program(ts: Stream) -> Parsed<NodeView> {
    match expect(ts, TokenView::Program) {
        Err(error) => Err(error),
        Ok(rest) => match variable(rest) {
            Err(error) => Err(error),
            Ok((identifier, rest)) => match expect(rest, TokenView::Semi) {
                Err(error) => Err(error),
                Ok(rest) => match block(rest) {
                    Err(error) => Err(error),
                    Ok((body, rest)) => match expect(rest, TokenView::Period) {
                        Err(error) => Err(error),
                        Ok(rest) => Ok(
                            (NodeView::Program { identifier, block: Box::new(body) }, rest),
                        ),
                    },
                },
            },
        },
    }
}

/// What `rule` derived, if the stream ends after it.
pub open spec fn to_the_end(rule: Parsed<NodeView>) -> Parsed<NodeView> {
    match rule {
        Err(failure) => Err(failure),
        Ok((root, rest)) => match expect(rest, TokenView::EOF) {
            Err(failure) => Err(failure),
            Ok(rest) => Ok((root, rest)),
        },
    }
}

/// The tree that a rule derived, or its error.
pub open spec fn outcome(rule: Parsed<NodeView>) -> Result<NodeView, InterpretErrorView> {
    match rule {
        Err(failure) => Err(failure.error),
        Ok((root, _)) => Ok(root),
    }
}

/// The tree of a stream that holds one expression, and nothing after it.
pub open spec fn expression(ts: Stream) -> Result<NodeView, InterpretErrorView> {
    outcome(to_the_end(expr(ts)))
}

/// The tree of a whole stream: one program, and nothing after it.
pub open spec fn parse(ts: Stream) -> Result<NodeView, InterpretErrorView> {
    outcome(to_the_end(program(ts)))
}

/// Whether a tree has the form of the trees that the grammar derives:
/// names are identifiers, types are `INTEGER` or `REAL`, a binary operator
/// is one of `+ - * DIV /`, a unary operator is `+` or `-`, and an
/// assignment holds `:=`.
pub open spec fn well_formed(node: NodeView) -> bool
    decreases node,
{
    match node {
        NodeView::Program { identifier, block } => identifier is Id && well_formed(*block),
        NodeView::Block { declarations, compound_statement } => all_well_formed(declarations)
            && well_formed(*compound_statement),
        NodeView::Declaration { variable, type_spec } => variable is Id && (type_spec
            == TokenView::Integer || type_spec == TokenView::Real),
        NodeView::Parameter { variable, type_spec } => variable is Id && (type_spec
            == TokenView::Integer || type_spec == TokenView::Real),
        NodeView::Type { token } => token == TokenView::Integer || token == TokenView::Real,
        NodeView::Integer { value } => value >= 0,
        NodeView::Real { text } => true,
        NodeView::BinOp { left, right, operator } => (is_additive(operator) || is_multiplicative(
            operator,
        )) && well_formed(*left) && well_formed(*right),
        NodeView::UnaryOp { operator, expr } => is_additive(operator) && well_formed(*expr),
        NodeView::Compound { children } => all_well_formed(children),
        NodeView::Assign { identifier, expr, operator } => identifier is Id && operator
            == TokenView::Assign && well_formed(*expr),
        NodeView::Var { identifier } => identifier is Id,
        NodeView::NoOp => true,
        NodeView::Procedure { proc_name, params, block } => proc_name is Id && all_well_formed(
            params,
        ) && well_formed(*block),
    }
}

/// Whether every tree of a list is well formed.
pub open spec fn all_well_formed(nodes: Seq<NodeView>) -> bool
    decreases nodes,
{
    forall|i: int| 0 <= i < nodes.len() ==> well_formed(#[trigger] nodes[i])
}

/// Whether a rule went forward: in success it left a stream no longer than
/// the one it read, and its failure is not that of a stalled recursion.
pub open spec fn steady<T>(parsed: Parsed<T>, ts: Stream) -> bool {
    match parsed {
        Ok((_, rest)) => rest.len() <= ts.len(),
        Err(failure) => failure.error != stalled(ts).error,
    }
}

/// Whether a rule that succeeded consumed a token.
pub open spec fn moves<T>(parsed: Parsed<T>, ts: Stream) -> bool {
    parsed matches Ok((_, rest)) ==> rest.len() < ts.len()
}

/// What a rule derived is well formed.
pub open spec fn derives_well_formed(parsed: Parsed<NodeView>) -> bool {
    parsed matches Ok((node, _)) ==> well_formed(node)
}

/// What a rule for a list derived is well formed.
pub open spec fn derives_all_well_formed(parsed: Parsed<Seq<NodeView>>) -> bool {
    parsed matches Ok((nodes, _)) ==> all_well_formed(nodes)
}

/// The rule `factor` goes forward, and what it derives is well formed.
pub proof fn lemma_factor_derivation(ts: Stream)
    ensures
        steady(factor(ts), ts),
        derives_well_formed(factor(ts)),
    decreases ts.len(), 0int,
{
    match head(ts) {
        Ok(TokenView::Plus) => {
            lemma_factor_derivation(tail(ts));
        },
        Ok(TokenView::Minus) => {
            lemma_factor_derivation(tail(ts));
        },
        Ok(TokenView::LParen) => {
            lemma_expr_derivation(tail(ts));
        },
        _ => {},
    }
}

/// The rest of a term after a well-formed operand goes forward, and what
/// it derives is well formed.
pub proof fn lemma_term_rest_derivation(left: NodeView, ts: Stream)
    requires
        well_formed(left),
    ensures
        steady(term_rest(left, ts), ts),
        derives_well_formed(term_rest(left, ts)),
    decreases ts.len(), 1int,
{
    if let Ok(operator) = head(ts) {
        if is_multiplicative(operator) {
            lemma_factor_derivation(tail(ts));
            if let Ok((right, rest)) = factor(tail(ts)) {
                if rest.len() < ts.len() {
                    lemma_term_rest_derivation(
                        NodeView::BinOp { left: Box::new(left), right: Box::new(right), operator },
                        rest,
                    );
                }
            }
        }
    }
}

/// The rule `term` goes forward, and what it derives is well formed.
pub proof fn lemma_term_derivation(ts: Stream)
    ensures
        steady(term(ts), ts),
        derives_well_formed(term(ts)),
    decreases ts.len(), 2int,
{
    lemma_factor_derivation(ts);
    if let Ok((left, rest)) = factor(ts) {
        if rest.len() <= ts.len() {
            lemma_term_rest_derivation(left, rest);
        }
    }
}

/// The rest of an expression after a well-formed operand goes forward,
/// and what it derives is well formed.
pub proof fn lemma_expr_rest_derivation(left: NodeView, ts: Stream)
    requires
        well_formed(left),
    ensures
        steady(expr_rest(left, ts), ts),
        derives_well_formed(expr_rest(left, ts)),
    decreases ts.len(), 3int,
{
    if let Ok(operator) = head(ts) {
        if is_additive(operator) {
            lemma_term_derivation(tail(ts));
            if let Ok((right, rest)) = term(tail(ts)) {
                if rest.len() < ts.len() {
                    lemma_expr_rest_derivation(
                        NodeView::BinOp { left: Box::new(left), right: Box::new(right), operator },
                        rest,
                    );
                }
            }
        }
    }
}

/// The rule `expr` goes forward, and what it derives is well formed.
pub proof fn lemma_expr_derivation(ts: Stream)
    ensures
        steady(expr(ts), ts),
        derives_well_formed(expr(ts)),
    decreases ts.len(), 4int,
{
    lemma_term_derivation(ts);
    if let Ok((left, rest)) = term(ts) {
        if rest.len() <= ts.len() {
            lemma_expr_rest_derivation(left, rest);
        }
    }
}

/// The rule `compound_stmt` goes forward, and what it derives is well formed.
pub proof fn lemma_compound_statement_derivation(ts: Stream)
    ensures
        steady(compound_statement(ts), ts),
        moves(compound_statement(ts), ts),
        derives_well_formed(compound_statement(ts)),
    decreases ts.len(), 0int,
{
    if let Ok(rest) = expect(ts, TokenView::Begin) {
        if rest.len() < ts.len() {
            lemma_statement_list_derivation(rest);
        }
    }
}

/// The rule `stmt_list` goes forward, and what it derives is well formed.
pub proof fn lemma_statement_list_derivation(ts: Stream)
    ensures
        steady(statement_list(ts), ts),
        derives_all_well_formed(statement_list(ts)),
    decreases ts.len(), 3int,
{
    lemma_statements_derivation(ts);
}

/// The rule `statement (";" statement)*` goes forward, and what it derives is well formed.
pub proof fn lemma_statements_derivation(ts: Stream)
    ensures
        steady(statements(ts), ts),
        derives_all_well_formed(statements(ts)),
    decreases ts.len(), 2int,
{
    lemma_statement_derivation(ts);
    if let Ok((first, rest)) = statement(ts) {
        if head(rest) == Ok::<TokenView, LexError>(TokenView::Semi) && tail(rest).len()
            < ts.len() {
            lemma_statements_derivation(tail(rest));
        }
    }
}

/// The rule `statement` goes forward, and what it derives is well formed.
pub proof fn lemma_statement_derivation(ts: Stream)
    ensures
        steady(statement(ts), ts),
        derives_well_formed(statement(ts)),
    decreases ts.len(), 1int,
{
    match head(ts) {
        Ok(TokenView::Begin) => {
            lemma_compound_statement_derivation(ts);
        },
        Ok(TokenView::Id(_)) => {
            if let Ok((identifier, rest)) = variable(ts) {
                if let Ok(rest) = expect(rest, TokenView::Assign) {
                    lemma_expr_derivation(rest);
                }
            }
        },
        _ => {},
    }
}

/// The rule `ID ("," ID)*` consumes a token, and the tokens it derives
/// are identifiers.
pub proof fn lemma_identifiers_are_identifiers(ts: Stream)
    ensures
        steady(identifiers(ts), ts),
        moves(identifiers(ts), ts),
        identifiers(ts) matches Ok((names, _)) ==> forall|i: int|
            0 <= i < names.len() ==> #[trigger] names[i] is Id,
    decreases ts.len(),
{
    if let Ok((first, rest)) = variable(ts) {
        if head(rest) == Ok::<TokenView, LexError>(TokenView::Comma) && tail(rest).len()
            < ts.len() {
            lemma_identifiers_are_identifiers(tail(rest));
        }
    }
}

/// The rules `var_decl` and `param` consume a token, and what they derive
/// is well formed.
pub proof fn lemma_variable_declaration_derivation(ts: Stream)
    ensures
        steady(variable_declaration(ts), ts),
        moves(variable_declaration(ts), ts),
        steady(formal_parameters(ts), ts),
        moves(formal_parameters(ts), ts),
        derives_all_well_formed(variable_declaration(ts)),
        derives_all_well_formed(formal_parameters(ts)),
{
    lemma_identifiers_are_identifiers(ts);
}

/// The rule `(var_decl ";")+` goes forward, and what it derives is well formed.
pub proof fn lemma_variable_declarations_derivation(ts: Stream)
    ensures
        steady(variable_declarations(ts), ts),
        moves(variable_declarations(ts), ts),
        derives_all_well_formed(variable_declarations(ts)),
    decreases ts.len(),
{
    lemma_variable_declaration_derivation(ts);
    if let Ok((first, rest)) = variable_declaration(ts) {
        if let Ok(rest) = expect(rest, TokenView::Semi) {
            if head(rest) matches Ok(TokenView::Id(_)) && rest.len() < ts.len() {
                lemma_variable_declarations_derivation(rest);
            }
        }
    }
}

/// The rule `formal_params` goes forward, and what it derives is well formed.
pub proof fn lemma_formal_parameter_list_derivation(ts: Stream)
    ensures
        steady(formal_parameter_list(ts), ts),
        derives_all_well_formed(formal_parameter_list(ts)),
    decreases ts.len(),
{
    lemma_variable_declaration_derivation(ts);
    if let Ok((first, rest)) = formal_parameters(ts) {
        if head(rest) == Ok::<TokenView, LexError>(TokenView::Semi) && tail(rest).len()
            < ts.len() {
            lemma_formal_parameter_list_derivation(tail(rest));
        }
    }
}

/// The rule `block` goes forward, and what it derives is well formed.
pub proof fn lemma_block_derivation(ts: Stream)
    ensures
        steady(block(ts), ts),
        derives_well_formed(block(ts)),
    decreases ts.len(), 3int,
{
    lemma_declarations_derivation(ts);
    if let Ok((declarations, rest)) = declarations(ts) {
        lemma_compound_statement_derivation(rest);
    }
}

/// The rule `declarations` goes forward, and what it derives is well formed.
pub proof fn lemma_declarations_derivation(ts: Stream)
    ensures
        steady(declarations(ts), ts),
        derives_all_well_formed(declarations(ts)),
    decreases ts.len(), 2int,
{
    if head(ts) == Ok::<TokenView, LexError>(TokenView::Var) {
        lemma_variable_declarations_derivation(tail(ts));
        if let Ok((variables, rest)) = variable_declarations(tail(ts)) {
            if rest.len() <= ts.len() {
                lemma_procedures_derivation(rest);
            }
        }
    } else {
        lemma_procedures_derivation(ts);
    }
}

/// The rule `proc_decl*` goes forward, and what it derives is well formed.
pub proof fn lemma_procedures_derivation(ts: Stream)
    ensures
        steady(procedures(ts), ts),
        derives_all_well_formed(procedures(ts)),
    decreases ts.len(), 1int,
{
    if head(ts) == Ok::<TokenView, LexError>(TokenView::Procedure) {
        lemma_procedure_declaration_derivation(ts);
        if let Ok((first, rest)) = procedure_declaration(ts) {
            if rest.len() < ts.len() {
                lemma_procedures_derivation(rest);
            }
        }
    }
}

/// The rule `("(" formal_params ")")?` goes forward, and what it derives is well formed.
pub proof fn lemma_optional_parameters_derivation(ts: Stream)
    ensures
        steady(optional_parameters(ts), ts),
        derives_all_well_formed(optional_parameters(ts)),
{
    if head(ts) == Ok::<TokenView, LexError>(TokenView::LParen) {
        lemma_formal_parameter_list_derivation(tail(ts));
    }
}

/// The rule `proc_decl` goes forward, and what it derives is well formed.
pub proof fn lemma_procedure_declaration_derivation(ts: Stream)
    ensures
        steady(procedure_declaration(ts), ts),
        moves(procedure_declaration(ts), ts),
        derives_well_formed(procedure_declaration(ts)),
    decreases ts.len(), 0int,
{
    if let Ok(after_keyword) = expect(ts, TokenView::Procedure) {
        if let Ok((proc_name, after_name)) = variable(after_keyword) {
            lemma_optional_parameters_derivation(after_name);
        }
    }
    if let Ok(((proc_name, params), rest)) = procedure_heading(ts) {
        assert(proc_name is Id);
        assert(all_well_formed(params));
        if rest.len() < ts.len() {
            lemma_block_derivation(rest);
        }
    }
}

/// Whether a tree is a program whose block ends in a compound statement.
pub open spec fn is_program(node: NodeView) -> bool {
    node matches NodeView::Program { block, .. } && *block matches NodeView::Block {
        compound_statement,
        ..
    } && *compound_statement is Compound
}

/// The tree of a whole stream is a program.
pub proof fn lemma_program_shape(ts: Stream)
    ensures
        parse(ts) matches Ok(root) ==> is_program(root),
{
}

/// Every tree that the grammar derives from a stream is well formed, and
/// no stream stalls a rule.
pub proof fn lemma_parse_well_formed(ts: Stream)
    ensures
        parse(ts) matches Ok(root) ==> well_formed(root),
        expression(ts) matches Ok(root) ==> well_formed(root),
        parse(ts) != Err::<NodeView, InterpretErrorView>(stalled(ts).error),
        expression(ts) != Err::<NodeView, InterpretErrorView>(stalled(ts).error),
{
    lemma_expr_derivation(ts);
    if let Ok(rest) = expect(ts, TokenView::Program) {
        if let Ok((identifier, rest)) = variable(rest) {
            if let Ok(rest) = expect(rest, TokenView::Semi) {
                lemma_block_derivation(rest);
            }
        }
    }
}

} // verus!
