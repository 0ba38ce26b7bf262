//! The recursive-descent parser: pulls tokens from a [`Lexer`], one token
//! ahead, and builds the tree that the grammar derives.
use vstd::prelude::*;
use crate::error::{InterpretError, InterpretErrorView, ParseError};
use crate::grammar;
use crate::grammar::{head, tail, Failure, Parsed, Stream};
use crate::lexer::{is_terminal, lemma_scan_progress, lexeme_of, lexemes, LexError, Lexer};
use crate::node::{
    views_of, AssignNode, BinOpNode, BlockNode, CompoundNode, DeclarationNode, IntegerNumNode,
    NoOpNode, Node, NodeView, ParameterNode, ProcedureNode, ProgramNode, RealNumNode, TypeNode,
    UnaryOpNode, VarNode,
};
use crate::text::parse_integer;
use crate::token::{Token, TokenView};

verus! {

/// What a parsing function that ends with `result` and leaves the stream
/// `rest` has derived.
pub open spec fn node_parsed(result: Result<Node, InterpretError>, rest: Stream) -> Parsed<
    NodeView,
> {
    match result {
        Ok(node) => Ok((node@, rest)),
        Err(error) => Err(Failure { error: error@, at: rest }),
    }
}

/// As [`node_parsed`], for a list of nodes.
pub open spec fn nodes_parsed(
    result: Result<Vec<Box<Node>>, InterpretError>,
    rest: Stream,
) -> Parsed<Seq<NodeView>> {
    match result {
        Ok(nodes) => Ok((views_of(nodes@), rest)),
        Err(error) => Err(Failure { error: error@, at: rest }),
    }
}

/// As [`node_parsed`], for a step that derives no value.
pub open spec fn step_parsed(result: Result<(), InterpretError>, rest: Stream) -> Result<
    Stream,
    Failure,
> {
    match result {
        Ok(_) => Ok(rest),
        Err(error) => Err(Failure { error: error@, at: rest }),
    }
}

/// The values of a list of tokens.
pub open spec fn tokens_view(tokens: Seq<Token>) -> Seq<TokenView> {
    Seq::new(tokens.len(), |i: int| tokens[i]@)
}

/// `prefix` put before the nodes that `parsed` derived.
pub open spec fn prepend(prefix: Seq<NodeView>, parsed: Parsed<Seq<NodeView>>) -> Parsed<
    Seq<NodeView>,
> {
    match parsed {
        Ok((nodes, rest)) => Ok((prefix + nodes, rest)),
        Err(error) => Err(error),
    }
}

/// `prefix` put before the tokens that `parsed` derived.
pub open spec fn prepend_tokens(prefix: Seq<TokenView>, parsed: Parsed<Seq<TokenView>>) -> Parsed<
    Seq<TokenView>,
> {
    match parsed {
        Ok((tokens, rest)) => Ok((prefix + tokens, rest)),
        Err(error) => Err(error),
    }
}

/// The identifier tokens of a list of variables.
pub open spec fn var_tokens(vars: Seq<VarNode>) -> Seq<TokenView> {
    Seq::new(vars.len(), |i: int| vars[i].identifier@)
}

/// Nothing put before a result leaves it as it is.
pub proof fn lemma_prepend_nothing(parsed: Parsed<Seq<NodeView>>)
    ensures
        prepend(Seq::empty(), parsed) == parsed,
{
    match parsed {
        Ok((nodes, rest)) => {
            assert(Seq::<NodeView>::empty() + nodes == nodes);
        },
        Err(_) => {},
    }
}

/// Putting `a` before the result of putting `b` before is putting `a + b`
/// before.
pub proof fn lemma_prepend_twice(a: Seq<NodeView>, b: Seq<NodeView>, parsed: Parsed<Seq<NodeView>>)
    ensures
        prepend(a, prepend(b, parsed)) == prepend(a + b, parsed),
{
    match parsed {
        Ok((nodes, rest)) => {
            assert(a + (b + nodes) == (a + b) + nodes);
        },
        Err(_) => {},
    }
}

/// The values of a list that grew by one node.
pub proof fn lemma_views_of_push(nodes: Seq<Box<Node>>, node: Box<Node>)
    ensures
        views_of(nodes.push(node)) == views_of(nodes) + seq![node@],
{
    assert(views_of(nodes.push(node)) =~= views_of(nodes) + seq![node@]);
}

/// The values of two lists put together.
pub proof fn lemma_views_of_concat(a: Seq<Box<Node>>, b: Seq<Box<Node>>)
    ensures
        views_of(a + b) == views_of(a) + views_of(b),
{
    assert(views_of(a + b) =~= views_of(a) + views_of(b));
}

/// A parser over one source text.
pub struct Parser {
    lexer: Lexer,
    current_token: Result<Token, LexError>,
}

impl Parser {
    /// The lexemes not consumed yet. The first is the current token.
    pub closed spec fn view(&self) -> Stream {
        let current = lexeme_of(self.current_token);
        if is_terminal(current) {
            seq![current]
        } else {
            seq![current] + lexemes(self.lexer@)
        }
    }

    /// A parser at the first token of `text`.
    pub fn new(text: &str) -> (parser: Self)
        ensures
            parser@ == lexemes(text@),
    {
        let mut lexer = Lexer::new(text);
        let current_token = lexer.get_next_token();
        proof {
            lemma_scan_progress(text@);
        }
        Parser { lexer, current_token }
    }

    /// The current token, or the lexical error that stands in its place.
    pub fn get_current_token(&self) -> (result: Result<Token, InterpretError>)
        ensures
            match head(self@) {
                Ok(token) => result matches Ok(current) && current@ == token,
                Err(error) => result matches Err(e) && e@ == InterpretErrorView::Lex(error),
            },
    {
        match &self.current_token {
            Ok(token) => Ok(token.clone()),
            Err(error) => Err(InterpretError::Lex(*error)),
        }
    }

    /// Moves to the next token.
    fn advance(&mut self)
        requires
            !is_terminal(head(old(self)@)),
        ensures
            final(self)@ == tail(old(self)@),
            final(self)@.len() < old(self)@.len(),
    {
        proof {
            lemma_scan_progress(self.lexer@);
            assert((seq![lexeme_of(self.current_token)] + lexemes(self.lexer@)).drop_first()
                == lexemes(self.lexer@));
        }
        self.current_token = self.lexer.get_next_token();
    }

    /// Checks that the current token is `token_type` and moves to the next.
    pub fn consume(&mut self, token_type: &Token) -> (result: Result<(), InterpretError>)
        ensures
            step_parsed(result, final(self)@) == grammar::expect(old(self)@, token_type@),
            result is Ok ==> final(self)@.len() <= old(self)@.len(),
            result is Ok && token_type@ != TokenView::EOF ==> final(self)@.len() < old(self)@.len(),
    {
        let current = match self.get_current_token() {
            Ok(token) => token,
            Err(error) => {
                return Err(error);
            },
        };
        if current == *token_type {
            if current != Token::EOF {
                self.advance();
            }
            Ok(())
        } else {
            Err(InterpretError::Parse(ParseError { expected: token_type.clone(), found: current }))
        }
    }

    /// `variable := ID`.
    pub fn variable(&mut self) -> (result: Result<VarNode, InterpretError>)
        ensures
            match grammar::variable(old(self)@) {
                Ok((identifier, rest)) => result matches Ok(node) && node.identifier@
                    == identifier && final(self)@ == rest,
                Err(failure) => result matches Err(e) && e@ == failure.error && final(self)@
                    == failure.at,
            },
            result is Ok ==> final(self)@.len() < old(self)@.len(),
    {
        let current = match self.get_current_token() {
            Ok(token) => token,
            Err(error) => {
                return Err(error);
            },
        };
        match current {
            Token::Id(name) => {
                self.advance();
                Ok(VarNode::new(Token::Id(name)))
            },
            found => Err(
                InterpretError::Parse(ParseError { expected: Token::Id(String::new()), found }),
            ),
        }
    }

    /// `type_spec := "INTEGER" | "REAL"`.
    pub fn type_spec(&mut self) -> (result: Result<TypeNode, InterpretError>)
        ensures
            match grammar::type_spec(old(self)@) {
                Ok((token, rest)) => result matches Ok(node) && node.token@ == token
                    && final(self)@ == rest,
                Err(failure) => result matches Err(e) && e@ == failure.error && final(self)@
                    == failure.at,
            },
            result is Ok ==> final(self)@.len() < old(self)@.len(),
    {
        let current = match self.get_current_token() {
            Ok(token) => token,
            Err(error) => {
                return Err(error);
            },
        };
        match current {
            Token::Integer => {
                self.advance();
                Ok(TypeNode::new(Token::Integer))
            },
            Token::Real => {
                self.advance();
                Ok(TypeNode::new(Token::Real))
            },
            found => Err(InterpretError::Parse(ParseError { expected: Token::Integer, found })),
        }
    }

    /// `factor := ("+"|"-") factor | INT_CONST | REAL_CONST | "(" expr ")" |
    /// variable`.
    pub fn factor(&mut self) -> (result: Result<Node, InterpretError>)
        ensures
            node_parsed(result, final(self)@) == grammar::factor(old(self)@),
            result is Ok ==> final(self)@.len() <= old(self)@.len(),
        decreases old(self)@.len(), 0int,
    {
        let current = match self.get_current_token() {
            Ok(token) => token,
            Err(error) => {
                return Err(error);
            },
        };
        match current {
            Token::Plus => {
                self.advance();
                match self.factor() {
                    Ok(operand) => Ok(
                        Node::UnaryOp(UnaryOpNode::new(Token::Plus, Box::new(operand))),
                    ),
                    Err(error) => Err(error),
                }
            },
            Token::Minus => {
                self.advance();
                match self.factor() {
                    Ok(operand) => Ok(
                        Node::UnaryOp(UnaryOpNode::new(Token::Minus, Box::new(operand))),
                    ),
                    Err(error) => Err(error),
                }
            },
            Token::IntegerConst(text) => {
                match parse_integer(text.as_str()) {
                    Some(value) => {
                        self.advance();
                        Ok(Node::Integer(IntegerNumNode::new(value)))
                    },
                    None => Err(
                        InterpretError::Parse(
                            ParseError {
                                expected: Token::IntegerConst(String::new()),
                                found: Token::IntegerConst(text),
                            },
                        ),
                    ),
                }
            },
            Token::RealConst(text) => {
                self.advance();
                Ok(Node::Real(RealNumNode::new(text)))
            },
            Token::LParen => {
                self.advance();
                let inner = match self.expr() {
                    Ok(node) => node,
                    Err(error) => {
                        return Err(error);
                    },
                };
                match self.consume(&Token::RParen) {
                    Ok(()) => Ok(inner),
                    Err(error) => Err(error),
                }
            },
            _ => {
                match self.variable() {
                    Ok(node) => Ok(Node::Var(node)),
                    Err(error) => Err(error),
                }
            },
        }
    }

    /// `term := factor (("*"|"DIV"|"/") factor)*`.
    pub fn term(&mut self) -> (result: Result<Node, InterpretError>)
        ensures
            node_parsed(result, final(self)@) == grammar::term(old(self)@),
            result is Ok ==> final(self)@.len() <= old(self)@.len(),
        decreases old(self)@.len(), 2int,
    {
        let mut node = match self.factor() {
            Ok(node) => node,
            Err(error) => {
                return Err(error);
            },
        };
        loop
            invariant
                self@.len() <= old(self)@.len(),
                grammar::term_rest(node@, self@) == grammar::term(old(self)@),
            decreases self@.len(),
        {
            let operator = match self.get_current_token() {
                Ok(token) => token,
                Err(_) => {
                    return Ok(node);
                },
            };
            match operator {
                Token::Multiply | Token::IntegerDivision | Token::RealDivision => {},
                _ => {
                    return Ok(node);
                },
            }
            self.advance();
            let right = match self.factor() {
                Ok(node) => node,
                Err(error) => {
                    return Err(error);
                },
            };
            node = Node::BinOp(BinOpNode::new(Box::new(node), Box::new(right), operator));
        }
    }

    /// `expr := term (("+"|"-") term)*`.
    pub fn expr(&mut self) -> (result: Result<Node, InterpretError>)
        ensures
            node_parsed(result, final(self)@) == grammar::expr(old(self)@),
            result is Ok ==> final(self)@.len() <= old(self)@.len(),
        decreases old(self)@.len(), 4int,
    {
        let mut node = match self.term() {
            Ok(node) => node,
            Err(error) => {
                return Err(error);
            },
        };
        loop
            invariant
                self@.len() <= old(self)@.len(),
                grammar::expr_rest(node@, self@) == grammar::expr(old(self)@),
            decreases self@.len(),
        {
            let operator = match self.get_current_token() {
                Ok(token) => token,
                Err(_) => {
                    return Ok(node);
                },
            };
            match operator {
                Token::Plus | Token::Minus => {},
                _ => {
                    return Ok(node);
                },
            }
            self.advance();
            let right = match self.term() {
                Ok(node) => node,
                Err(error) => {
                    return Err(error);
                },
            };
            node = Node::BinOp(BinOpNode::new(Box::new(node), Box::new(right), operator));
        }
    }

    /// `ID ("," ID)*`.
    fn identifiers(&mut self) -> (result: Result<Vec<VarNode>, InterpretError>)
        ensures
            match grammar::identifiers(old(self)@) {
                Ok((names, rest)) => result matches Ok(vars) && var_tokens(vars@) == names
                    && final(self)@ == rest,
                Err(failure) => result matches Err(e) && e@ == failure.error && final(self)@
                    == failure.at,
            },
            result is Ok ==> final(self)@.len() < old(self)@.len(),
    {
        let mut vars: Vec<VarNode> = Vec::new();
        proof {
            let all = grammar::identifiers(self@);
            if let Ok((names, rest)) = all {
                assert(Seq::<TokenView>::empty() + names == names);
            }
            assert(var_tokens(vars@) =~= Seq::<TokenView>::empty());
        }
        loop
            invariant
                self@.len() <= old(self)@.len(),
                grammar::identifiers(old(self)@) == prepend_tokens(
                    var_tokens(vars@),
                    grammar::identifiers(self@),
                ),
            decreases self@.len(),
        {
            let ghost before = var_tokens(vars@);
            let var = match self.variable() {
                Ok(var) => var,
                Err(error) => {
                    return Err(error);
                },
            };
            let ghost name = var.identifier@;
            vars.push(var);
            proof {
                assert(var_tokens(vars@) =~= before + seq![name]);
            }
            match self.get_current_token() {
                Ok(Token::Comma) => {
                    proof {
                        let more = grammar::identifiers(tail(self@));
                        if let Ok((names, rest)) = more {
                            assert(before + (seq![name] + names) == (before + seq![name]) + names);
                        }
                    }
                    self.advance();
                },
                _ => {
                    return Ok(vars);
                },
            }
        }
    }

    /// `ID ("," ID)* ":" type_spec`.
    fn typed_names(&mut self) -> (result: Result<(Vec<VarNode>, TypeNode), InterpretError>)
        ensures
            match grammar::typed_names(old(self)@) {
                Ok(((names, type_token), rest)) => result matches Ok((vars, type_node))
                    && var_tokens(vars@) == names && type_node.token@ == type_token
                    && final(self)@ == rest,
                Err(failure) => result matches Err(e) && e@ == failure.error && final(self)@
                    == failure.at,
            },
            result is Ok ==> final(self)@.len() < old(self)@.len(),
    {
        let vars = match self.identifiers() {
            Ok(vars) => vars,
            Err(error) => {
                return Err(error);
            },
        };
        match self.consume(&Token::Colon) {
            Ok(()) => {},
            Err(error) => {
                return Err(error);
            },
        }
        match self.type_spec() {
            Ok(type_node) => Ok((vars, type_node)),
            Err(error) => Err(error),
        }
    }

    /// `var_decl := ID ("," ID)* ":" type_spec`: one declaration for each
    /// name.
    pub fn variable_declaration(&mut self) -> (result: Result<Vec<Box<Node>>, InterpretError>)
        ensures
            nodes_parsed(result, final(self)@) == grammar::variable_declaration(old(self)@),
            result is Ok ==> final(self)@.len() < old(self)@.len(),
    {
        let (vars, type_node) = match self.typed_names() {
            Ok(pair) => pair,
            Err(error) => {
                return Err(error);
            },
        };
        let ghost expected = grammar::declaration_nodes(var_tokens(vars@), type_node.token@);
        let mut nodes: Vec<Box<Node>> = Vec::new();
        let mut i: usize = 0;
        while i < vars.len()
            invariant
                i <= vars.len(),
                nodes@.len() == i,
                expected == grammar::declaration_nodes(var_tokens(vars@), type_node.token@),
                forall|j: int| 0 <= j < i ==> (#[trigger] nodes@[j])@ == expected[j],
            decreases vars.len() - i,
        {
            let node = Node::Declaration(DeclarationNode::new(vars[i].clone(), type_node.clone()));
            nodes.push(Box::new(node));
            i += 1;
        }
        assert(views_of(nodes@) =~= expected);
        Ok(nodes)
    }

    /// `param := ID ("," ID)* ":" type_spec`: one parameter for each name.
    pub fn formal_parameters(&mut self) -> (result: Result<Vec<Box<Node>>, InterpretError>)
        ensures
            nodes_parsed(result, final(self)@) == grammar::formal_parameters(old(self)@),
            result is Ok ==> final(self)@.len() < old(self)@.len(),
    {
        let (vars, type_node) = match self.typed_names() {
            Ok(pair) => pair,
            Err(error) => {
                return Err(error);
            },
        };
        let ghost expected = grammar::parameter_nodes(var_tokens(vars@), type_node.token@);
        let mut nodes: Vec<Box<Node>> = Vec::new();
        let mut i: usize = 0;
        while i < vars.len()
            invariant
                i <= vars.len(),
                nodes@.len() == i,
                expected == grammar::parameter_nodes(var_tokens(vars@), type_node.token@),
                forall|j: int| 0 <= j < i ==> (#[trigger] nodes@[j])@ == expected[j],
            decreases vars.len() - i,
        {
            let node = Node::Parameter(ParameterNode::new(vars[i].clone(), type_node.clone()));
            nodes.push(Box::new(node));
            i += 1;
        }
        assert(views_of(nodes@) =~= expected);
        Ok(nodes)
    }

    /// `formal_params := param (";" param)*`.
    pub fn formal_parameter_list(&mut self) -> (result: Result<Vec<Box<Node>>, InterpretError>)
        ensures
            nodes_parsed(result, final(self)@) == grammar::formal_parameter_list(old(self)@),
            result is Ok ==> final(self)@.len() < old(self)@.len(),
    {
        let mut params: Vec<Box<Node>> = Vec::new();
        proof {
            lemma_prepend_nothing(grammar::formal_parameter_list(self@));
            assert(views_of(params@) =~= Seq::<NodeView>::empty());
        }
        loop
            invariant
                self@.len() <= old(self)@.len(),
                grammar::formal_parameter_list(old(self)@) == prepend(
                    views_of(params@),
                    grammar::formal_parameter_list(self@),
                ),
            decreases self@.len(),
        {
            let ghost before = params@;
            let mut group = match self.formal_parameters() {
                Ok(group) => group,
                Err(error) => {
                    return Err(error);
                },
            };
            let ghost added = group@;
            params.append(&mut group);
            proof {
                lemma_views_of_concat(before, added);
                lemma_prepend_twice(
                    views_of(before),
                    views_of(added),
                    grammar::formal_parameter_list(tail(self@)),
                );
            }
            match self.get_current_token() {
                Ok(Token::Semi) => {
                    self.advance();
                },
                _ => {
                    assert(views_of(before) + views_of(added) == views_of(params@));
                    return Ok(params);
                },
            }
        }
    }

    /// `(var_decl ";")+`: declarations go on while an identifier follows.
    pub fn variable_declarations(&mut self) -> (result: Result<Vec<Box<Node>>, InterpretError>)
        ensures
            nodes_parsed(result, final(self)@) == grammar::variable_declarations(old(self)@),
            result is Ok ==> final(self)@.len() < old(self)@.len(),
    {
        let mut declarations: Vec<Box<Node>> = Vec::new();
        proof {
            lemma_prepend_nothing(grammar::variable_declarations(self@));
            assert(views_of(declarations@) =~= Seq::<NodeView>::empty());
        }
        loop
            invariant
                self@.len() <= old(self)@.len(),
                grammar::variable_declarations(old(self)@) == prepend(
                    views_of(declarations@),
                    grammar::variable_declarations(self@),
                ),
            decreases self@.len(),
        {
            let ghost before = declarations@;
            let mut group = match self.variable_declaration() {
                Ok(group) => group,
                Err(error) => {
                    return Err(error);
                },
            };
            let ghost added = group@;
            declarations.append(&mut group);
            match self.consume(&Token::Semi) {
                Ok(()) => {},
                Err(error) => {
                    return Err(error);
                },
            }
            proof {
                lemma_views_of_concat(before, added);
                lemma_prepend_twice(
                    views_of(before),
                    views_of(added),
                    grammar::variable_declarations(self@),
                );
            }
            match self.get_current_token() {
                Ok(Token::Id(_)) => {},
                _ => {
                    return Ok(declarations);
                },
            }
        }
    }

    /// The empty statement.
    pub fn empty(&self) -> (node: Node)
        ensures
            node@ == NodeView::NoOp,
    {
        Node::NoOp(NoOpNode {  })
    }

    /// `assignment := variable ":=" expr`.
    pub fn assignment_statement(&mut self) -> (result: Result<Node, InterpretError>)
        ensures
            node_parsed(result, final(self)@) == grammar::assignment_statement(old(self)@),
            result is Ok ==> final(self)@.len() < old(self)@.len(),
    {
        let left = match self.variable() {
            Ok(node) => node,
            Err(error) => {
                return Err(error);
            },
        };
        match self.consume(&Token::Assign) {
            Ok(()) => {},
            Err(error) => {
                return Err(error);
            },
        }
        match self.expr() {
            Ok(right) => Ok(Node::Assign(AssignNode::new(left, Box::new(right), Token::Assign))),
            Err(error) => Err(error),
        }
    }

    /// `statement := compound_stmt | assignment | empty`.
    pub fn statement(&mut self) -> (result: Result<Node, InterpretError>)
        ensures
            node_parsed(result, final(self)@) == grammar::statement(old(self)@),
            result is Ok ==> final(self)@.len() <= old(self)@.len(),
        decreases old(self)@.len(), 1int,
    {
        let current = match self.get_current_token() {
            Ok(token) => token,
            Err(error) => {
                return Err(error);
            },
        };
        match current {
            Token::Begin => self.compound_statement(),
            Token::Id(_) => self.assignment_statement(),
            _ => Ok(self.empty()),
        }
    }

    /// `statement (";" statement)*`.
    fn statements(&mut self) -> (result: Result<Vec<Box<Node>>, InterpretError>)
        ensures
            nodes_parsed(result, final(self)@) == grammar::statements(old(self)@),
            result is Ok ==> final(self)@.len() <= old(self)@.len(),
        decreases old(self)@.len(), 2int,
    {
        let mut results: Vec<Box<Node>> = Vec::new();
        proof {
            lemma_prepend_nothing(grammar::statements(self@));
            assert(views_of(results@) =~= Seq::<NodeView>::empty());
        }
        loop
            invariant
                self@.len() <= old(self)@.len(),
                grammar::statements(old(self)@) == prepend(
                    views_of(results@),
                    grammar::statements(self@),
                ),
            decreases self@.len(),
        {
            let ghost before = results@;
            let node = match self.statement() {
                Ok(node) => Box::new(node),
                Err(error) => {
                    return Err(error);
                },
            };
            results.push(node);
            proof {
                lemma_views_of_push(before, node);
                lemma_prepend_twice(
                    views_of(before),
                    seq![node@],
                    grammar::statements(tail(self@)),
                );
            }
            match self.get_current_token() {
                Ok(Token::Semi) => {
                    self.advance();
                },
                _ => {
                    return Ok(results);
                },
            }
        }
    }

    /// `stmt_list := statement (";" statement)*`, after which no identifier
    /// may stand.
    pub fn statement_list(&mut self) -> (result: Result<Vec<Box<Node>>, InterpretError>)
        ensures
            nodes_parsed(result, final(self)@) == grammar::statement_list(old(self)@),
            result is Ok ==> final(self)@.len() <= old(self)@.len(),
        decreases old(self)@.len(), 3int,
    {
        let results = match self.statements() {
            Ok(results) => results,
            Err(error) => {
                return Err(error);
            },
        };
        match self.get_current_token() {
            Ok(Token::Id(name)) => Err(
                InterpretError::Parse(ParseError { expected: Token::Semi, found: Token::Id(name) }),
            ),
            _ => Ok(results),
        }
    }

    /// `compound_stmt := "BEGIN" stmt_list "END"`.
    pub fn compound_statement(&mut self) -> (result: Result<Node, InterpretError>)
        ensures
            node_parsed(result, final(self)@) == grammar::compound_statement(old(self)@),
            result is Ok ==> final(self)@.len() < old(self)@.len(),
        decreases old(self)@.len(), 0int,
    {
        match self.consume(&Token::Begin) {
            Ok(()) => {},
            Err(error) => {
                return Err(error);
            },
        }
        let nodes = match self.statement_list() {
            Ok(nodes) => nodes,
            Err(error) => {
                return Err(error);
            },
        };
        match self.consume(&Token::End) {
            Ok(()) => {
                Ok(Node::Compound(CompoundNode::new(nodes)))
            },
            Err(error) => Err(error),
        }
    }

    /// `("(" formal_params ")")?`.
    fn optional_parameters(&mut self) -> (result: Result<Vec<Box<Node>>, InterpretError>)
        ensures
            nodes_parsed(result, final(self)@) == grammar::optional_parameters(old(self)@),
            result is Ok ==> final(self)@.len() <= old(self)@.len(),
    {
        match self.get_current_token() {
            Ok(Token::LParen) => {
                self.advance();
                let params = match self.formal_parameter_list() {
                    Ok(params) => params,
                    Err(error) => {
                        return Err(error);
                    },
                };
                match self.consume(&Token::RParen) {
                    Ok(()) => Ok(params),
                    Err(error) => Err(error),
                }
            },
            _ => {
                let params: Vec<Box<Node>> = Vec::new();
                assert(views_of(params@) =~= Seq::<NodeView>::empty());
                Ok(params)
            },
        }
    }

    /// `proc_decl := "PROCEDURE" ID ("(" formal_params ")")? ";" block ";"`.
    pub fn procedure_declaration(&mut self) -> (result: Result<Node, InterpretError>)
        ensures
            node_parsed(result, final(self)@) == grammar::procedure_declaration(old(self)@),
            result is Ok ==> final(self)@.len() < old(self)@.len(),
        decreases old(self)@.len(), 0int,
    {
        match self.consume(&Token::Procedure) {
            Ok(()) => {},
            Err(error) => {
                return Err(error);
            },
        }
        let name = match self.variable() {
            Ok(node) => node,
            Err(error) => {
                return Err(error);
            },
        };
        let params = match self.optional_parameters() {
            Ok(params) => params,
            Err(error) => {
                return Err(error);
            },
        };
        match self.consume(&Token::Semi) {
            Ok(()) => {},
            Err(error) => {
                return Err(error);
            },
        }
        let block = match self.block() {
            Ok(node) => node,
            Err(error) => {
                return Err(error);
            },
        };
        match self.consume(&Token::Semi) {
            Ok(()) => {
                Ok(Node::Procedure(ProcedureNode::new(name.identifier, params, Box::new(block))))
            },
            Err(error) => Err(error),
        }
    }

    /// `proc_decl*`.
    fn procedures(&mut self) -> (result: Result<Vec<Box<Node>>, InterpretError>)
        ensures
            nodes_parsed(result, final(self)@) == grammar::procedures(old(self)@),
            result is Ok ==> final(self)@.len() <= old(self)@.len(),
        decreases old(self)@.len(), 1int,
    {
        let mut procedures: Vec<Box<Node>> = Vec::new();
        proof {
            lemma_prepend_nothing(grammar::procedures(self@));
            assert(views_of(procedures@) =~= Seq::<NodeView>::empty());
        }
        loop
            invariant
                self@.len() <= old(self)@.len(),
                grammar::procedures(old(self)@) == prepend(
                    views_of(procedures@),
                    grammar::procedures(self@),
                ),
            decreases self@.len(),
        {
            match self.get_current_token() {
                Ok(Token::Procedure) => {},
                _ => {
                    assert(views_of(procedures@) + Seq::<NodeView>::empty() == views_of(
                        procedures@,
                    ));
                    return Ok(procedures);
                },
            }
            let ghost before = procedures@;
            let node = match self.procedure_declaration() {
                Ok(node) => Box::new(node),
                Err(error) => {
                    return Err(error);
                },
            };
            procedures.push(node);
            proof {
                lemma_views_of_push(before, node);
                lemma_prepend_twice(views_of(before), seq![node@], grammar::procedures(self@));
            }
        }
    }

    /// `declarations := ("VAR" (var_decl ";")+)? proc_decl*`.
    pub fn declarations(&mut self) -> (result: Result<Vec<Box<Node>>, InterpretError>)
        ensures
            nodes_parsed(result, final(self)@) == grammar::declarations(old(self)@),
            result is Ok ==> final(self)@.len() <= old(self)@.len(),
        decreases old(self)@.len(), 2int,
    {
        match self.get_current_token() {
            Ok(Token::Var) => {
                self.advance();
                let mut declarations = match self.variable_declarations() {
                    Ok(nodes) => nodes,
                    Err(error) => {
                        return Err(error);
                    },
                };
                let mut procedures = match self.procedures() {
                    Ok(nodes) => nodes,
                    Err(error) => {
                        return Err(error);
                    },
                };
                proof {
                    lemma_views_of_concat(declarations@, procedures@);
                }
                declarations.append(&mut procedures);
                Ok(declarations)
            },
            _ => self.procedures(),
        }
    }

    /// `block := declarations compound_statement`.
    pub fn block(&mut self) -> (result: Result<Node, InterpretError>)
        ensures
            node_parsed(result, final(self)@) == grammar::block(old(self)@),
            result is Ok ==> final(self)@.len() < old(self)@.len(),
        decreases old(self)@.len(), 3int,
    {
        let declarations = match self.declarations() {
            Ok(nodes) => nodes,
            Err(error) => {
                return Err(error);
            },
        };
        match self.compound_statement() {
            Ok(body) => {
                Ok(Node::Block(BlockNode::new(declarations, Box::new(body))))
            },
            Err(error) => Err(error),
        }
    }

    /// `program := "PROGRAM" variable ";" block "."`.
    pub fn program(&mut self) -> (result: Result<Node, InterpretError>)
        ensures
            node_parsed(result, final(self)@) == grammar::program(old(self)@),
    {
        match self.consume(&Token::Program) {
            Ok(()) => {},
            Err(error) => {
                return Err(error);
            },
        }
        let name = match self.variable() {
            Ok(node) => node,
            Err(error) => {
                return Err(error);
            },
        };
        match self.consume(&Token::Semi) {
            Ok(()) => {},
            Err(error) => {
                return Err(error);
            },
        }
        let block = match self.block() {
            Ok(node) => node,
            Err(error) => {
                return Err(error);
            },
        };
        match self.consume(&Token::Period) {
            Ok(()) => Ok(Node::Program(ProgramNode::new(name.identifier, Box::new(block)))),
            Err(error) => Err(error),
        }
    }

    /// Parses a text that holds one expression and nothing else.
    pub fn expression(&mut self) -> (result: Result<Node, InterpretError>)
        ensures
            node_parsed(result, final(self)@) == grammar::to_the_end(
                grammar::expr(old(self)@),
            ),
    {
        let node = match self.expr() {
            Ok(node) => node,
            Err(error) => {
                return Err(error);
            },
        };
        match self.consume(&Token::EOF) {
            Ok(()) => Ok(node),
            Err(error) => Err(error),
        }
    }

    /// Parses a whole program: the tree of the text, or its first lexical
    /// or syntax error. Tokens after the final period are an error.
    pub fn parse(&mut self) -> (result: Result<Node, InterpretError>)
        ensures
            node_parsed(result, final(self)@) == grammar::to_the_end(
                grammar::program(old(self)@),
            ),
    {
        let node = match self.program() {
            Ok(node) => node,
            Err(error) => {
                return Err(error);
            },
        };
        match self.consume(&Token::EOF) {
            Ok(()) => Ok(node),
            Err(error) => Err(error),
        }
    }
}

} // verus!
