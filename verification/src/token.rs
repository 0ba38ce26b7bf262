//! The closed set of tokens of the language.
use vstd::prelude::*;
use vstd::std_specs::cmp::PartialEqSpecImpl;
use vstd::string::StringExecFns;

verus! {

/// One lexical unit. Literals and identifiers carry their text as written.
#[derive(Debug, Eq, Hash)]
pub enum Token {
    Program,
    Procedure,
    Begin,
    End,
    Var,
    Integer,
    Real,
    IntegerConst(String),
    RealConst(String),
    Id(String),
    Colon,
    Comma,
    Semi,
    Period,
    Plus,
    Minus,
    Multiply,
    IntegerDivision,
    RealDivision,
    LParen,
    RParen,
    Assign,
    EOF,
}

/// The mathematical value of a [`Token`]: the same variants over character
/// sequences.
pub ghost enum TokenView {
    Program,
    Procedure,
    Begin,
    End,
    Var,
    Integer,
    Real,
    IntegerConst(Seq<char>),
    RealConst(Seq<char>),
    Id(Seq<char>),
    Colon,
    Comma,
    Semi,
    Period,
    Plus,
    Minus,
    Multiply,
    IntegerDivision,
    RealDivision,
    LParen,
    RParen,
    Assign,
    EOF,
}

impl TokenView {
    /// The text a token is written with. `EOF` has the name `EOF`.
    pub open spec fn text(self) -> Seq<char> {
        match self {
            TokenView::Program => "PROGRAM"@,
            TokenView::Procedure => "PROCEDURE"@,
            TokenView::Begin => "BEGIN"@,
            TokenView::End => "END"@,
            TokenView::Var => "VAR"@,
            TokenView::Integer => "INTEGER"@,
            TokenView::Real => "REAL"@,
            TokenView::IntegerConst(value) => value,
            TokenView::RealConst(value) => value,
            TokenView::Id(name) => name,
            TokenView::Colon => ":"@,
            TokenView::Comma => ","@,
            TokenView::Semi => ";"@,
            TokenView::Period => "."@,
            TokenView::Plus => "+"@,
            TokenView::Minus => "-"@,
            TokenView::Multiply => "*"@,
            TokenView::IntegerDivision => "DIV"@,
            TokenView::RealDivision => "/"@,
            TokenView::LParen => "("@,
            TokenView::RParen => ")"@,
            TokenView::Assign => ":="@,
            TokenView::EOF => "EOF"@,
        }
    }
}

impl View for Token {
    type V = TokenView;

    open spec fn view(&self) -> TokenView {
        match self {
            Token::Program => TokenView::Program,
            Token::Procedure => TokenView::Procedure,
            Token::Begin => TokenView::Begin,
            Token::End => TokenView::End,
            Token::Var => TokenView::Var,
            Token::Integer => TokenView::Integer,
            Token::Real => TokenView::Real,
            Token::IntegerConst(value) => TokenView::IntegerConst(value@),
            Token::RealConst(value) => TokenView::RealConst(value@),
            Token::Id(name) => TokenView::Id(name@),
            Token::Colon => TokenView::Colon,
            Token::Comma => TokenView::Comma,
            Token::Semi => TokenView::Semi,
            Token::Period => TokenView::Period,
            Token::Plus => TokenView::Plus,
            Token::Minus => TokenView::Minus,
            Token::Multiply => TokenView::Multiply,
            Token::IntegerDivision => TokenView::IntegerDivision,
            Token::RealDivision => TokenView::RealDivision,
            Token::LParen => TokenView::LParen,
            Token::RParen => TokenView::RParen,
            Token::Assign => TokenView::Assign,
            Token::EOF => TokenView::EOF,
        }
    }
}

impl Clone for Token {
    fn clone(&self) -> (copy: Self)
        ensures
            copy@ == self@,
    {
        match self {
            Token::Program => Token::Program,
            Token::Procedure => Token::Procedure,
            Token::Begin => Token::Begin,
            Token::End => Token::End,
            Token::Var => Token::Var,
            Token::Integer => Token::Integer,
            Token::Real => Token::Real,
            Token::IntegerConst(value) => Token::IntegerConst(value.clone()),
            Token::RealConst(value) => Token::RealConst(value.clone()),
            Token::Id(name) => Token::Id(name.clone()),
            Token::Colon => Token::Colon,
            Token::Comma => Token::Comma,
            Token::Semi => Token::Semi,
            Token::Period => Token::Period,
            Token::Plus => Token::Plus,
            Token::Minus => Token::Minus,
            Token::Multiply => Token::Multiply,
            Token::IntegerDivision => Token::IntegerDivision,
            Token::RealDivision => Token::RealDivision,
            Token::LParen => Token::LParen,
            Token::RParen => Token::RParen,
            Token::Assign => Token::Assign,
            Token::EOF => Token::EOF,
        }
    }
}

impl PartialEq for Token {
    fn eq(&self, other: &Token) -> (equal: bool) {
        match (self, other) {
            (Token::Program, Token::Program) => true,
            (Token::Procedure, Token::Procedure) => true,
            (Token::Begin, Token::Begin) => true,
            (Token::End, Token::End) => true,
            (Token::Var, Token::Var) => true,
            (Token::Integer, Token::Integer) => true,
            (Token::Real, Token::Real) => true,
            (Token::IntegerConst(a), Token::IntegerConst(b)) => *a == *b,
            (Token::RealConst(a), Token::RealConst(b)) => *a == *b,
            (Token::Id(a), Token::Id(b)) => *a == *b,
            (Token::Colon, Token::Colon) => true,
            (Token::Comma, Token::Comma) => true,
            (Token::Semi, Token::Semi) => true,
            (Token::Period, Token::Period) => true,
            (Token::Plus, Token::Plus) => true,
            (Token::Minus, Token::Minus) => true,
            (Token::Multiply, Token::Multiply) => true,
            (Token::IntegerDivision, Token::IntegerDivision) => true,
            (Token::RealDivision, Token::RealDivision) => true,
            (Token::LParen, Token::LParen) => true,
            (Token::RParen, Token::RParen) => true,
            (Token::Assign, Token::Assign) => true,
            (Token::EOF, Token::EOF) => true,
            _ => false,
        }
    }
}

impl PartialEqSpecImpl for Token {
    open spec fn obeys_eq_spec() -> bool {
        true
    }

    open spec fn eq_spec(&self, other: &Token) -> bool {
        self@ == other@
    }
}

impl Token {
    /// The text of the token, as [`TokenView::text`] defines it.
    pub fn to_string(&self) -> (text: String)
        ensures
            text@ == self@.text(),
    {
        match self {
            Token::Program => String::from_str("PROGRAM"),
            Token::Procedure => String::from_str("PROCEDURE"),
            Token::Begin => String::from_str("BEGIN"),
            Token::End => String::from_str("END"),
            Token::Var => String::from_str("VAR"),
            Token::Integer => String::from_str("INTEGER"),
            Token::Real => String::from_str("REAL"),
            Token::IntegerConst(value) => value.clone(),
            Token::RealConst(value) => value.clone(),
            Token::Id(name) => name.clone(),
            Token::Colon => String::from_str(":"),
            Token::Comma => String::from_str(","),
            Token::Semi => String::from_str(";"),
            Token::Period => String::from_str("."),
            Token::Plus => String::from_str("+"),
            Token::Minus => String::from_str("-"),
            Token::Multiply => String::from_str("*"),
            Token::IntegerDivision => String::from_str("DIV"),
            Token::RealDivision => String::from_str("/"),
            Token::LParen => String::from_str("("),
            Token::RParen => String::from_str(")"),
            Token::Assign => String::from_str(":="),
            Token::EOF => String::from_str("EOF"),
        }
    }
}

} // verus!
