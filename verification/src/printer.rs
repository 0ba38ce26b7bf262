//! Expressions as text: the tokens of an expression tree, and tokens
//! written out with one space between them.
//!
//! Binary operations are printed in parentheses, so the text of a tree
//! parses to that tree whatever the operators are.
use vstd::prelude::*;
use vstd::string::StringExecFns;
use crate::node::{Node, NodeView};
use crate::parser::tokens_view;
use crate::text::push_char;
use crate::token::{Token, TokenView};

verus! {

/// Whether a tree is an expression: a literal, a variable, or an operation
/// on expressions.
pub open spec fn is_expression(node: NodeView) -> bool
    decreases node,
{
    match node {
        NodeView::Integer { value } => true,
        NodeView::Real { text } => true,
        NodeView::Var { identifier } => true,
        NodeView::UnaryOp { operator, expr } => is_expression(*expr),
        NodeView::BinOp { left, right, operator } => is_expression(*left) && is_expression(
            *right,
        ),
        _ => false,
    }
}

/// The character of a decimal digit.
pub open spec fn digit_char(d: nat) -> char
    recommends
        d < 10,
{
    ('0' as u8 + d as u8) as char
}

/// The decimal numeral of a number, without leading zeros.
pub open spec fn decimal_digits(n: nat) -> Seq<char>
    decreases n,
{
    if n < 10 {
        seq![digit_char(n)]
    } else {
        decimal_digits(n / 10).push(digit_char(n % 10))
    }
}

/// The tokens of an integer: its numeral, after a minus sign if it is
/// negative.
pub open spec fn integer_tokens(value: i32) -> Seq<TokenView> {
    if value >= 0 {
        seq![TokenView::IntegerConst(decimal_digits(value as nat))]
    } else {
        seq![TokenView::Minus, TokenView::IntegerConst(decimal_digits((-value) as nat))]
    }
}

/// The tokens of an expression. A literal and a variable are one token, a
/// unary operation is its operator and then its operand, and a binary
/// operation is `(`, the left operand, the operator, the right operand and
/// `)`. A tree that is no expression has no tokens.
pub open spec fn unparse(node: NodeView) -> Seq<TokenView>
    decreases node,
{
    match node {
        NodeView::Integer { value } => integer_tokens(value),
        NodeView::Real { text } => seq![TokenView::RealConst(text)],
        NodeView::Var { identifier } => seq![identifier],
        NodeView::UnaryOp { operator, expr } => seq![operator] + unparse(*expr),
        NodeView::BinOp { left, right, operator } => seq![TokenView::LParen] + unparse(*left)
            + seq![operator] + unparse(*right) + seq![TokenView::RParen],
        _ => Seq::empty(),
    }
}

/// The texts of the tokens, with one space between each two.
pub open spec fn render(tokens: Seq<TokenView>) -> Seq<char>
    decreases tokens.len(),
{
    if tokens.len() == 0 {
        Seq::empty()
    } else if tokens.len() == 1 {
        tokens[0].text()
    } else {
        tokens[0].text() + seq![' '] + render(tokens.drop_first())
    }
}

/// Appends the decimal numeral of `n` to `out`.
fn push_decimal(n: u32, out: &mut String)
    ensures
        final(out)@ == old(out)@ + decimal_digits(n as nat),
    decreases n,
{
    if n >= 10 {
        push_decimal(n / 10, out);
    }
    let digit = ('0' as u8 + (n % 10) as u8) as char;
    push_char(out, digit);
    proof {
        if n >= 10 {
            assert(old(out)@ + decimal_digits(n as nat) == (old(out)@ + decimal_digits(
                (n / 10) as nat,
            )).push(digit));
        } else {
            assert(old(out)@ + decimal_digits(n as nat) == old(out)@.push(digit));
        }
    }
}

/// Appends the tokens of an integer to `out`.
fn push_integer(value: i32, out: &mut Vec<Token>)
    ensures
        tokens_view(final(out)@) == tokens_view(old(out)@) + integer_tokens(value),
{
    let mut numeral = String::new();
    if value >= 0 {
        push_decimal(value as u32, &mut numeral);
        assert(numeral@ == decimal_digits(value as nat)) by {
            assert(Seq::<char>::empty() + decimal_digits(value as nat) == decimal_digits(
                value as nat,
            ));
        }
    } else {
        out.push(Token::Minus);
        let magnitude: u32 = if value == i32::MIN {
            0x8000_0000u32
        } else {
            (-value) as u32
        };
        push_decimal(magnitude, &mut numeral);
        assert(numeral@ == decimal_digits((-value) as nat)) by {
            assert(Seq::<char>::empty() + decimal_digits((-value) as nat) == decimal_digits(
                (-value) as nat,
            ));
        }
    }
    out.push(Token::IntegerConst(numeral));
    assert(tokens_view(out@) =~= tokens_view(old(out)@) + integer_tokens(value));
}

/// Appends the tokens of the expression `node` to `out`.
pub fn push_tokens(node: &Node, out: &mut Vec<Token>)
    ensures
        tokens_view(final(out)@) == tokens_view(old(out)@) + unparse(node@),
    decreases node,
{
    let ghost before = tokens_view(out@);
    match node {
        Node::Integer(n) => {
            push_integer(n.value, out);
        },
        Node::Real(n) => {
            out.push(Token::RealConst(n.value.clone()));
            assert(tokens_view(out@) =~= before + unparse(node@));
        },
        Node::Var(n) => {
            out.push(n.identifier.clone());
            assert(tokens_view(out@) =~= before + unparse(node@));
        },
        Node::UnaryOp(n) => {
            out.push(n.operator.clone());
            assert(tokens_view(out@) =~= before + seq![n.operator@]);
            push_tokens(&n.expr, out);
            assert(tokens_view(out@) =~= before + unparse(node@));
        },
        Node::BinOp(n) => {
            out.push(Token::LParen);
            assert(tokens_view(out@) =~= before + seq![TokenView::LParen]);
            push_tokens(&n.left, out);
            let ghost with_left = tokens_view(out@);
            out.push(n.operator.clone());
            assert(tokens_view(out@) =~= with_left + seq![n.operator@]);
            push_tokens(&n.right, out);
            let ghost with_right = tokens_view(out@);
            out.push(Token::RParen);
            assert(tokens_view(out@) =~= with_right + seq![TokenView::RParen]);
            assert(tokens_view(out@) =~= before + unparse(node@));
        },
        _ => {
            assert(tokens_view(out@) =~= before + unparse(node@));
        },
    }
}

/// The tokens of the expression `node`.
pub fn tokens_of(node: &Node) -> (tokens: Vec<Token>)
    ensures
        tokens_view(tokens@) == unparse(node@),
{
    let mut tokens: Vec<Token> = Vec::new();
    push_tokens(node, &mut tokens);
    assert(tokens_view(tokens@) =~= unparse(node@));
    tokens
}

/// The rendering of a list that grew by one token.
pub proof fn lemma_render_push(tokens: Seq<TokenView>, token: TokenView)
    ensures
        render(tokens.push(token)) == if tokens.len() == 0 {
            token.text()
        } else {
            render(tokens) + seq![' '] + token.text()
        },
    decreases tokens.len(),
{
    let grown = tokens.push(token);
    if tokens.len() == 0 {
        assert(grown[0] == token);
    } else {
        assert(grown[0] == tokens[0]);
        assert(grown.drop_first() == tokens.drop_first().push(token));
        lemma_render_push(tokens.drop_first(), token);
        if tokens.len() == 1 {
            assert(tokens.drop_first().len() == 0);
            assert(render(grown) == tokens[0].text() + seq![' '] + token.text());
        } else {
            assert(render(grown) == tokens[0].text() + seq![' '] + (render(tokens.drop_first())
                + seq![' '] + token.text()));
            assert(tokens[0].text() + seq![' '] + (render(tokens.drop_first()) + seq![' ']
                + token.text()) == (tokens[0].text() + seq![' '] + render(tokens.drop_first()))
                + seq![' '] + token.text());
        }
    }
}

/// The texts of `tokens`, with one space between each two.
pub fn render_tokens(tokens: &Vec<Token>) -> (text: String)
    ensures
        text@ == render(tokens_view(tokens@)),
{
    let mut text = String::new();
    let mut i: usize = 0;
    let ghost all = tokens_view(tokens@);
    assert(all.take(0) =~= Seq::<TokenView>::empty());
    while i < tokens.len()
        invariant
            i <= tokens.len(),
            all == tokens_view(tokens@),
            text@ == render(all.take(i as int)),
        decreases tokens.len() - i,
    {
        proof {
            lemma_render_push(all.take(i as int), all[i as int]);
            assert(all.take(i as int).push(all[i as int]) == all.take(i + 1));
            reveal_strlit(" ");
            assert(" "@ == seq![' ']);
        }
        if i > 0 {
            text.append(" ");
        }
        let word = tokens[i].to_string();
        text.append(word.as_str());
        proof {
            if i == 0 {
                assert(Seq::<char>::empty() + word@ == word@);
            }
        }
        i += 1;
    }
    assert(all.take(i as int) == all);
    text
}

/// The text of the expression `node`: its tokens, with one space between
/// each two.
pub fn to_string(node: &Node) -> (text: String)
    ensures
        text@ == render(unparse(node@)),
{
    let tokens = tokens_of(node);
    render_tokens(&tokens)
}

} // verus!
