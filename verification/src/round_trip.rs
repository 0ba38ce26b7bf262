//! Printing and parsing agree: the text of an expression parses back to
//! the expression.
use vstd::prelude::*;
use crate::error::InterpretErrorView;
use crate::grammar::{
    expr, expr_rest, expression, factor, is_additive, is_multiplicative, term, term_rest,
    well_formed, Failure, Stream,
};
use crate::lexer::{
    lemma_scan_progress, lexemes, punctuation, reserved_word, scan, LexError, Scan,
};
use crate::node::NodeView;
use crate::printer::{decimal_digits, is_expression, render, unparse};
use crate::text::{
    decimal_value, digit_value, is_alphanumeric, is_digit, is_letter, is_numeral, is_space,
    lemma_run_length, lemma_run_length_bounds, run_length, uppercase, CharClass,
};
use crate::token::TokenView;

verus! {

/// The stream in which every token of `tokens` was lexed without error.
pub open spec fn lexed(tokens: Seq<TokenView>) -> Stream {
    Seq::new(tokens.len(), |i: int| Ok::<TokenView, LexError>(tokens[i]))
}

/// The stream of two lists put together.
pub proof fn lemma_lexed_concat(a: Seq<TokenView>, b: Seq<TokenView>)
    ensures
        lexed(a + b) == lexed(a) + lexed(b),
{
    assert(lexed(a + b) =~= lexed(a) + lexed(b));
}

/// The numeral of a number is a numeral, and it denotes the number.
pub proof fn lemma_decimal_digits_value(n: nat)
    ensures
        is_numeral(decimal_digits(n)),
        decimal_value(decimal_digits(n)) == n,
    decreases n,
{
    let digits = decimal_digits(n);
    if n < 10 {
        assert(digits.drop_last() =~= Seq::<char>::empty());
        assert(decimal_value(digits.drop_last()) == 0);
        assert(digit_value(digits.last()) == n);
    } else {
        lemma_decimal_digits_value(n / 10);
        assert(digits.drop_last() =~= decimal_digits(n / 10));
        assert(digit_value(digits.last()) == n % 10);
        assert forall|i: int| 0 <= i < digits.len() implies is_digit(#[trigger] digits[i]) by {
            if i < digits.len() - 1 {
                assert(digits[i] == decimal_digits(n / 10)[i]);
            }
        }
    }
}

/// The tokens of a well-formed expression, read as a factor, give the
/// expression and leave what follows them.
pub proof fn lemma_factor_of_unparse(e: NodeView, rest: Stream)
    requires
        is_expression(e),
        well_formed(e),
    ensures
        factor(lexed(unparse(e)) + rest) == Ok::<(NodeView, Stream), Failure>(
            (e, rest),
        ),
    decreases e,
{
    let ts = lexed(unparse(e)) + rest;
    match e {
        NodeView::Integer { value } => {
            lemma_decimal_digits_value(value as nat);
            assert(ts.drop_first() == rest);
        },
        NodeView::Real { text } => {
            assert(ts.drop_first() == rest);
        },
        NodeView::Var { identifier } => {
            assert(ts.drop_first() == rest);
        },
        NodeView::UnaryOp { operator, expr } => {
            lemma_lexed_concat(seq![operator], unparse(*expr));
            assert(ts.drop_first() == lexed(unparse(*expr)) + rest);
            lemma_factor_of_unparse(*expr, rest);
        },
        NodeView::BinOp { left, right, operator } => {
            let close = seq![Ok::<TokenView, LexError>(TokenView::RParen)] + rest;
            let right_on = lexed(unparse(*right)) + close;
            let operator_on = seq![Ok::<TokenView, LexError>(operator)] + right_on;
            let left_on = lexed(unparse(*left)) + operator_on;
            lemma_lexed_concat(
                seq![TokenView::LParen] + unparse(*left) + seq![operator] + unparse(*right),
                seq![TokenView::RParen],
            );
            lemma_lexed_concat(
                seq![TokenView::LParen] + unparse(*left) + seq![operator],
                unparse(*right),
            );
            lemma_lexed_concat(seq![TokenView::LParen] + unparse(*left), seq![operator]);
            lemma_lexed_concat(seq![TokenView::LParen], unparse(*left));
            assert(ts =~= seq![Ok::<TokenView, LexError>(TokenView::LParen)] + left_on);
            assert(ts.drop_first() == left_on);
            assert(operator_on.drop_first() == right_on);
            assert(close.drop_first() == rest);
            lemma_factor_of_unparse(*left, operator_on);
            lemma_factor_of_unparse(*right, close);
            let whole = NodeView::BinOp { left, right, operator };
            assert(term_rest(whole, close) == Ok::<(NodeView, Stream), Failure>(
                (whole, close),
            ));
            assert(expr_rest(whole, close) == Ok::<(NodeView, Stream), Failure>(
                (whole, close),
            ));
            if is_multiplicative(operator) {
                assert(term_rest(*left, operator_on) == term_rest(whole, close));
                assert(term(left_on) == Ok::<(NodeView, Stream), Failure>(
                    (whole, close),
                ));
                assert(expr(left_on) == expr_rest(whole, close));
            } else {
                assert(is_additive(operator));
                assert(term_rest(*left, operator_on) == Ok::<(NodeView, Stream), Failure>((*left, operator_on)));
                assert(term(left_on) == Ok::<(NodeView, Stream), Failure>(
                    (*left, operator_on),
                ));
                assert(term_rest(*right, close) == Ok::<(NodeView, Stream), Failure>(
                    (*right, close),
                ));
                assert(term(right_on) == Ok::<(NodeView, Stream), Failure>(
                    (*right, close),
                ));
                assert(expr_rest(*left, operator_on) == expr_rest(whole, close));
                assert(expr(left_on) == expr_rest(*left, operator_on));
            }
            assert(expr(left_on) == Ok::<(NodeView, Stream), Failure>((whole, close)));
        },
        _ => {},
    }
}

/// The tokens of a well-formed expression, followed by the end of input,
/// parse to the expression.
pub proof fn lemma_expression_of_unparse(e: NodeView)
    requires
        is_expression(e),
        well_formed(e),
    ensures
        expression(lexed(unparse(e)) + seq![Ok::<TokenView, LexError>(TokenView::EOF)]) == Ok::<
            NodeView,
            InterpretErrorView,
        >(e),
{
    let end = seq![Ok::<TokenView, LexError>(TokenView::EOF)];
    let ts = lexed(unparse(e)) + end;
    lemma_factor_of_unparse(e, end);
    assert(term_rest(e, end) == Ok::<(NodeView, Stream), Failure>((e, end)));
    assert(term(ts) == Ok::<(NodeView, Stream), Failure>((e, end)));
    assert(expr_rest(e, end) == Ok::<(NodeView, Stream), Failure>((e, end)));
    assert(expr(ts) == Ok::<(NodeView, Stream), Failure>((e, end)));
}

/// An identifier as the lexer reads one: letters and digits, the first a
/// letter, and no keyword in any case.
pub open spec fn is_identifier(name: Seq<char>) -> bool {
    &&& name.len() > 0
    &&& is_letter(name[0])
    &&& forall|i: int| 0 <= i < name.len() ==> is_alphanumeric(#[trigger] name[i])
    &&& reserved_word(name) is None
}

/// A real constant as the lexer reads one: a numeral, a point and a
/// numeral.
pub open spec fn is_real_numeral(text: Seq<char>) -> bool {
    let n = run_length(text, CharClass::Digit) as int;
    &&& 0 < n
    &&& n + 1 < text.len()
    &&& text[n] == '.'
    &&& is_numeral(text.skip(n + 1))
}

/// A token that the lexer can yield: its text is of its kind.
pub open spec fn lexable(token: TokenView) -> bool {
    match token {
        TokenView::Id(name) => is_identifier(name),
        TokenView::IntegerConst(text) => is_numeral(text),
        TokenView::RealConst(text) => is_real_numeral(text),
        TokenView::EOF => false,
        _ => true,
    }
}

/// What may follow the text of a token without changing how the token is
/// read: nothing, or a space.
pub open spec fn separates(suffix: Seq<char>) -> bool {
    suffix.len() == 0 || suffix[0] == ' '
}

/// The text of a punctuation mark, followed by a space or by nothing, is
/// scanned as the mark.
proof fn lemma_scan_mark(token: TokenView, c: char, suffix: Seq<char>)
    requires
        token.text() == seq![c],
        punctuation(c) == Some(token),
        separates(suffix),
    ensures
        scan(token.text() + suffix) == (Scan { lexeme: Ok(token), rest: suffix }),
{
    let s = token.text() + suffix;
    assert(s[0] == c);
    assert(s.drop_first() == suffix);
    if s.len() > 1 {
        assert(s[1] == suffix[0]);
    }
}

/// The text of a keyword, followed by a space or by nothing, is scanned as
/// a word that spells the keyword.
proof fn lemma_scan_keyword(token: TokenView, suffix: Seq<char>)
    requires
        token.text().len() > 0,
        forall|i: int| 0 <= i < token.text().len() ==> 'A' <= #[trigger] token.text()[i] <= 'Z',
        reserved_word(token.text()) == Some(token),
        separates(suffix),
    ensures
        scan(token.text() + suffix) == (Scan { lexeme: Ok(token), rest: suffix }),
{
    let word = token.text();
    let s = word + suffix;
    let n = word.len();
    assert(s[0] == word[0]);
    assert forall|j: int| 0 <= j < n implies CharClass::Alphanumeric.has(#[trigger] s[j]) by {
        assert(s[j] == word[j]);
    }
    if n < s.len() {
        assert(s[n as int] == suffix[0]);
    }
    lemma_run_length(s, CharClass::Alphanumeric, n);
    assert(s.take(n as int) == word);
    assert(s.skip(n as int) == suffix);
}

/// A word of capital letters is its own upper-case form.
proof fn lemma_uppercase_of_capitals(word: Seq<char>)
    requires
        forall|i: int| 0 <= i < word.len() ==> 'A' <= #[trigger] word[i] <= 'Z',
    ensures
        uppercase(word) == word,
{
    assert(uppercase(word) =~= word);
}

/// The text of a token that the lexer can yield, followed by a space or by
/// nothing, is scanned as that token, and what follows is left.
pub proof fn lemma_scan_token(token: TokenView, suffix: Seq<char>)
    requires
        lexable(token),
        separates(suffix),
    ensures
        scan(token.text() + suffix) == (Scan { lexeme: Ok(token), rest: suffix }),
{
    let s = token.text() + suffix;
    reveal_strlit("PROGRAM");
    reveal_strlit("VAR");
    reveal_strlit("PROCEDURE");
    reveal_strlit("BEGIN");
    reveal_strlit("END");
    reveal_strlit("INTEGER");
    reveal_strlit("REAL");
    reveal_strlit("DIV");
    match token {
        TokenView::Plus => {
            reveal_strlit("+");
            assert("+"@ =~= seq!['+']);
            lemma_scan_mark(token, '+', suffix);
        },
        TokenView::Minus => {
            reveal_strlit("-");
            assert("-"@ =~= seq!['-']);
            lemma_scan_mark(token, '-', suffix);
        },
        TokenView::Multiply => {
            reveal_strlit("*");
            assert("*"@ =~= seq!['*']);
            lemma_scan_mark(token, '*', suffix);
        },
        TokenView::RealDivision => {
            reveal_strlit("/");
            assert("/"@ =~= seq!['/']);
            lemma_scan_mark(token, '/', suffix);
        },
        TokenView::LParen => {
            reveal_strlit("(");
            assert("("@ =~= seq!['(']);
            lemma_scan_mark(token, '(', suffix);
        },
        TokenView::RParen => {
            reveal_strlit(")");
            assert(")"@ =~= seq![')']);
            lemma_scan_mark(token, ')', suffix);
        },
        TokenView::Semi => {
            reveal_strlit(";");
            assert(";"@ =~= seq![';']);
            lemma_scan_mark(token, ';', suffix);
        },
        TokenView::Period => {
            reveal_strlit(".");
            assert("."@ =~= seq!['.']);
            lemma_scan_mark(token, '.', suffix);
        },
        TokenView::Colon => {
            reveal_strlit(":");
            assert(":"@ =~= seq![':']);
            lemma_scan_mark(token, ':', suffix);
        },
        TokenView::Comma => {
            reveal_strlit(",");
            assert(","@ =~= seq![',']);
            lemma_scan_mark(token, ',', suffix);
        },
        TokenView::Assign => {
            reveal_strlit(":=");
            assert(s[0] == ':');
            assert(s[1] == '=');
            assert(s.skip(2) == suffix);
        },
        TokenView::Program => {
            lemma_uppercase_of_capitals("PROGRAM"@);
            lemma_scan_keyword(token, suffix);
        },
        TokenView::Var => {
            lemma_uppercase_of_capitals("VAR"@);
            lemma_scan_keyword(token, suffix);
        },
        TokenView::Procedure => {
            lemma_uppercase_of_capitals("PROCEDURE"@);
            lemma_scan_keyword(token, suffix);
        },
        TokenView::Begin => {
            lemma_uppercase_of_capitals("BEGIN"@);
            lemma_scan_keyword(token, suffix);
        },
        TokenView::End => {
            lemma_uppercase_of_capitals("END"@);
            assert("END"@[0] != "VAR"@[0]);
            lemma_scan_keyword(token, suffix);
        },
        TokenView::Integer => {
            lemma_uppercase_of_capitals("INTEGER"@);
            assert("INTEGER"@[0] != "PROGRAM"@[0]);
            lemma_scan_keyword(token, suffix);
        },
        TokenView::Real => {
            lemma_uppercase_of_capitals("REAL"@);
            lemma_scan_keyword(token, suffix);
        },
        TokenView::IntegerDivision => {
            lemma_uppercase_of_capitals("DIV"@);
            assert("DIV"@[0] != "VAR"@[0]);
            assert("DIV"@[0] != "END"@[0]);
            lemma_scan_keyword(token, suffix);
        },
        TokenView::Id(name) => {
            let n = name.len();
            assert(s[0] == name[0]);
            assert forall|j: int| 0 <= j < n implies CharClass::Alphanumeric.has(
                #[trigger] s[j],
            ) by {
                assert(s[j] == name[j]);
            }
            if n < s.len() {
                assert(s[n as int] == suffix[0]);
            }
            lemma_run_length(s, CharClass::Alphanumeric, n);
            assert(s.take(n as int) == name);
            assert(s.skip(n as int) == suffix);
        },
        TokenView::IntegerConst(text) => {
            let n = text.len();
            assert(s[0] == text[0]);
            assert forall|j: int| 0 <= j < n implies CharClass::Digit.has(#[trigger] s[j]) by {
                assert(s[j] == text[j]);
            }
            if n < s.len() {
                assert(s[n as int] == suffix[0]);
            }
            lemma_run_length(s, CharClass::Digit, n);
            assert(s.take(n as int) == text);
            assert(s.skip(n as int) == suffix);
        },
        TokenView::RealConst(text) => {
            let n = run_length(text, CharClass::Digit) as int;
            let fraction = text.skip(n + 1);
            let m = fraction.len() as int;
            lemma_run_length_bounds(text, CharClass::Digit);
            assert(s[0] == text[0]);
            assert forall|j: int| 0 <= j < n implies CharClass::Digit.has(#[trigger] s[j]) by {
                assert(s[j] == text[j]);
            }
            assert(s[n] == text[n]);
            lemma_run_length(s, CharClass::Digit, n as nat);
            assert(s[n + 1] == fraction[0]);
            let after = s.skip(n + 1);
            assert forall|j: int| 0 <= j < m implies CharClass::Digit.has(
                #[trigger] after[j],
            ) by {
                assert(after[j] == fraction[j]);
            }
            if m < after.len() {
                assert(after[m] == suffix[0]);
            }
            lemma_run_length(after, CharClass::Digit, m as nat);
            assert(s.take(n + 1 + m) == text);
            assert(s.skip(n + 1 + m) == suffix);
        },
        TokenView::EOF => {},
    }
}

/// White space at the start of a text does not change its lexemes.
pub proof fn lemma_lexemes_skip_space(s: Seq<char>)
    requires
        s.len() > 0,
        is_space(s[0]),
    ensures
        lexemes(s) == lexemes(s.drop_first()),
{
    lemma_scan_progress(s.drop_first());
}

/// Lexing the rendering of tokens gives the tokens back, and then the end
/// of input.
pub proof fn lemma_lexemes_of_render(tokens: Seq<TokenView>)
    requires
        all_lexable(tokens),
    ensures
        lexemes(render(tokens)) == lexed(tokens) + seq![
            Ok::<TokenView, LexError>(TokenView::EOF),
        ],
    decreases tokens.len(),
{
    let end = seq![Ok::<TokenView, LexError>(TokenView::EOF)];
    let s = render(tokens);
    if tokens.len() == 0 {
        assert(lexed(tokens) + end =~= end);
    } else {
        let first = tokens[0];
        let others = tokens.drop_first();
        assert(lexable(first));
        assert forall|i: int| 0 <= i < others.len() implies lexable(#[trigger] others[i]) by {
            assert(others[i] == tokens[i + 1]);
        }
        lemma_lexemes_of_render(others);
        let suffix = if tokens.len() == 1 {
            Seq::<char>::empty()
        } else {
            seq![' '] + render(others)
        };
        assert(s =~= first.text() + suffix);
        lemma_scan_token(first, suffix);
        lemma_scan_progress(s);
        assert(lexemes(s) == seq![Ok::<TokenView, LexError>(first)] + lexemes(suffix));
        if tokens.len() > 1 {
            lemma_lexemes_skip_space(suffix);
            assert(suffix.drop_first() == render(others));
        } else {
            assert(others.len() == 0);
        }
        assert(lexed(tokens) + end =~= seq![Ok::<TokenView, LexError>(first)] + (lexed(others)
            + end));
    }
}

/// An expression whose text the lexer reads back token by token: its
/// operators are those of the language, its integers are not negative,
/// its reals are real numerals and its variables are identifiers.
pub open spec fn printable(e: NodeView) -> bool
    decreases e,
{
    match e {
        NodeView::Integer { value } => value >= 0,
        NodeView::Real { text } => is_real_numeral(text),
        NodeView::Var { identifier } => identifier matches TokenView::Id(name) && is_identifier(
            name,
        ),
        NodeView::UnaryOp { operator, expr } => is_additive(operator) && printable(*expr),
        NodeView::BinOp { left, right, operator } => (is_additive(operator) || is_multiplicative(
            operator,
        )) && printable(*left) && printable(*right),
        _ => false,
    }
}

/// Whether the lexer can yield every token of a list.
pub open spec fn all_lexable(tokens: Seq<TokenView>) -> bool {
    forall|i: int| 0 <= i < tokens.len() ==> lexable(#[trigger] tokens[i])
}

/// Two lists of tokens that the lexer can yield, put together.
proof fn lemma_all_lexable_concat(a: Seq<TokenView>, b: Seq<TokenView>)
    requires
        all_lexable(a),
        all_lexable(b),
    ensures
        all_lexable(a + b),
{
    assert forall|i: int| 0 <= i < (a + b).len() implies lexable(#[trigger] (a + b)[i]) by {
        if i < a.len() {
            assert((a + b)[i] == a[i]);
        } else {
            assert((a + b)[i] == b[i - a.len()]);
        }
    }
}

/// A printable expression is a well-formed expression, and the lexer can
/// yield each of its tokens.
pub proof fn lemma_printable_tokens(e: NodeView)
    requires
        printable(e),
    ensures
        is_expression(e),
        well_formed(e),
        all_lexable(unparse(e)),
    decreases e,
{
    match e {
        NodeView::Integer { value } => {
            lemma_decimal_digits_value(value as nat);
        },
        NodeView::UnaryOp { operator, expr } => {
            lemma_printable_tokens(*expr);
            lemma_all_lexable_concat(seq![operator], unparse(*expr));
        },
        NodeView::BinOp { left, right, operator } => {
            lemma_printable_tokens(*left);
            lemma_printable_tokens(*right);
            let open = seq![TokenView::LParen];
            lemma_all_lexable_concat(open, unparse(*left));
            lemma_all_lexable_concat(open + unparse(*left), seq![operator]);
            lemma_all_lexable_concat(open + unparse(*left) + seq![operator], unparse(*right));
            lemma_all_lexable_concat(
                open + unparse(*left) + seq![operator] + unparse(*right),
                seq![TokenView::RParen],
            );
        },
        _ => {},
    }
}

/// Printing an expression and then lexing and parsing the text gives the
/// expression back.
pub proof fn lemma_print_then_parse(e: NodeView)
    requires
        printable(e),
    ensures
        expression(lexemes(render(unparse(e)))) == Ok::<NodeView, InterpretErrorView>(e),
{
    lemma_printable_tokens(e);
    lemma_lexemes_of_render(unparse(e));
    lemma_expression_of_unparse(e);
}

} // verus!
