use basic_interpreter::lexer::{LexError, Lexer};
use basic_interpreter::token::Token;
use basic_interpreter::token::Token::{
    Assign, Begin, Colon, Comma, End, Id, Integer, IntegerConst, IntegerDivision, LParen, Minus,
    Multiply, Period, Plus, Procedure, Program, RParen, Real, RealConst, RealDivision, Semi, Var,
    EOF,
};

fn tokens(text: &str) -> Vec<Token> {
    let mut lexer = Lexer::new(text);
    let mut result = Vec::new();
    loop {
        let token = lexer.get_next_token().unwrap();
        let done = token == EOF;
        result.push(token);
        if done {
            return result;
        }
    }
}

#[test]
fn lexer_add_two_single_digit_numbers() {
    let mut lexer = Lexer::new("4 + 7".into());

    assert_eq!(lexer.get_next_token().unwrap(), IntegerConst("4".to_string()));
    assert_eq!(lexer.get_next_token().unwrap(), Plus);
    assert_eq!(lexer.get_next_token().unwrap(), IntegerConst("7".to_string()));
    assert_eq!(lexer.get_next_token().unwrap(), EOF);
}

#[test]
fn lexer_multiply_two_single_digit_numbers() {
    let mut lexer = Lexer::new("4 * 7".into());

    assert_eq!(lexer.get_next_token().unwrap(), IntegerConst("4".to_string()));
    assert_eq!(lexer.get_next_token().unwrap(), Multiply);
    assert_eq!(lexer.get_next_token().unwrap(), IntegerConst("7".to_string()));
    assert_eq!(lexer.get_next_token().unwrap(), EOF);
}

#[test]
fn multiply_two_real_numbers() {
    let mut lexer = Lexer::new("4.125 * 3.3333".into());

    let first = lexer.get_next_token().unwrap();
    assert_eq!(first, RealConst("4.125".to_string()));
    assert_eq!(lexer.get_next_token().unwrap(), Multiply);
    let second = lexer.get_next_token().unwrap();
    assert_eq!(second, RealConst("3.3333".to_string()));
    assert_eq!(lexer.get_next_token().unwrap(), EOF);

    assert_eq!(first.to_string().parse::<f32>().unwrap(), 4.125);
    assert_eq!(second.to_string().parse::<f32>().unwrap(), 3.3333);
}

#[test]
fn lex_expression_in_parens() {
    let mut lexer = Lexer::new("(4 - 7)".into());

    assert_eq!(lexer.get_next_token().unwrap(), LParen);
    assert_eq!(lexer.get_next_token().unwrap(), IntegerConst("4".to_string()));
    assert_eq!(lexer.get_next_token().unwrap(), Minus);
    assert_eq!(lexer.get_next_token().unwrap(), IntegerConst("7".to_string()));
    assert_eq!(lexer.get_next_token().unwrap(), RParen);
    assert_eq!(lexer.get_next_token().unwrap(), EOF);
}

#[test]
fn lex_reserved_keywords() {
    let mut lexer = Lexer::new("BEGIN END.".into());

    assert_eq!(lexer.get_next_token().unwrap(), Begin);
    assert_eq!(lexer.get_next_token().unwrap(), End);
    assert_eq!(lexer.get_next_token().unwrap(), Period);
    assert_eq!(lexer.get_next_token().unwrap(), EOF);
}

#[test]
fn lex_assignment() {
    let mut lexer = Lexer::new("a := 10;".into());

    assert_eq!(lexer.get_next_token().unwrap(), Id("a".to_string()));
    assert_eq!(lexer.get_next_token().unwrap(), Assign);
    assert_eq!(lexer.get_next_token().unwrap(), IntegerConst("10".to_string()));
    assert_eq!(lexer.get_next_token().unwrap(), Semi);
    assert_eq!(lexer.get_next_token().unwrap(), EOF);
}

#[test]
fn lex_comment() {
    let mut lexer = Lexer::new(r#"{ This is how you write a comment }"#.into());
    assert_eq!(lexer.get_next_token().unwrap(), EOF);
}

#[test]
fn empty_text_is_end_of_input() {
    let mut lexer = Lexer::new("");
    assert_eq!(lexer.get_next_token(), Ok(EOF));
    assert_eq!(lexer.get_next_token(), Ok(EOF));
}

#[test]
fn end_of_input_repeats() {
    let mut lexer = Lexer::new("x  ");
    assert_eq!(lexer.get_next_token(), Ok(Id("x".to_string())));
    assert_eq!(lexer.get_next_token(), Ok(EOF));
    assert_eq!(lexer.get_next_token(), Ok(EOF));
}

#[test]
fn every_keyword_in_any_case() {
    assert_eq!(
        tokens("PROGRAM program Var PROCEDURE begin END integer Real div"),
        vec![Program, Program, Var, Procedure, Begin, End, Integer, Real, IntegerDivision, EOF]
    );
}

#[test]
fn identifier_keeps_its_case() {
    assert_eq!(tokens("NoSemiColon"), vec![Id("NoSemiColon".to_string()), EOF]);
    assert_eq!(tokens("beginning"), vec![Id("beginning".to_string()), EOF]);
    assert_eq!(tokens("x1y2"), vec![Id("x1y2".to_string()), EOF]);
}

#[test]
fn every_punctuation_mark() {
    assert_eq!(
        tokens("+ - * / ( ) ; . : , :="),
        vec![
            Plus,
            Minus,
            Multiply,
            RealDivision,
            LParen,
            RParen,
            Semi,
            Period,
            Colon,
            Comma,
            Assign,
            EOF
        ]
    );
}

#[test]
fn colon_needs_an_equals_sign_to_assign() {
    assert_eq!(tokens("a:b"), vec![Id("a".to_string()), Colon, Id("b".to_string()), EOF]);
    assert_eq!(tokens("a:=b"), vec![Id("a".to_string()), Assign, Id("b".to_string()), EOF]);
    assert_eq!(tokens(":"), vec![Colon, EOF]);
}

#[test]
fn point_without_a_digit_after_it_is_not_part_of_the_number() {
    assert_eq!(tokens("3."), vec![IntegerConst("3".to_string()), Period, EOF]);
    assert_eq!(
        tokens("3.x"),
        vec![IntegerConst("3".to_string()), Period, Id("x".to_string()), EOF]
    );
    assert_eq!(tokens("3.25"), vec![RealConst("3.25".to_string()), EOF]);
    assert_eq!(
        tokens("1.2.3"),
        vec![RealConst("1.2".to_string()), Period, IntegerConst("3".to_string()), EOF]
    );
}

#[test]
fn number_ends_where_a_letter_begins() {
    assert_eq!(tokens("12ab"), vec![IntegerConst("12".to_string()), Id("ab".to_string()), EOF]);
}

#[test]
fn underscore_before_a_word_is_dropped() {
    assert_eq!(tokens("_a"), vec![Id("a".to_string()), EOF]);
    assert_eq!(
        tokens("an_int"),
        vec![Id("an".to_string()), Id("int".to_string()), EOF]
    );
}

#[test]
fn lone_underscore_is_unknown() {
    let mut lexer = Lexer::new("_");
    assert_eq!(lexer.get_next_token(), Err(LexError::UnknownCharacter('_')));
    let mut lexer = Lexer::new("_ a");
    assert_eq!(lexer.get_next_token(), Err(LexError::UnknownCharacter('_')));
}

#[test]
fn unknown_character_is_reported_and_not_passed() {
    let mut lexer = Lexer::new("a = 1");
    assert_eq!(lexer.get_next_token(), Ok(Id("a".to_string())));
    assert_eq!(lexer.get_next_token(), Err(LexError::UnknownCharacter('=')));
    assert_eq!(lexer.get_next_token(), Err(LexError::UnknownCharacter('=')));
    assert_eq!(lexer.current(), Some('='));
}

#[test]
fn character_outside_ascii_is_unknown() {
    let mut lexer = Lexer::new("é");
    assert_eq!(lexer.get_next_token(), Err(LexError::UnknownCharacter('é')));
}

#[test]
fn unterminated_comment_is_reported() {
    let mut lexer = Lexer::new("a { never closed");
    assert_eq!(lexer.get_next_token(), Ok(Id("a".to_string())));
    assert_eq!(lexer.get_next_token(), Err(LexError::UnterminatedComment));
    assert_eq!(lexer.current(), Some('{'));
}

#[test]
fn comments_and_white_space_between_tokens() {
    assert_eq!(
        tokens("{one}\t a {two}{three}\r\n b { }"),
        vec![Id("a".to_string()), Id("b".to_string()), EOF]
    );
}

#[test]
fn peek_and_advance_move_over_the_text() {
    let mut lexer = Lexer::new("ab");
    assert_eq!(lexer.current(), Some('a'));
    assert_eq!(lexer.peek(), Some('b'));
    lexer.advance();
    assert_eq!(lexer.current(), Some('b'));
    assert_eq!(lexer.peek(), None);
    lexer.advance();
    assert_eq!(lexer.current(), None);
    lexer.advance();
    assert_eq!(lexer.current(), None);
}

#[test]
fn token_text() {
    assert_eq!(Program.to_string(), "PROGRAM");
    assert_eq!(Procedure.to_string(), "PROCEDURE");
    assert_eq!(Begin.to_string(), "BEGIN");
    assert_eq!(End.to_string(), "END");
    assert_eq!(Var.to_string(), "VAR");
    assert_eq!(Integer.to_string(), "INTEGER");
    assert_eq!(Real.to_string(), "REAL");
    assert_eq!(IntegerConst("12".to_string()).to_string(), "12");
    assert_eq!(RealConst("1.5".to_string()).to_string(), "1.5");
    assert_eq!(Id("x".to_string()).to_string(), "x");
    assert_eq!(Colon.to_string(), ":");
    assert_eq!(Comma.to_string(), ",");
    assert_eq!(Semi.to_string(), ";");
    assert_eq!(Period.to_string(), ".");
    assert_eq!(Plus.to_string(), "+");
    assert_eq!(Minus.to_string(), "-");
    assert_eq!(Multiply.to_string(), "*");
    assert_eq!(IntegerDivision.to_string(), "DIV");
    assert_eq!(RealDivision.to_string(), "/");
    assert_eq!(LParen.to_string(), "(");
    assert_eq!(RParen.to_string(), ")");
    assert_eq!(Assign.to_string(), ":=");
    assert_eq!(EOF.to_string(), "EOF");
}

#[test]
fn tokens_compare_by_kind_and_text() {
    assert_eq!(Id("a".to_string()), Id("a".to_string()));
    assert_ne!(Id("a".to_string()), Id("b".to_string()));
    assert_ne!(Id("1".to_string()), IntegerConst("1".to_string()));
    assert_ne!(Plus, Minus);
    assert_eq!(Id("a".to_string()).clone(), Id("a".to_string()));
}
