//! Lexical analysis: from source text to tokens.
//!
//! [`scan`] says which token starts a text and what text is left after it;
//! [`lexemes`] is the whole stream. [`Lexer`] computes them one token at a
//! time.
use vstd::prelude::*;
use vstd::string::StringExecFns;
use crate::text::{
    chars_of, is_alphanumeric, is_digit, is_letter, is_space, lemma_run_length,
    lemma_run_length_bounds, push_char, run_length, spells, string_of, uppercase, CharClass,
};
use crate::token::{Token, TokenView};

verus! {

/// Why a text has no next token.
#[derive(Clone, Copy, Debug, PartialEq, Eq, Structural)]
pub enum LexError {
    /// A character that starts no token.
    UnknownCharacter(char),
    /// A `{` with no `}` after it.
    UnterminatedComment,
}

impl LexError {
    /// The message of the error.
    pub open spec fn text(self) -> Seq<char> {
        match self {
            LexError::UnknownCharacter(c) => "Unknown token found: "@.push(c),
            LexError::UnterminatedComment => "Comment without a closing brace"@,
        }
    }

    /// The message of the error.
    pub fn to_string(&self) -> (text: String)
        ensures
            text@ == self.text(),
    {
        match self {
            LexError::UnknownCharacter(c) => {
                let mut text = String::from_str("Unknown token found: ");
                push_char(&mut text, *c);
                text
            },
            LexError::UnterminatedComment => String::from_str("Comment without a closing brace"),
        }
    }
}

/// What the lexer yields: a token, or the reason there is none.
pub type Lexeme = Result<TokenView, LexError>;

/// The outcome of scanning one token: the lexeme and the text after it.
pub ghost struct Scan {
    pub lexeme: Lexeme,
    pub rest: Seq<char>,
}

/// A lexeme after which scanning stops: the end of input or an error.
pub open spec fn is_terminal(lexeme: Lexeme) -> bool {
    lexeme is Err || lexeme == Ok::<TokenView, LexError>(TokenView::EOF)
}

/// The text after the first `}` of `s`, if there is one.
pub open spec fn after_comment(s: Seq<char>) -> Option<Seq<char>>
    decreases s.len(),
{
    if s.len() == 0 {
        None
    } else if s[0] == '}' {
        Some(s.drop_first())
    } else {
        after_comment(s.drop_first())
    }
}

/// The keyword that `word` spells when case is ignored.
pub open spec fn reserved_word(word: Seq<char>) -> Option<TokenView> {
    let folded = uppercase(word);
    if folded == "PROGRAM"@ {
        Some(TokenView::Program)
    } else if folded == "VAR"@ {
        Some(TokenView::Var)
    } else if folded == "PROCEDURE"@ {
        Some(TokenView::Procedure)
    } else if folded == "BEGIN"@ {
        Some(TokenView::Begin)
    } else if folded == "END"@ {
        Some(TokenView::End)
    } else if folded == "INTEGER"@ {
        Some(TokenView::Integer)
    } else if folded == "REAL"@ {
        Some(TokenView::Real)
    } else if folded == "DIV"@ {
        Some(TokenView::IntegerDivision)
    } else {
        None
    }
}

/// The token of a run of letters and digits: a keyword, or an identifier
/// with its case kept.
pub open spec fn word_token(word: Seq<char>) -> TokenView {
    match reserved_word(word) {
        Some(token) => token,
        None => TokenView::Id(word),
    }
}

/// The token of a single punctuation character.
pub open spec fn punctuation(c: char) -> Option<TokenView> {
    if c == '+' {
        Some(TokenView::Plus)
    } else if c == '-' {
        Some(TokenView::Minus)
    } else if c == '*' {
        Some(TokenView::Multiply)
    } else if c == '/' {
        Some(TokenView::RealDivision)
    } else if c == '(' {
        Some(TokenView::LParen)
    } else if c == ')' {
        Some(TokenView::RParen)
    } else if c == ';' {
        Some(TokenView::Semi)
    } else if c == '.' {
        Some(TokenView::Period)
    } else if c == ':' {
        Some(TokenView::Colon)
    } else if c == ',' {
        Some(TokenView::Comma)
    } else {
        None
    }
}

/// A word at the start of `s`: the longest run of letters and digits.
pub open spec fn scan_word(s: Seq<char>) -> Scan {
    let n = run_length(s, CharClass::Alphanumeric) as int;
    Scan { lexeme: Ok(word_token(s.take(n))), rest: s.skip(n) }
}

/// A number at the start of `s`: a run of digits, which is a real constant
/// if a point and at least one more digit follow, and an integer constant
/// otherwise. A point that no digit follows is left in place.
pub open spec fn scan_number(s: Seq<char>) -> Scan {
    let n = run_length(s, CharClass::Digit) as int;
    if n + 1 < s.len() && s[n] == '.' && is_digit(s[n + 1]) {
        let m = run_length(s.skip(n + 1), CharClass::Digit) as int;
        Scan { lexeme: Ok(TokenView::RealConst(s.take(n + 1 + m))), rest: s.skip(n + 1 + m) }
    } else {
        Scan { lexeme: Ok(TokenView::IntegerConst(s.take(n))), rest: s.skip(n) }
    }
}

/// The first token of `s` and the text after it. White space and comments
/// in braces are skipped. At the end of the text the token is `EOF`. On an
/// error the text is left where the error was found.
pub open spec fn scan(s: Seq<char>) -> Scan
    decreases s.len(),
{
    if s.len() == 0 {
        Scan { lexeme: Ok(TokenView::EOF), rest: s }
    } else if is_space(s[0]) {
        scan(s.drop_first())
    } else if s[0] == '{' {
        match after_comment(s.drop_first()) {
            Some(rest) => if rest.len() < s.len() {
                scan(rest)
            } else {
                Scan { lexeme: Err(LexError::UnterminatedComment), rest: s }
            },
            None => Scan { lexeme: Err(LexError::UnterminatedComment), rest: s },
        }
    } else if is_digit(s[0]) {
        scan_number(s)
    } else if is_letter(s[0]) {
        scan_word(s)
    } else if s[0] == '_' && s.len() > 1 && is_alphanumeric(s[1]) {
        scan_word(s.drop_first())
    } else if s[0] == ':' && s.len() > 1 && s[1] == '=' {
        Scan { lexeme: Ok(TokenView::Assign), rest: s.skip(2) }
    } else {
        match punctuation(s[0]) {
            Some(token) => Scan { lexeme: Ok(token), rest: s.drop_first() },
            None => Scan { lexeme: Err(LexError::UnknownCharacter(s[0])), rest: s },
        }
    }
}

/// All the lexemes of `s`, up to and including the first terminal one.
pub open spec fn lexemes(s: Seq<char>) -> Seq<Lexeme>
    decreases s.len(),
{
    let first = scan(s);
    if is_terminal(first.lexeme) || first.rest.len() >= s.len() {
        seq![first.lexeme]
    } else {
        seq![first.lexeme] + lexemes(first.rest)
    }
}

/// The text after a comment is shorter than the comment's text.
pub proof fn lemma_after_comment_shorter(s: Seq<char>)
    ensures
        after_comment(s) matches Some(rest) ==> rest.len() < s.len(),
    decreases s.len(),
{
    if s.len() > 0 && s[0] != '}' {
        lemma_after_comment_shorter(s.drop_first());
    }
}

/// Scanning never lengthens the text, and a token other than `EOF` uses up
/// at least one character.
pub proof fn lemma_scan_progress(s: Seq<char>)
    ensures
        scan(s).rest.len() <= s.len(),
        !is_terminal(scan(s).lexeme) ==> scan(s).rest.len() < s.len(),
    decreases s.len(),
{
    if s.len() == 0 {
    } else if is_space(s[0]) {
        lemma_scan_progress(s.drop_first());
    } else if s[0] == '{' {
        lemma_after_comment_shorter(s.drop_first());
        match after_comment(s.drop_first()) {
            Some(rest) => {
                lemma_scan_progress(rest);
            },
            None => {},
        }
    } else if is_digit(s[0]) {
        lemma_run_length_bounds(s, CharClass::Digit);
        let n = run_length(s, CharClass::Digit) as int;
        if n + 1 < s.len() {
            lemma_run_length_bounds(s.skip(n + 1), CharClass::Digit);
        }
    } else if is_letter(s[0]) {
        lemma_run_length_bounds(s, CharClass::Alphanumeric);
    } else if s[0] == '_' && s.len() > 1 && is_alphanumeric(s[1]) {
        lemma_run_length_bounds(s.drop_first(), CharClass::Alphanumeric);
    } else {
    }
}

/// Leading white space does not change what is scanned.
pub proof fn lemma_scan_skips_spaces(s: Seq<char>)
    ensures
        scan(s.skip(run_length(s, CharClass::Space) as int)) == scan(s),
    decreases s.len(),
{
    if s.len() > 0 && is_space(s[0]) {
        let t = s.drop_first();
        lemma_scan_skips_spaces(t);
        lemma_run_length_bounds(t, CharClass::Space);
        assert(t.skip(run_length(t, CharClass::Space) as int) == s.skip(
            run_length(s, CharClass::Space) as int,
        ));
    } else {
        assert(s.skip(0) == s);
    }
}

/// The view of what a call of the lexer returns.
pub open spec fn lexeme_of(result: Result<Token, LexError>) -> Lexeme {
    match result {
        Ok(token) => Ok(token@),
        Err(error) => Err(error),
    }
}

/// A cursor over the characters of a source text.
pub struct Lexer {
    chars: Vec<char>,
    position: usize,
}

impl Lexer {
    #[verifier::type_invariant]
    spec fn within_text(&self) -> bool {
        self.position <= self.chars.len()
    }

    /// The text that has not been read yet.
    pub closed spec fn view(&self) -> Seq<char> {
        self.chars@.skip(self.position as int)
    }

    /// A lexer at the start of `text`.
    pub fn new(text: &str) -> (lexer: Self)
        ensures
            lexer@ == text@,
    {
        let chars = chars_of(text);
        assert(chars@.skip(0) == chars@);
        Lexer { chars, position: 0 }
    }

    /// The character under the cursor, if the text has not ended.
    pub fn current(&self) -> (c: Option<char>)
        ensures
            c == (if self@.len() > 0 {
                Some(self@[0])
            } else {
                None
            }),
    {
        proof {
            use_type_invariant(self);
        }
        if self.position < self.chars.len() {
            Some(self.chars[self.position])
        } else {
            None
        }
    }

    /// The character after the one under the cursor, if there is one.
    pub fn peek(&self) -> (c: Option<char>)
        ensures
            c == (if self@.len() > 1 {
                Some(self@[1])
            } else {
                None
            }),
    {
        proof {
            use_type_invariant(self);
        }
        if self.position < self.chars.len() && self.position + 1 < self.chars.len() {
            Some(self.chars[self.position + 1])
        } else {
            None
        }
    }

    /// Moves the cursor one character on; at the end of the text it stays.
    pub fn advance(&mut self)
        ensures
            final(self)@ == (if old(self)@.len() > 0 {
                old(self)@.drop_first()
            } else {
                old(self)@
            }),
    {
        proof {
            use_type_invariant(&*self);
        }
        if self.position < self.chars.len() {
            self.position += 1;
            assert(self.chars@.skip(self.position as int) == self.chars@.skip(
                self.position - 1,
            ).drop_first());
        }
    }

    /// The end of the run of `class` that starts at the cursor, as an index
    /// into the text.
    fn run_end(&self, class: CharClass, from: usize) -> (end: usize)
        requires
            self.position <= from <= self.chars.len(),
        ensures
            from <= end <= self.chars.len(),
            end - from == run_length(self.chars@.skip(from as int), class),
    {
        let mut end: usize = from;
        while end < self.chars.len() && class.contains(self.chars[end])
            invariant
                from <= end <= self.chars.len(),
                forall|j: int| from <= j < end ==> class.has(#[trigger] self.chars@[j]),
            decreases self.chars.len() - end,
        {
            end += 1;
        }
        proof {
            let s = self.chars@.skip(from as int);
            assert forall|j: int| 0 <= j < end - from implies class.has(#[trigger] s[j]) by {
                assert(s[j] == self.chars@[from + j]);
            }
            lemma_run_length(s, class, (end - from) as nat);
        }
        end
    }

    /// Moves the cursor past a comment. The cursor is on the opening `{`.
    /// Without a closing `}` the cursor stays and the comment is reported.
    fn skip_comment(&mut self) -> (skipped: Result<(), LexError>)
        requires
            old(self)@.len() > 0,
        ensures
            match after_comment(old(self)@.drop_first()) {
                Some(rest) => skipped is Ok && final(self)@ == rest,
                None => skipped == Err::<(), LexError>(LexError::UnterminatedComment)
                    && final(self)@ == old(self)@,
            },
    {
        proof {
            use_type_invariant(&*self);
        }
        let start = self.position + 1;
        let mut end: usize = start;
        while end < self.chars.len() && self.chars[end] != '}'
            invariant
                start <= end <= self.chars.len(),
                start == self.position + 1,
                after_comment(self.chars@.skip(start as int)) == after_comment(
                    self.chars@.skip(end as int),
                ),
            decreases self.chars.len() - end,
        {
            assert(self.chars@.skip(end as int).drop_first() == self.chars@.skip(end + 1));
            end += 1;
        }
        assert(self.chars@.skip(self.position as int).drop_first() == self.chars@.skip(
            start as int,
        ));
        if end < self.chars.len() {
            assert(self.chars@.skip(end as int).drop_first() == self.chars@.skip(end + 1));
            self.position = end + 1;
            Ok(())
        } else {
            Err(LexError::UnterminatedComment)
        }
    }

    /// Moves the cursor past white space.
    fn skip_whitespace(&mut self)
        ensures
            final(self)@ == old(self)@.skip(run_length(old(self)@, CharClass::Space) as int),
    {
        proof {
            use_type_invariant(&*self);
        }
        let end = self.run_end(CharClass::Space, self.position);
        assert(self.chars@.skip(self.position as int).skip(end - self.position)
            == self.chars@.skip(end as int));
        self.position = end;
    }

    /// Reads a word: a keyword or an identifier.
    fn id(&mut self) -> (token: Token)
        ensures
            token@ == scan_word(old(self)@).lexeme->Ok_0,
            final(self)@ == scan_word(old(self)@).rest,
    {
        proof {
            use_type_invariant(&*self);
        }
        let start = self.position;
        let end = self.run_end(CharClass::Alphanumeric, start);
        assert(self.chars@.skip(start as int).skip(end - start) == self.chars@.skip(end as int));
        assert(self.chars@.skip(start as int).take(end - start) == self.chars@.subrange(
            start as int,
            end as int,
        ));
        self.position = end;
        if spells(&self.chars, start, end, "PROGRAM") {
            Token::Program
        } else if spells(&self.chars, start, end, "VAR") {
            Token::Var
        } else if spells(&self.chars, start, end, "PROCEDURE") {
            Token::Procedure
        } else if spells(&self.chars, start, end, "BEGIN") {
            Token::Begin
        } else if spells(&self.chars, start, end, "END") {
            Token::End
        } else if spells(&self.chars, start, end, "INTEGER") {
            Token::Integer
        } else if spells(&self.chars, start, end, "REAL") {
            Token::Real
        } else if spells(&self.chars, start, end, "DIV") {
            Token::IntegerDivision
        } else {
            Token::Id(string_of(&self.chars, start, end))
        }
    }

    /// Reads an integer or a real constant.
    fn number(&mut self) -> (token: Token)
        ensures
            token@ == scan_number(old(self)@).lexeme->Ok_0,
            final(self)@ == scan_number(old(self)@).rest,
    {
        proof {
            use_type_invariant(&*self);
        }
        let start = self.position;
        let ghost s = self.chars@.skip(start as int);
        let point = self.run_end(CharClass::Digit, start);
        if point < self.chars.len() && point + 1 < self.chars.len() && self.chars[point] == '.'
            && CharClass::Digit.contains(self.chars[point + 1]) {
            let end = self.run_end(CharClass::Digit, point + 1);
            assert(s.skip(point + 1 - start) == self.chars@.skip(point + 1));
            assert(s.skip(end - start) == self.chars@.skip(end as int));
            assert(s.take(end - start) == self.chars@.subrange(start as int, end as int));
            self.position = end;
            Token::RealConst(string_of(&self.chars, start, end))
        } else {
            assert(s.skip(point - start) == self.chars@.skip(point as int));
            assert(s.take(point - start) == self.chars@.subrange(start as int, point as int));
            self.position = point;
            Token::IntegerConst(string_of(&self.chars, start, point))
        }
    }

    /// The next token of the text, or the error that stands in its place.
    /// After the last token every call returns `EOF`.
    pub fn get_next_token(&mut self) -> (result: Result<Token, LexError>)
        ensures
            lexeme_of(result) == scan(old(self)@).lexeme,
            final(self)@ == scan(old(self)@).rest,
    {
        loop
            invariant
                scan(self@) == scan(old(self)@),
            decreases self@.len(),
        {
            let ghost s = self@;
            let c = match self.current() {
                None => {
                    return Ok(Token::EOF);
                },
                Some(c) => c,
            };
            if CharClass::Space.contains(c) {
                proof {
                    lemma_scan_skips_spaces(s);
                    lemma_run_length_bounds(s, CharClass::Space);
                }
                self.skip_whitespace();
            } else if c == '{' {
                proof {
                    lemma_after_comment_shorter(s.drop_first());
                }
                match self.skip_comment() {
                    Ok(()) => {},
                    Err(error) => {
                        return Err(error);
                    },
                }
            } else if CharClass::Digit.contains(c) {
                return Ok(self.number());
            } else if CharClass::Alphanumeric.contains(c) {
                return Ok(self.id());
            } else if c == '_' {
                match self.peek() {
                    Some(next) => {
                        if CharClass::Alphanumeric.contains(next) {
                            self.advance();
                            return Ok(self.id());
                        }
                    },
                    None => {},
                }
                return Err(LexError::UnknownCharacter(c));
            } else if c == ':' {
                self.advance();
                match self.current() {
                    Some(next) => {
                        if next == '=' {
                            self.advance();
                            assert(s.skip(2) == s.drop_first().drop_first());
                            return Ok(Token::Assign);
                        }
                    },
                    None => {},
                }
                return Ok(Token::Colon);
            } else {
                let token = match c {
                    '+' => Token::Plus,
                    '-' => Token::Minus,
                    '*' => Token::Multiply,
                    '/' => Token::RealDivision,
                    '(' => Token::LParen,
                    ')' => Token::RParen,
                    ';' => Token::Semi,
                    '.' => Token::Period,
                    ',' => Token::Comma,
                    _ => {
                        return Err(LexError::UnknownCharacter(c));
                    },
                };
                self.advance();
                return Ok(token);
            }
        }
    }
}

} // verus!
