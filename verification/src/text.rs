//! Characters and character sequences: the classes the lexer tells apart,
//! case folding, and decimal numerals.
use vstd::prelude::*;

verus! {

/// The classes of characters that form runs in the source text.
#[derive(Clone, Copy, Debug, PartialEq, Eq, Structural)]
pub enum CharClass {
    Space,
    Digit,
    Alphanumeric,
}

/// White space: a space, a tab, a line feed, a carriage return, a vertical
/// tab or a form feed.
pub open spec fn is_space(c: char) -> bool {
    c == ' ' || c == '\t' || c == '\n' || c == '\r' || c == '\x0b' || c == '\x0c'
}

/// A decimal digit.
pub open spec fn is_digit(c: char) -> bool {
    '0' <= c <= '9'
}

/// A letter of the Latin alphabet, small or capital.
pub open spec fn is_letter(c: char) -> bool {
    ('a' <= c <= 'z') || ('A' <= c <= 'Z')
}

/// A letter or a digit.
pub open spec fn is_alphanumeric(c: char) -> bool {
    is_letter(c) || is_digit(c)
}

impl CharClass {
    /// Whether `c` belongs to the class.
    pub open spec fn has(self, c: char) -> bool {
        match self {
            CharClass::Space => is_space(c),
            CharClass::Digit => is_digit(c),
            CharClass::Alphanumeric => is_alphanumeric(c),
        }
    }

    /// Whether `c` belongs to the class.
    pub fn contains(self, c: char) -> (member: bool)
        ensures
            member == self.has(c),
    {
        match self {
            CharClass::Space => c == ' ' || c == '\t' || c == '\n' || c == '\r' || c == '\x0b'
                || c == '\x0c',
            CharClass::Digit => '0' <= c && c <= '9',
            CharClass::Alphanumeric => ('a' <= c && c <= 'z') || ('A' <= c && c <= 'Z') || ('0'
                <= c && c <= '9'),
        }
    }
}

/// The length of the longest prefix of `s` whose characters all belong to
/// `class`.
pub open spec fn run_length(s: Seq<char>, class: CharClass) -> nat
    decreases s.len(),
{
    if s.len() > 0 && class.has(s[0]) {
        1 + run_length(s.drop_first(), class)
    } else {
        0
    }
}

/// A prefix of members that ends at the end of `s` or before a non-member
/// is the run.
pub proof fn lemma_run_length(s: Seq<char>, class: CharClass, k: nat)
    requires
        k <= s.len(),
        forall|j: int| 0 <= j < k ==> class.has(#[trigger] s[j]),
        k == s.len() || !class.has(s[k as int]),
    ensures
        run_length(s, class) == k,
    decreases k,
{
    if k > 0 {
        let t = s.drop_first();
        assert forall|j: int| 0 <= j < k - 1 implies class.has(#[trigger] t[j]) by {
            assert(t[j] == s[j + 1]);
        }
        lemma_run_length(t, class, (k - 1) as nat);
    }
}

/// The run is a prefix of members and stops at a non-member.
pub proof fn lemma_run_length_bounds(s: Seq<char>, class: CharClass)
    ensures
        run_length(s, class) <= s.len(),
        forall|j: int| 0 <= j < run_length(s, class) ==> class.has(#[trigger] s[j]),
        run_length(s, class) < s.len() ==> !class.has(s[run_length(s, class) as int]),
    decreases s.len(),
{
    if s.len() > 0 && class.has(s[0]) {
        let t = s.drop_first();
        lemma_run_length_bounds(t, class);
        assert forall|j: int| 0 <= j < run_length(s, class) implies class.has(
            #[trigger] s[j],
        ) by {
            if j > 0 {
                assert(s[j] == t[j - 1]);
            }
        }
    }
}

/// The upper-case form of an ASCII letter; any other character is unchanged.
pub open spec fn upper(c: char) -> char {
    if 'a' <= c <= 'z' {
        ((c as u8) - 32) as char
    } else {
        c
    }
}

/// A sequence with every letter in its upper-case form.
pub open spec fn uppercase(s: Seq<char>) -> Seq<char> {
    Seq::new(s.len(), |i: int| upper(s[i]))
}

/// The upper-case form of `c`.
pub fn to_upper(c: char) -> (u: char)
    ensures
        u == upper(c),
{
    if 'a' <= c && c <= 'z' {
        ((c as u8) - 32) as char
    } else {
        c
    }
}

/// The characters of `text`, in order.
pub fn chars_of(text: &str) -> (chars: Vec<char>)
    ensures
        chars@ == text@,
{
    let mut chars: Vec<char> = Vec::new();
    for c in it: text.chars()
        invariant
            chars@ == it.seq().take(it.index()),
            it.seq() == text@,
    {
        chars.push(c);
    }
    chars
}

/// Appends one character to a string, as `String::push` does.
#[verifier::external_body]
pub(crate) fn push_char(text: &mut String, c: char)
    ensures
        final(text)@ == old(text)@.push(c),
{
    text.push(c);
}

/// The string made of `chars[from..to]`.
pub fn string_of(chars: &Vec<char>, from: usize, to: usize) -> (text: String)
    requires
        from <= to <= chars.len(),
    ensures
        text@ == chars@.subrange(from as int, to as int),
{
    let mut text = String::new();
    let mut i: usize = from;
    while i < to
        invariant
            from <= i <= to <= chars.len(),
            text@ == chars@.subrange(from as int, i as int),
        decreases to - i,
    {
        push_char(&mut text, chars[i]);
        i += 1;
        assert(chars@.subrange(from as int, i as int) == chars@.subrange(
            from as int,
            i - 1,
        ).push(chars@[i - 1]));
    }
    text
}

/// Whether `chars[from..to]`, folded to upper case, spells `word`.
pub fn spells(chars: &Vec<char>, from: usize, to: usize, word: &str) -> (same: bool)
    requires
        from <= to <= chars.len(),
    ensures
        same == (uppercase(chars@.subrange(from as int, to as int)) == word@),
{
    let n = word.unicode_len();
    if n != to - from {
        return false;
    }
    let ghost folded = uppercase(chars@.subrange(from as int, to as int));
    let mut i: usize = 0;
    while i < n
        invariant
            from <= to <= chars.len(),
            n == to - from,
            n == word@.len(),
            i <= n,
            folded == uppercase(chars@.subrange(from as int, to as int)),
            forall|j: int| 0 <= j < i ==> folded[j] == word@[j],
        decreases n - i,
    {
        if to_upper(chars[from + i]) != word.get_char(i) {
            assert(folded[i as int] != word@[i as int]);
            return false;
        }
        i += 1;
    }
    assert(folded =~= word@);
    true
}

/// The value of a decimal digit; 0 for any other character.
pub open spec fn digit_value(c: char) -> nat {
    if is_digit(c) {
        (c as u8 - '0' as u8) as nat
    } else {
        0
    }
}

/// The number that a sequence of decimal digits denotes.
pub open spec fn decimal_value(s: Seq<char>) -> nat
    decreases s.len(),
{
    if s.len() == 0 {
        0
    } else {
        decimal_value(s.drop_last()) * 10 + digit_value(s.last())
    }
}

/// A numeral is a sequence of one or more decimal digits.
pub open spec fn is_numeral(s: Seq<char>) -> bool {
    s.len() > 0 && forall|i: int| 0 <= i < s.len() ==> is_digit(#[trigger] s[i])
}

/// The integer that `s` denotes, if `s` is a numeral and the number fits.
pub open spec fn integer_value(s: Seq<char>) -> Option<i32> {
    if is_numeral(s) && decimal_value(s) <= i32::MAX {
        Some(decimal_value(s) as i32)
    } else {
        None
    }
}

/// A prefix denotes no more than the whole.
pub proof fn lemma_decimal_value_monotone(s: Seq<char>, k: int)
    requires
        0 <= k <= s.len(),
    ensures
        decimal_value(s.take(k)) <= decimal_value(s),
    decreases s.len() - k,
{
    if k == s.len() {
        assert(s.take(k) == s);
    } else {
        lemma_decimal_value_monotone(s.drop_last(), k);
        assert(s.drop_last().take(k) == s.take(k));
    }
}

/// Reads a numeral as an integer.
pub fn parse_integer(text: &str) -> (value: Option<i32>)
    ensures
        value == integer_value(text@),
{
    let chars = chars_of(text);
    if chars.len() == 0 {
        return None;
    }
    let mut acc: i64 = 0;
    let mut i: usize = 0;
    while i < chars.len()
        invariant
            chars@ == text@,
            i <= chars.len(),
            0 <= acc <= i32::MAX,
            acc == decimal_value(chars@.take(i as int)),
            forall|j: int| 0 <= j < i ==> is_digit(#[trigger] chars@[j]),
        decreases chars.len() - i,
    {
        let c = chars[i];
        if !('0' <= c && c <= '9') {
            return None;
        }
        let digit = (c as u8 - '0' as u8) as i64;
        let next = acc * 10 + digit;
        proof {
            let prefix = chars@.take(i + 1);
            assert(prefix.drop_last() == chars@.take(i as int));
            assert(prefix.last() == c);
            assert(next == decimal_value(prefix));
            lemma_decimal_value_monotone(chars@, i + 1);
        }
        if next > i32::MAX as i64 {
            return None;
        }
        acc = next;
        i += 1;
    }
    assert(chars@.take(i as int) == chars@);
    Some(acc as i32)
}

} // verus!
