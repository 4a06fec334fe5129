//! The lexer: source text to a flat sequence of tokens.
//!
//! Lexing never fails. A character that begins no token is skipped, and so is
//! a run of digits and decimal points that holds more than one point.

use vstd::prelude::*;
use crate::text::{
    alphanumeric, ascii_digit, ascii_letter, upper, chars_of, is_ascii_digit, is_ascii_letter,
};
use crate::token::{Token, TokenView, tokens_view};

verus! {

/// A character that may begin an identifier or keyword.
pub open spec fn word_start(c: char) -> bool {
    ascii_letter(c) || c == '_'
}

/// A character that may continue an identifier or keyword: a letter, a
/// digit or an underscore. Of the ASCII characters the letters are `A` to
/// `Z` and `a` to `z` and the digits `0` to `9`; beyond them a letter or
/// digit is what Unicode calls alphanumeric.
pub open spec fn word_part(c: char) -> bool {
    c == '_' || if c <= '\x7f' {
        ascii_letter(c) || ascii_digit(c)
    } else {
        alphanumeric(c)
    }
}

/// A character of a numeric literal.
pub open spec fn number_part(c: char) -> bool {
    ascii_digit(c) || c == '.'
}

/// A character inside a string literal: anything but the closing quote.
pub open spec fn string_part(c: char) -> bool {
    c != '"'
}

/// The end of the longest run of characters with property `p` that begins at `i`.
pub open spec fn run_end(s: Seq<char>, i: int, p: spec_fn(char) -> bool) -> int
    decreases s.len() - i,
{
    if 0 <= i < s.len() && p(s[i]) {
        run_end(s, i + 1, p)
    } else {
        i
    }
}

/// How many decimal points a piece of text holds.
pub open spec fn points(s: Seq<char>) -> nat
    decreases s.len(),
{
    if s.len() == 0 {
        0
    } else {
        points(s.drop_last()) + if s.last() == '.' { 1nat } else { 0nat }
    }
}

/// The text with its ASCII letters in upper case.
pub open spec fn upper_case(s: Seq<char>) -> Seq<char> {
    s.map_values(|c: char| upper(c))
}

/// The token for an upper-cased word: a keyword, or else an identifier.
pub open spec fn word_token(word: Seq<char>) -> TokenView {
    if word == "LET"@ {
        TokenView::Let
    } else if word == "PRINT"@ {
        TokenView::Print
    } else if word == "IF"@ {
        TokenView::If
    } else if word == "THEN"@ {
        TokenView::Then
    } else if word == "ELSE"@ {
        TokenView::Else
    } else if word == "FOR"@ {
        TokenView::For
    } else if word == "TO"@ {
        TokenView::To
    } else if word == "STEP"@ {
        TokenView::Step
    } else if word == "NEXT"@ {
        TokenView::Next
    } else if word == "END"@ {
        TokenView::End
    } else if word == "INPUT"@ {
        TokenView::Input
    } else {
        TokenView::Identifier(word)
    }
}

/// The token that a single character stands for, if it is one by itself.
pub open spec fn symbol_token(c: char) -> Option<TokenView> {
    if c == '+' {
        Some(TokenView::Plus)
    } else if c == '-' {
        Some(TokenView::Minus)
    } else if c == '*' {
        Some(TokenView::Multiply)
    } else if c == '/' {
        Some(TokenView::Divide)
    } else if c == '^' {
        Some(TokenView::Power)
    } else if c == '=' {
        Some(TokenView::Equals)
    } else if c == '(' {
        Some(TokenView::LParen)
    } else if c == ')' {
        Some(TokenView::RParen)
    } else if c == ',' {
        Some(TokenView::Comma)
    } else if c == ';' {
        Some(TokenView::Semicolon)
    } else if c == ':' {
        Some(TokenView::Colon)
    } else {
        None
    }
}

/// The tokens of the text from position `i` on, without the closing sentinels.
pub open spec fn lex_from(s: Seq<char>, i: int) -> Seq<TokenView>
    decreases s.len() - i,
{
    if !(0 <= i < s.len()) {
        Seq::empty()
    } else {
        let c = s[i];
        if c == '\n' {
            seq![TokenView::EOL] + lex_from(s, i + 1)
        } else if ascii_digit(c) {
            let j = run_end(s, i + 1, |c: char| number_part(c));
            proof {
                lemma_run_end(s, i + 1, |c: char| number_part(c));
            }
            let literal = s.subrange(i, j);
            if points(literal) <= 1 {
                seq![TokenView::Number(literal)] + lex_from(s, j)
            } else {
                lex_from(s, j)
            }
        } else if word_start(c) {
            let j = run_end(s, i + 1, |c: char| word_part(c));
            proof {
                lemma_run_end(s, i + 1, |c: char| word_part(c));
            }
            seq![word_token(upper_case(s.subrange(i, j)))] + lex_from(s, j)
        } else if c == '"' {
            let j = run_end(s, i + 1, |c: char| string_part(c));
            proof {
                lemma_run_end(s, i + 1, |c: char| string_part(c));
            }
            seq![TokenView::String(s.subrange(i + 1, j))] + lex_from(
                s,
                if j < s.len() {
                    j + 1
                } else {
                    j
                },
            )
        } else if c == '<' {
            if i + 1 < s.len() && s[i + 1] == '=' {
                seq![TokenView::LessOrEqual] + lex_from(s, i + 2)
            } else if i + 1 < s.len() && s[i + 1] == '>' {
                seq![TokenView::NotEqual] + lex_from(s, i + 2)
            } else {
                seq![TokenView::LessThan] + lex_from(s, i + 1)
            }
        } else if c == '>' {
            if i + 1 < s.len() && s[i + 1] == '=' {
                seq![TokenView::GreaterOrEqual] + lex_from(s, i + 2)
            } else {
                seq![TokenView::GreaterThan] + lex_from(s, i + 1)
            }
        } else if symbol_token(c) is Some {
            seq![symbol_token(c)->0] + lex_from(s, i + 1)
        } else {
            lex_from(s, i + 1)
        }
    }
}

/// The tokens of a source text: those of its characters, an end of line
/// unless they end in one already, and the end of input.
pub open spec fn lex(s: Seq<char>) -> Seq<TokenView> {
    let body = lex_from(s, 0);
    if body.len() > 0 && body.last() == TokenView::EOL {
        body.push(TokenView::EOF)
    } else {
        body.push(TokenView::EOL).push(TokenView::EOF)
    }
}

/// Every token sequence ends with an end of line and the end of input.
pub proof fn lemma_lex_ends(s: Seq<char>)
    ensures
        lex(s).len() >= 2,
        lex(s)[lex(s).len() - 2] == TokenView::EOL,
        lex(s).last() == TokenView::EOF,
{
}

/// Whether text is a decimal literal: it begins with a digit and holds
/// digits and at most one decimal point.
pub open spec fn is_decimal(t: Seq<char>) -> bool {
    &&& t.len() > 0
    &&& ascii_digit(t[0])
    &&& forall|i: int| 0 <= i < t.len() ==> number_part(#[trigger] t[i])
    &&& points(t) <= 1
}

/// Every number among the tokens from a position on is a decimal literal.
pub proof fn lemma_lex_from_numbers(s: Seq<char>, i: int, k: int)
    requires
        0 <= k < lex_from(s, i).len(),
    ensures
        lex_from(s, i)[k] matches TokenView::Number(t) ==> is_decimal(t),
    decreases s.len() - i,
{
    if 0 <= i < s.len() {
        let c = s[i];
        if c == '\n' {
            if k > 0 {
                lemma_lex_from_numbers(s, i + 1, k - 1);
            }
        } else if ascii_digit(c) {
            let p = |c: char| number_part(c);
            let j = run_end(s, i + 1, p);
            lemma_run_end(s, i + 1, p);
            let literal = s.subrange(i, j);
            if points(literal) <= 1 {
                if k > 0 {
                    lemma_lex_from_numbers(s, j, k - 1);
                } else {
                    assert forall|n: int| 0 <= n < literal.len() implies number_part(
                        #[trigger] literal[n],
                    ) by {
                        if n > 0 {
                            assert(p(s[i + n]));
                        }
                    }
                }
            } else {
                lemma_lex_from_numbers(s, j, k);
            }
        } else if word_start(c) {
            let j = run_end(s, i + 1, |c: char| word_part(c));
            lemma_run_end(s, i + 1, |c: char| word_part(c));
            if k > 0 {
                lemma_lex_from_numbers(s, j, k - 1);
            }
        } else if c == '"' {
            let j = run_end(s, i + 1, |c: char| string_part(c));
            lemma_run_end(s, i + 1, |c: char| string_part(c));
            if k > 0 {
                lemma_lex_from_numbers(s, if j < s.len() {
                    j + 1
                } else {
                    j
                }, k - 1);
            }
        } else if c == '<' {
            if k > 0 {
                if i + 1 < s.len() && (s[i + 1] == '=' || s[i + 1] == '>') {
                    lemma_lex_from_numbers(s, i + 2, k - 1);
                } else {
                    lemma_lex_from_numbers(s, i + 1, k - 1);
                }
            }
        } else if c == '>' {
            if k > 0 {
                if i + 1 < s.len() && s[i + 1] == '=' {
                    lemma_lex_from_numbers(s, i + 2, k - 1);
                } else {
                    lemma_lex_from_numbers(s, i + 1, k - 1);
                }
            }
        } else if symbol_token(c) is Some {
            if k > 0 {
                lemma_lex_from_numbers(s, i + 1, k - 1);
            }
        } else {
            lemma_lex_from_numbers(s, i + 1, k);
        }
    }
}

/// Every number among the tokens of a text is a decimal literal.
pub proof fn lemma_lex_numbers(s: Seq<char>, k: int)
    requires
        0 <= k < lex(s).len(),
    ensures
        lex(s)[k] matches TokenView::Number(t) ==> is_decimal(t),
{
    if k < lex_from(s, 0).len() {
        lemma_lex_from_numbers(s, 0, k);
    }
}

/// A run ends at or after its start and within the text, every character in
/// it has the property, and the character after it, if any, has not.
pub proof fn lemma_run_end(s: Seq<char>, i: int, p: spec_fn(char) -> bool)
    requires
        0 <= i <= s.len(),
    ensures
        i <= run_end(s, i, p) <= s.len(),
        forall|k: int| i <= k < run_end(s, i, p) ==> p(#[trigger] s[k]),
        run_end(s, i, p) < s.len() ==> !p(s[run_end(s, i, p)]),
    decreases s.len() - i,
{
    if i < s.len() && p(s[i]) {
        lemma_run_end(s, i + 1, p);
    }
}

/// A run that reaches `j` from `i` ends where the run from `j` ends.
pub proof fn lemma_run_extend(s: Seq<char>, i: int, j: int, p: spec_fn(char) -> bool)
    requires
        0 <= i <= j <= s.len(),
        forall|k: int| i <= k < j ==> p(#[trigger] s[k]),
    ensures
        run_end(s, i, p) == run_end(s, j, p),
    decreases j - i,
{
    if i < j {
        lemma_run_extend(s, i + 1, j, p);
    }
}

fn word_of(ident: String) -> (t: Token)
    ensures
        t@ == word_token(ident@),
{
    let word: &str = ident.as_str();
    if word.eq("LET") {
        Token::Let
    } else if word.eq("PRINT") {
        Token::Print
    } else if word.eq("IF") {
        Token::If
    } else if word.eq("THEN") {
        Token::Then
    } else if word.eq("ELSE") {
        Token::Else
    } else if word.eq("FOR") {
        Token::For
    } else if word.eq("TO") {
        Token::To
    } else if word.eq("STEP") {
        Token::Step
    } else if word.eq("NEXT") {
        Token::Next
    } else if word.eq("END") {
        Token::End
    } else if word.eq("INPUT") {
        Token::Input
    } else {
        Token::Identifier(ident)
    }
}

fn symbol_of(c: char) -> (t: Option<Token>)
    ensures
        t is Some == symbol_token(c) is Some,
        t is Some ==> t->0@ == symbol_token(c)->0,
{
    match c {
        '+' => Some(Token::Plus),
        '-' => Some(Token::Minus),
        '*' => Some(Token::Multiply),
        '/' => Some(Token::Divide),
        '^' => Some(Token::Power),
        '=' => Some(Token::Equals),
        '(' => Some(Token::LParen),
        ')' => Some(Token::RParen),
        ',' => Some(Token::Comma),
        ';' => Some(Token::Semicolon),
        ':' => Some(Token::Colon),
        _ => None,
    }
}

/// Scans a numeric literal that begins at `start`; returns its text, the
/// number of decimal points in it (counted up to two) and where it ends.
fn scan_number(chars: &Vec<char>, start: usize) -> (r: (String, u8, usize))
    requires
        start < chars.len(),
        ascii_digit(chars[start as int]),
    ensures
        r.2 == run_end(chars@, start + 1, |c: char| number_part(c)),
        start < r.2 <= chars.len(),
        r.0@ == chars@.subrange(start as int, r.2 as int),
        r.1 <= 1 <==> points(r.0@) <= 1,
{
    let ghost p = |c: char| number_part(c);
    let mut text = String::new();
    let mut dots: u8 = 0;
    let mut j: usize = start;
    proof {
        assert(chars@.subrange(start as int, start as int) =~= Seq::<char>::empty());
    }
    while j < chars.len() && (is_ascii_digit(chars[j]) || chars[j] == '.')
        invariant
            start <= j <= chars.len(),
            j == start ==> ascii_digit(chars[start as int]),
            forall|k: int| start <= k < j ==> p(#[trigger] chars@[k]),
            text@ == chars@.subrange(start as int, j as int),
            dots <= 2,
            dots as nat == if points(text@) <= 2 { points(text@) } else { 2 },
            p == (|c: char| number_part(c)),
        decreases chars.len() - j,
    {
        let c = chars[j];
        proof {
            let before = chars@.subrange(start as int, j as int);
            let after = chars@.subrange(start as int, j + 1);
            assert(after.drop_last() =~= before);
            assert(after.last() == c);
        }
        text.push(c);
        if c == '.' && dots < 2 {
            dots = dots + 1;
        }
        j = j + 1;
        proof {
            assert(text@ =~= chars@.subrange(start as int, j as int));
        }
    }
    proof {
        assert(p(chars@[start as int]));
        lemma_run_extend(chars@, start as int + 1, j as int, p);
        assert(run_end(chars@, j as int, p) == j);
    }
    (text, dots, j)
}

/// Scans an identifier or keyword that begins at `start`; returns its text in
/// upper case and where it ends.
fn scan_word(chars: &Vec<char>, start: usize) -> (r: (String, usize))
    requires
        start < chars.len(),
        word_start(chars[start as int]),
    ensures
        r.1 == run_end(chars@, start + 1, |c: char| word_part(c)),
        start < r.1 <= chars.len(),
        r.0@ == upper_case(chars@.subrange(start as int, r.1 as int)),
{
    let ghost p = |c: char| word_part(c);
    let mut text = String::new();
    text.push(chars[start].to_ascii_uppercase());
    let mut j: usize = start + 1;
    proof {
        assert(text@ =~= upper_case(chars@.subrange(start as int, j as int)));
    }
    while j < chars.len() && (chars[j].is_alphanumeric() || chars[j] == '_')
        invariant
            start < j <= chars.len(),
            forall|k: int| start < k < j ==> p(#[trigger] chars@[k]),
            text@ == upper_case(chars@.subrange(start as int, j as int)),
            p == (|c: char| word_part(c)),
        decreases chars.len() - j,
    {
        let c = chars[j];
        text.push(c.to_ascii_uppercase());
        j = j + 1;
        proof {
            assert(text@ =~= upper_case(chars@.subrange(start as int, j as int)));
        }
    }
    proof {
        lemma_run_extend(chars@, start as int + 1, j as int, p);
        assert(run_end(chars@, j as int, p) == j);
    }
    (text, j)
}

/// Scans the inside of a string literal from `start`, the position after the
/// opening quote; returns its text and the position of the closing quote, or
/// the length of the input if there is none.
fn scan_string(chars: &Vec<char>, start: usize) -> (r: (String, usize))
    requires
        start <= chars.len(),
    ensures
        r.1 == run_end(chars@, start as int, |c: char| string_part(c)),
        start <= r.1 <= chars.len(),
        r.0@ == chars@.subrange(start as int, r.1 as int),
{
    let ghost p = |c: char| string_part(c);
    let mut text = String::new();
    let mut j: usize = start;
    proof {
        assert(text@ =~= chars@.subrange(start as int, j as int));
    }
    while j < chars.len() && chars[j] != '"'
        invariant
            start <= j <= chars.len(),
            forall|k: int| start <= k < j ==> p(#[trigger] chars@[k]),
            text@ == chars@.subrange(start as int, j as int),
            p == (|c: char| string_part(c)),
        decreases chars.len() - j,
    {
        text.push(chars[j]);
        j = j + 1;
        proof {
            assert(text@ =~= chars@.subrange(start as int, j as int));
        }
    }
    proof {
        lemma_run_extend(chars@, start as int, j as int, p);
        assert(run_end(chars@, j as int, p) == j);
    }
    (text, j)
}

/// Turns source text into tokens.
pub fn tokenize(input: &str) -> (tokens: Vec<Token>)
    ensures
        tokens_view(tokens@) == lex(input@),
{
    let chars = chars_of(input);
    let ghost s = chars@;
    let mut tokens: Vec<Token> = Vec::new();
    let mut i: usize = 0;
    proof {
        assert(tokens_view(tokens@) + lex_from(s, 0) =~= lex_from(s, 0));
    }
    while i < chars.len()
        invariant
            0 <= i <= chars.len(),
            s == chars@,
            tokens_view(tokens@) + lex_from(s, i as int) == lex_from(s, 0),
        decreases chars.len() - i,
    {
        let c = chars[i];
        let ghost before = tokens_view(tokens@);
        if c == '\n' {
            tokens.push(Token::EOL);
            i = i + 1;
        } else if is_ascii_digit(c) {
            let (text, dots, end) = scan_number(&chars, i);
            if dots <= 1 {
                tokens.push(Token::Number(text));
            }
            i = end;
        } else if is_ascii_letter(c) || c == '_' {
            let (text, end) = scan_word(&chars, i);
            tokens.push(word_of(text));
            i = end;
        } else if c == '"' {
            let (text, end) = scan_string(&chars, i + 1);
            tokens.push(Token::String(text));
            i = if end < chars.len() {
                end + 1
            } else {
                end
            };
        } else if c == '<' {
            if i + 1 < chars.len() && chars[i + 1] == '=' {
                tokens.push(Token::LessOrEqual);
                i = i + 2;
            } else if i + 1 < chars.len() && chars[i + 1] == '>' {
                tokens.push(Token::NotEqual);
                i = i + 2;
            } else {
                tokens.push(Token::LessThan);
                i = i + 1;
            }
        } else if c == '>' {
            if i + 1 < chars.len() && chars[i + 1] == '=' {
                tokens.push(Token::GreaterOrEqual);
                i = i + 2;
            } else {
                tokens.push(Token::GreaterThan);
                i = i + 1;
            }
        } else {
            match symbol_of(c) {
                Some(t) => {
                    tokens.push(t);
                },
                None => {},
            }
            i = i + 1;
        }
        proof {
            let now = tokens_view(tokens@);
            if tokens@.len() > before.len() {
                assert(now =~= before.push(tokens@.last()@));
                assert(before.push(tokens@.last()@) + lex_from(s, i as int) =~= before + (
                seq![tokens@.last()@] + lex_from(s, i as int)));
            } else {
                assert(now =~= before);
            }
        }
    }
    proof {
        assert(lex_from(s, i as int) =~= Seq::<TokenView>::empty());
        assert(tokens_view(tokens@) =~= lex_from(s, 0));
    }
    let ends_line = match tokens.last() {
        Some(Token::EOL) => true,
        _ => false,
    };
    if !ends_line {
        tokens.push(Token::EOL);
    }
    tokens.push(Token::EOF);
    proof {
        assert(tokens_view(tokens@) =~= lex(s));
    }
    tokens
}

} // verus!
