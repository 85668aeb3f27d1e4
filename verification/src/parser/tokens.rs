//! The lexer: it cuts a source text into words, brackets, braces and line
//! ends, and notes where each of them starts.

use vstd::prelude::*;

verus! {

/// What a token is.
#[derive(Clone, Copy, Debug, PartialEq, Eq, Structural)]
pub enum TokenKind {
    Word,
    BracketOpen,
    BracketClose,
    BraceOpen,
    BraceClose,
    Newline,
}

/// The mathematical value of a token.
pub struct TokenView {
    pub kind: TokenKind,
    pub text: Seq<char>,
    pub line: nat,
    pub column: nat,
}

/// A token: its kind, its text, and the line and column at which it starts,
/// both counted from one.
#[derive(Debug)]
pub struct Token {
    pub kind: TokenKind,
    pub text: String,
    pub line: usize,
    pub column: usize,
}

impl View for Token {
    type V = TokenView;

    open spec fn view(&self) -> TokenView {
        TokenView {
            kind: self.kind,
            text: self.text@,
            line: self.line as nat,
            column: self.column as nat,
        }
    }
}

/// The values of a sequence of tokens.
pub open spec fn tokens_view(tokens: Seq<Token>) -> Seq<TokenView> {
    tokens.map_values(|token: Token| token@)
}

/// Whether a character separates tokens without being one.
pub open spec fn is_blank(c: char) -> bool {
    c == ' ' || c == '\t' || c == '\r'
}

/// The kind of the token that a character is by itself, if it is one.
pub open spec fn mark(c: char) -> Option<TokenKind> {
    if c == '[' {
        Some(TokenKind::BracketOpen)
    } else if c == ']' {
        Some(TokenKind::BracketClose)
    } else if c == '{' {
        Some(TokenKind::BraceOpen)
    } else if c == '}' {
        Some(TokenKind::BraceClose)
    } else if c == '\n' {
        Some(TokenKind::Newline)
    } else {
        None
    }
}

/// Whether a character belongs to a word.
pub open spec fn in_word(c: char) -> bool {
    !is_blank(c) && mark(c) is None
}

/// Where the run of word characters that starts at `pos` ends.
pub open spec fn word_end(chars: Seq<char>, pos: nat) -> nat
    decreases chars.len() - pos,
{
    if pos < chars.len() && in_word(chars[pos as int]) {
        word_end(chars, pos + 1)
    } else {
        pos
    }
}

/// The line of the character at `offset`, counted from one: one more than
/// the number of line ends before it.
pub open spec fn line_at(chars: Seq<char>, offset: nat) -> nat
    decreases offset,
{
    if offset == 0 {
        1
    } else if chars[offset - 1] == '\n' {
        line_at(chars, (offset - 1) as nat) + 1
    } else {
        line_at(chars, (offset - 1) as nat)
    }
}

/// The column of the character at `offset`, counted from one: one more
/// than the number of characters between it and the start of its line.
pub open spec fn column_at(chars: Seq<char>, offset: nat) -> nat
    decreases offset,
{
    if offset == 0 {
        1
    } else if chars[offset - 1] == '\n' {
        1
    } else {
        column_at(chars, (offset - 1) as nat) + 1
    }
}

/// The tokens of a text from `pos` on. Blanks are passed over. A bracket, a
/// brace or a line end is a token by itself. Any other character starts a
/// word, which runs up to the next blank, bracket, brace or line end.
pub open spec fn lexed(chars: Seq<char>, pos: nat) -> Seq<TokenView>
    decreases chars.len() - pos,
{
    if pos >= chars.len() {
        Seq::empty()
    } else if is_blank(chars[pos as int]) {
        lexed(chars, pos + 1)
    } else {
        let line = line_at(chars, pos);
        let column = column_at(chars, pos);
        match mark(chars[pos as int]) {
            Some(kind) => seq![TokenView { kind, text: seq![chars[pos as int]], line, column }]
                + lexed(chars, pos + 1),
            None => {
                proof {
                    lemma_word_end(chars, pos);
                }
                let end = word_end(chars, pos);
                seq![
                    TokenView {
                        kind: TokenKind::Word,
                        text: chars.subrange(pos as int, end as int),
                        line,
                        column,
                    },
                ] + lexed(chars, end)
            },
        }
    }
}

/// A word ends within the text, and behind its first character where it
/// has one.
pub proof fn lemma_word_end(chars: Seq<char>, pos: nat)
    ensures
        pos <= chars.len() ==> pos <= word_end(chars, pos) <= chars.len(),
        pos < chars.len() && in_word(chars[pos as int]) ==> pos < word_end(chars, pos),
    decreases chars.len() - pos,
{
    if pos < chars.len() && in_word(chars[pos as int]) {
        lemma_word_end(chars, pos + 1);
    }
}

/// Lines and columns are at most one more than the offset.
pub proof fn lemma_place_bounds(chars: Seq<char>, offset: nat)
    ensures
        1 <= line_at(chars, offset) <= offset + 1,
        1 <= column_at(chars, offset) <= offset + 1,
    decreases offset,
{
    if offset > 0 {
        lemma_place_bounds(chars, (offset - 1) as nat);
    }
}

/// Calls `String::push`. It appends one character to a string.
#[verifier::external_body]
pub(crate) fn push_char(text: &mut String, c: char)
    ensures
        final(text)@ == old(text)@.push(c),
{
    text.push(c);
}

/// The characters of a text, in order.
pub fn characters(input: &str) -> (chars: Vec<char>)
    ensures
        chars@ == input@,
{
    let mut chars: Vec<char> = Vec::new();
    for c in it: input.chars()
        invariant
            chars@ == it.seq().take(it.index() as int),
            it.seq() == input@,
    {
        chars.push(c);
    }
    chars
}

/// The line and column of the character behind the one at `pos`, where
/// there is one.
fn place_behind(chars: &Vec<char>, pos: usize, line: usize, column: usize) -> (place: (
    usize,
    usize,
))
    requires
        pos < chars.len(),
        line == line_at(chars@, pos as nat),
        column == column_at(chars@, pos as nat),
    ensures
        pos + 1 < chars.len() ==> place.0 == line_at(chars@, (pos + 1) as nat) && place.1
            == column_at(chars@, (pos + 1) as nat),
{
    proof {
        lemma_place_bounds(chars@, pos as nat);
    }
    if pos + 1 < chars.len() {
        if chars[pos] == '\n' {
            (line + 1, 1)
        } else {
            (line, column + 1)
        }
    } else {
        (line, column)
    }
}

/// The kind of the token that a character is by itself, if it is one.
fn mark_of(c: char) -> (kind: Option<TokenKind>)
    ensures
        kind == mark(c),
{
    if c == '[' {
        Some(TokenKind::BracketOpen)
    } else if c == ']' {
        Some(TokenKind::BracketClose)
    } else if c == '{' {
        Some(TokenKind::BraceOpen)
    } else if c == '}' {
        Some(TokenKind::BraceClose)
    } else if c == '\n' {
        Some(TokenKind::Newline)
    } else {
        None
    }
}

/// Cuts a text into tokens.
pub fn tokenize(chars: &Vec<char>) -> (tokens: Vec<Token>)
    ensures
        tokens_view(tokens@) == lexed(chars@, 0),
{
    let mut tokens: Vec<Token> = Vec::new();
    let mut pos: usize = 0;
    let mut line: usize = 1;
    let mut column: usize = 1;
    while pos < chars.len()
        invariant
            pos <= chars.len(),
            tokens_view(tokens@) + lexed(chars@, pos as nat) == lexed(chars@, 0),
            pos < chars.len() ==> line == line_at(chars@, pos as nat) && column == column_at(
                chars@,
                pos as nat,
            ),
        decreases chars.len() - pos,
    {
        let c = chars[pos];
        if c == ' ' || c == '\t' || c == '\r' {
            let place = place_behind(chars, pos, line, column);
            line = place.0;
            column = place.1;
            pos += 1;
        } else {
            match mark_of(c) {
                Some(kind) => {
                    let mut text = String::new();
                    push_char(&mut text, c);
                    let token = Token { kind, text, line, column };
                    tokens.push(token);
                    let place = place_behind(chars, pos, line, column);
                    line = place.0;
                    column = place.1;
                    pos += 1;
                },
                None => {
                    let start = pos;
                    let start_line = line;
                    let start_column = column;
                    let mut text = String::new();
                    while pos < chars.len() && chars[pos] != ' ' && chars[pos] != '\t'
                        && chars[pos] != '\r' && mark_of(chars[pos]).is_none()
                        invariant
                            start <= pos <= chars.len(),
                            text@ == chars@.subrange(start as int, pos as int),
                            word_end(chars@, start as nat) == word_end(chars@, pos as nat),
                            pos < chars.len() ==> line == line_at(chars@, pos as nat) && column
                                == column_at(chars@, pos as nat),
                        decreases chars.len() - pos,
                    {
                        push_char(&mut text, chars[pos]);
                        let place = place_behind(chars, pos, line, column);
                        line = place.0;
                        column = place.1;
                        pos += 1;
                    }
                    let token = Token {
                        kind: TokenKind::Word,
                        text,
                        line: start_line,
                        column: start_column,
                    };
                    tokens.push(token);
                },
            }
        }
    }
    tokens
}

} // verus!
