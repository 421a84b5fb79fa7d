use vstd::prelude::*;

verus! {

/// Byte values of the characters that the scanner tells apart.
pub const LEFT_PAREN_BYTE: u8 = 40;
pub const RIGHT_PAREN_BYTE: u8 = 41;
pub const LEFT_BRACE_BYTE: u8 = 123;
pub const RIGHT_BRACE_BYTE: u8 = 125;
pub const SEMICOLON_BYTE: u8 = 59;
pub const COMMA_BYTE: u8 = 44;
pub const DOT_BYTE: u8 = 46;
pub const MINUS_BYTE: u8 = 45;
pub const PLUS_BYTE: u8 = 43;
pub const SLASH_BYTE: u8 = 47;
pub const STAR_BYTE: u8 = 42;
pub const BANG_BYTE: u8 = 33;
pub const EQUAL_BYTE: u8 = 61;
pub const LESS_BYTE: u8 = 60;
pub const GREATER_BYTE: u8 = 62;
pub const SPACE_BYTE: u8 = 32;
pub const TAB_BYTE: u8 = 9;
pub const CARRIAGE_RETURN_BYTE: u8 = 13;
pub const NEWLINE_BYTE: u8 = 10;
pub const QUOTE_BYTE: u8 = 34;
pub const UNDERSCORE_BYTE: u8 = 95;
pub const DIGIT_ZERO_BYTE: u8 = 48;
pub const DIGIT_NINE_BYTE: u8 = 57;
pub const UPPER_A_BYTE: u8 = 65;
pub const UPPER_Z_BYTE: u8 = 90;
pub const LOWER_A_BYTE: u8 = 97;
pub const LOWER_Z_BYTE: u8 = 122;

/// The categories of lexemes.
#[derive(PartialEq, Eq, Structural, Debug, Clone, Copy)]
pub enum TokenType {
    // Single-character tokens.
    LeftParen,
    RightParen,
    LeftBrace,
    RightBrace,
    Comma,
    Dot,
    Minus,
    Plus,
    Semicolon,
    Slash,
    Star,
    // One or two character tokens.
    Bang,
    BangEqual,
    Equal,
    EqualEqual,
    Greater,
    GreaterEqual,
    Less,
    LessEqual,
    // Literals.
    Identifier,
    String,
    Number,
    // Keywords.
    And,
    Class,
    Else,
    False,
    Fun,
    For,
    If,
    Nil,
    Or,
    Print,
    Return,
    Super,
    This,
    True,
    Var,
    While,
    /// A string literal that the end of input cuts off: the token spans the
    /// opening quote and everything after it.
    UnterminatedString,
    /// A character that starts no lexeme this scanner recognizes; the token
    /// spans that one character.
    Unexpected,
    /// The end of the input: a token of length zero.
    EOF,
}

/// A classified lexeme: a span `[start, start + length)` of the source
/// buffer, with the 1-based line on which it begins.
#[derive(PartialEq, Eq, Structural, Debug, Clone, Copy)]
pub struct Token {
    pub tok_type: TokenType,
    pub start: usize,
    pub length: usize,
    pub line: usize,
}

/// The exact text of each operator, punctuation and keyword kind; empty for
/// the kinds whose text is not fixed.
pub open spec fn spelling(kind: TokenType) -> Seq<u8> {
    match kind {
        TokenType::LeftParen => seq![LEFT_PAREN_BYTE],
        TokenType::RightParen => seq![RIGHT_PAREN_BYTE],
        TokenType::LeftBrace => seq![LEFT_BRACE_BYTE],
        TokenType::RightBrace => seq![RIGHT_BRACE_BYTE],
        TokenType::Comma => seq![COMMA_BYTE],
        TokenType::Dot => seq![DOT_BYTE],
        TokenType::Minus => seq![MINUS_BYTE],
        TokenType::Plus => seq![PLUS_BYTE],
        TokenType::Semicolon => seq![SEMICOLON_BYTE],
        TokenType::Slash => seq![SLASH_BYTE],
        TokenType::Star => seq![STAR_BYTE],
        TokenType::Bang => seq![BANG_BYTE],
        TokenType::BangEqual => seq![BANG_BYTE, EQUAL_BYTE],
        TokenType::Equal => seq![EQUAL_BYTE],
        TokenType::EqualEqual => seq![EQUAL_BYTE, EQUAL_BYTE],
        TokenType::Greater => seq![GREATER_BYTE],
        TokenType::GreaterEqual => seq![GREATER_BYTE, EQUAL_BYTE],
        TokenType::Less => seq![LESS_BYTE],
        TokenType::LessEqual => seq![LESS_BYTE, EQUAL_BYTE],
        TokenType::And => seq![97, 110, 100],
        TokenType::Class => seq![99, 108, 97, 115, 115],
        TokenType::Else => seq![101, 108, 115, 101],
        TokenType::False => seq![102, 97, 108, 115, 101],
        TokenType::Fun => seq![102, 117, 110],
        TokenType::For => seq![102, 111, 114],
        TokenType::If => seq![105, 102],
        TokenType::Nil => seq![110, 105, 108],
        TokenType::Or => seq![111, 114],
        TokenType::Print => seq![112, 114, 105, 110, 116],
        TokenType::Return => seq![114, 101, 116, 117, 114, 110],
        TokenType::Super => seq![115, 117, 112, 101, 114],
        TokenType::This => seq![116, 104, 105, 115],
        TokenType::True => seq![116, 114, 117, 101],
        TokenType::Var => seq![118, 97, 114],
        TokenType::While => seq![119, 104, 105, 108, 101],
        _ => seq![],
    }
}

/// Whether every token of a kind has the same text.
pub open spec fn has_fixed_text(kind: TokenType) -> bool {
    spelling(kind).len() > 0
}

/// The kind of a word: the keyword it spells, else `Identifier`.
pub open spec fn keyword_of(word: Seq<u8>) -> TokenType {
    if word == spelling(TokenType::And) {
        TokenType::And
    } else if word == spelling(TokenType::Class) {
        TokenType::Class
    } else if word == spelling(TokenType::Else) {
        TokenType::Else
    } else if word == spelling(TokenType::False) {
        TokenType::False
    } else if word == spelling(TokenType::Fun) {
        TokenType::Fun
    } else if word == spelling(TokenType::For) {
        TokenType::For
    } else if word == spelling(TokenType::If) {
        TokenType::If
    } else if word == spelling(TokenType::Nil) {
        TokenType::Nil
    } else if word == spelling(TokenType::Or) {
        TokenType::Or
    } else if word == spelling(TokenType::Print) {
        TokenType::Print
    } else if word == spelling(TokenType::Return) {
        TokenType::Return
    } else if word == spelling(TokenType::Super) {
        TokenType::Super
    } else if word == spelling(TokenType::This) {
        TokenType::This
    } else if word == spelling(TokenType::True) {
        TokenType::True
    } else if word == spelling(TokenType::Var) {
        TokenType::Var
    } else if word == spelling(TokenType::While) {
        TokenType::While
    } else {
        TokenType::Identifier
    }
}

/// Whether `buf[start..end]` holds exactly the bytes of `word`.
fn span_is(buf: &Vec<u8>, start: usize, end: usize, word: &[u8]) -> (r: bool)
    requires
        start <= end <= buf@.len(),
    ensures
        r == (buf@.subrange(start as int, end as int) == word@),
{
    if end - start != word.len() {
        return false;
    }
    let mut i: usize = 0;
    while i < word.len()
        invariant
            start <= end <= buf@.len(),
            end - start == word@.len(),
            i <= word@.len(),
            forall|j: int| 0 <= j < i ==> buf@[start + j] == word@[j],
        decreases word@.len() - i,
    {
        if buf[start + i] != word[i] {
            assert(buf@.subrange(start as int, end as int)[i as int] != word@[i as int]);
            return false;
        }
        i = i + 1;
    }
    assert(buf@.subrange(start as int, end as int) =~= word@);
    true
}

/// The kind of the word `buf[start..end]`: a keyword or `Identifier`.
pub fn keyword_kind(buf: &Vec<u8>, start: usize, end: usize) -> (r: TokenType)
    requires
        start <= end <= buf@.len(),
    ensures
        r == keyword_of(buf@.subrange(start as int, end as int)),
{
    if span_is(buf, start, end, &[97, 110, 100]) {
        TokenType::And
    } else if span_is(buf, start, end, &[99, 108, 97, 115, 115]) {
        TokenType::Class
    } else if span_is(buf, start, end, &[101, 108, 115, 101]) {
        TokenType::Else
    } else if span_is(buf, start, end, &[102, 97, 108, 115, 101]) {
        TokenType::False
    } else if span_is(buf, start, end, &[102, 117, 110]) {
        TokenType::Fun
    } else if span_is(buf, start, end, &[102, 111, 114]) {
        TokenType::For
    } else if span_is(buf, start, end, &[105, 102]) {
        TokenType::If
    } else if span_is(buf, start, end, &[110, 105, 108]) {
        TokenType::Nil
    } else if span_is(buf, start, end, &[111, 114]) {
        TokenType::Or
    } else if span_is(buf, start, end, &[112, 114, 105, 110, 116]) {
        TokenType::Print
    } else if span_is(buf, start, end, &[114, 101, 116, 117, 114, 110]) {
        TokenType::Return
    } else if span_is(buf, start, end, &[115, 117, 112, 101, 114]) {
        TokenType::Super
    } else if span_is(buf, start, end, &[116, 104, 105, 115]) {
        TokenType::This
    } else if span_is(buf, start, end, &[116, 114, 117, 101]) {
        TokenType::True
    } else if span_is(buf, start, end, &[118, 97, 114]) {
        TokenType::Var
    } else if span_is(buf, start, end, &[119, 104, 105, 108, 101]) {
        TokenType::While
    } else {
        TokenType::Identifier
    }
}

} // verus!
