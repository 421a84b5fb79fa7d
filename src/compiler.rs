use vstd::prelude::*;
use vstd::utf8::encode_utf8;
use crate::token::{NEWLINE_BYTE, 
    spelling, has_fixed_text, keyword_of, keyword_kind, Token, TokenType, QUOTE_BYTE,
    UNDERSCORE_BYTE, DIGIT_ZERO_BYTE, DIGIT_NINE_BYTE, UPPER_A_BYTE, UPPER_Z_BYTE, LOWER_A_BYTE,
    LOWER_Z_BYTE, BANG_BYTE, COMMA_BYTE, DOT_BYTE, EQUAL_BYTE,
    GREATER_BYTE, LEFT_BRACE_BYTE, LEFT_PAREN_BYTE, LESS_BYTE, MINUS_BYTE, PLUS_BYTE,
    RIGHT_BRACE_BYTE, RIGHT_PAREN_BYTE, SEMICOLON_BYTE, SLASH_BYTE, STAR_BYTE,
};
use crate::scanner::{
    newlines_before, line_at, skip_end, lemma_skip_from, Scanner,
};

verus! {

/// A letter or an underscore: the bytes that start a word.
pub open spec fn is_alpha(c: u8) -> bool {
    (UPPER_A_BYTE <= c <= UPPER_Z_BYTE) || (LOWER_A_BYTE <= c <= LOWER_Z_BYTE) || c == UNDERSCORE_BYTE
}

/// A decimal digit.
pub open spec fn is_digit(c: u8) -> bool {
    DIGIT_ZERO_BYTE <= c <= DIGIT_NINE_BYTE
}

/// The end of the run of letters, digits and underscores that begins at `pos`.
pub open spec fn word_end(buf: Seq<u8>, pos: int) -> int
    decreases buf.len() - pos,
{
    if 0 <= pos < buf.len() && (is_alpha(buf[pos]) || is_digit(buf[pos])) {
        word_end(buf, pos + 1)
    } else {
        pos
    }
}

/// The end of the run of digits that begins at `pos`.
pub open spec fn digits_end(buf: Seq<u8>, pos: int) -> int
    decreases buf.len() - pos,
{
    if 0 <= pos < buf.len() && is_digit(buf[pos]) {
        digits_end(buf, pos + 1)
    } else {
        pos
    }
}

/// The end of a number whose digits continue at `pos`: the digits, then a
/// dot and more digits where a digit follows the dot.
pub open spec fn number_end(buf: Seq<u8>, pos: int) -> int {
    let e = digits_end(buf, pos);
    if e + 1 < buf.len() && buf[e] == DOT_BYTE && is_digit(buf[e + 1]) {
        digits_end(buf, e + 1)
    } else {
        e
    }
}

/// The offset of the first quote at or after `pos`, or the length of `buf`.
pub open spec fn string_end(buf: Seq<u8>, pos: int) -> int
    decreases buf.len() - pos,
{
    if 0 <= pos < buf.len() && buf[pos] != QUOTE_BYTE {
        string_end(buf, pos + 1)
    } else {
        pos
    }
}

proof fn lemma_word_end(buf: Seq<u8>, pos: int)
    requires
        0 <= pos <= buf.len(),
    ensures
        pos <= word_end(buf, pos) <= buf.len(),
    decreases buf.len() - pos,
{
    if pos < buf.len() {
        lemma_word_end(buf, pos + 1);
    }
}

proof fn lemma_digits_end(buf: Seq<u8>, pos: int)
    requires
        0 <= pos <= buf.len(),
    ensures
        pos <= digits_end(buf, pos) <= buf.len(),
    decreases buf.len() - pos,
{
    if pos < buf.len() {
        lemma_digits_end(buf, pos + 1);
    }
}

proof fn lemma_string_end(buf: Seq<u8>, pos: int)
    requires
        0 <= pos <= buf.len(),
    ensures
        pos <= string_end(buf, pos) <= buf.len(),
    decreases buf.len() - pos,
{
    if pos < buf.len() {
        lemma_string_end(buf, pos + 1);
    }
}

/// A lexeme is at least one byte long and ends within the buffer.
proof fn lemma_lexeme_bounds(buf: Seq<u8>, pos: int)
    requires
        0 <= pos < buf.len(),
    ensures
        1 <= lexeme_at(buf, pos).1 <= buf.len() - pos,
{
    lemma_word_end(buf, pos + 1);
    lemma_digits_end(buf, pos + 1);
    let e = digits_end(buf, pos + 1);
    if e + 1 < buf.len() {
        lemma_digits_end(buf, e + 1);
    }
    lemma_string_end(buf, pos + 1);
}

fn is_alpha_byte(c: u8) -> (r: bool)
    ensures
        r == is_alpha(c),
{
    (UPPER_A_BYTE <= c && c <= UPPER_Z_BYTE) || (LOWER_A_BYTE <= c && c <= LOWER_Z_BYTE) || c
        == UNDERSCORE_BYTE
}

fn is_digit_byte(c: u8) -> (r: bool)
    ensures
        r == is_digit(c),
{
    DIGIT_ZERO_BYTE <= c && c <= DIGIT_NINE_BYTE
}

/// The kind and length of the lexeme that starts at offset `pos` of `buf`.
/// An operator head (`!`, `=`, `<`, `>`) takes the `=` that follows it; a
/// word, a number and a string literal take as much as their forms allow.
pub open spec fn lexeme_at(buf: Seq<u8>, pos: int) -> (TokenType, int) {
    let c = buf[pos];
    let eq_follows = pos + 1 < buf.len() && buf[pos + 1] == EQUAL_BYTE;
    if c == LEFT_PAREN_BYTE {
        (TokenType::LeftParen, 1)
    } else if c == RIGHT_PAREN_BYTE {
        (TokenType::RightParen, 1)
    } else if c == LEFT_BRACE_BYTE {
        (TokenType::LeftBrace, 1)
    } else if c == RIGHT_BRACE_BYTE {
        (TokenType::RightBrace, 1)
    } else if c == SEMICOLON_BYTE {
        (TokenType::Semicolon, 1)
    } else if c == COMMA_BYTE {
        (TokenType::Comma, 1)
    } else if c == DOT_BYTE {
        (TokenType::Dot, 1)
    } else if c == MINUS_BYTE {
        (TokenType::Minus, 1)
    } else if c == PLUS_BYTE {
        (TokenType::Plus, 1)
    } else if c == SLASH_BYTE {
        (TokenType::Slash, 1)
    } else if c == STAR_BYTE {
        (TokenType::Star, 1)
    } else if c == BANG_BYTE {
        if eq_follows { (TokenType::BangEqual, 2) } else { (TokenType::Bang, 1) }
    } else if c == EQUAL_BYTE {
        if eq_follows { (TokenType::EqualEqual, 2) } else { (TokenType::Equal, 1) }
    } else if c == LESS_BYTE {
        if eq_follows { (TokenType::LessEqual, 2) } else { (TokenType::Less, 1) }
    } else if c == GREATER_BYTE {
        if eq_follows { (TokenType::GreaterEqual, 2) } else { (TokenType::Greater, 1) }
    } else if is_alpha(c) {
        (keyword_of(buf.subrange(pos, word_end(buf, pos + 1))), word_end(buf, pos + 1) - pos)
    } else if is_digit(c) {
        (TokenType::Number, number_end(buf, pos + 1) - pos)
    } else if c == QUOTE_BYTE {
        if string_end(buf, pos + 1) < buf.len() {
            (TokenType::String, string_end(buf, pos + 1) + 1 - pos)
        } else {
            (TokenType::UnterminatedString, buf.len() - pos)
        }
    } else {
        (TokenType::Unexpected, 1)
    }
}

/// The token that a scan with the cursor at `pos` produces: blanks and
/// comments are passed over, then one lexeme is recognized, or the end of
/// input is reported with a token of length zero.
#[verifier::opaque]
pub open spec fn token_at(buf: Seq<u8>, pos: int) -> Token {
    let s = skip_end(buf, pos);
    if s >= buf.len() {
        Token { tok_type: TokenType::EOF, start: s as usize, length: 0, line: line_at(buf, s) as usize }
    } else {
        Token {
            tok_type: lexeme_at(buf, s).0,
            start: s as usize,
            length: lexeme_at(buf, s).1 as usize,
            line: line_at(buf, s) as usize,
        }
    }
}

/// Where the cursor stands after the token scanned from `pos`.
pub open spec fn token_end(buf: Seq<u8>, pos: int) -> int {
    token_at(buf, pos).start + token_at(buf, pos).length
}

/// Drives a scanner over one source buffer, one token at a time.
pub struct Compiler {
    pub scanner: Scanner,
}

impl Compiler {
    /// The scanner is well formed and its line counter is the line of its cursor.
    pub open spec fn wf(&self) -> bool {
        &&& self.scanner.wf()
        &&& self.scanner.line == line_at(self.scanner.buffer@, self.scanner.current as int)
    }

    /// The source bytes being scanned.
    pub open spec fn text(&self) -> Seq<u8> {
        self.scanner.buffer@
    }

    /// A compiler whose scanner stands at the start of `source`, on line 1.
    pub fn from_source(source: &String) -> (r: Compiler)
        requires
            encode_utf8(source@).len() < usize::MAX,
        ensures
            r.wf(),
            r.text() == encode_utf8(source@),
            r.scanner.start == 0,
            r.scanner.current == 0,
            r.scanner.line == 1,
    {
        let buffer = source.as_str().as_bytes_vec();
        Compiler { scanner: Scanner { start: 0, current: 0, line: 1, buffer } }
    }

    /// A token of the given kind over the lexeme between the scanner's
    /// `start` and `current`, on the scanner's line.
    pub fn make_token(&self, tok_type: TokenType) -> (r: Token)
        requires
            self.scanner.wf(),
        ensures
            r == (Token {
                tok_type,
                start: self.scanner.start,
                length: (self.scanner.current - self.scanner.start) as usize,
                line: self.scanner.line,
            }),
    {
        Token {
            tok_type,
            start: self.scanner.start,
            length: self.scanner.current - self.scanner.start,
            line: self.scanner.line,
        }
    }

    /// Reads the rest of a word whose first byte was just read, and returns
    /// its kind.
    fn scan_word(&mut self) -> (r: TokenType)
        requires
            old(self).wf(),
        ensures
            final(self).wf(),
            final(self).text() == old(self).text(),
            final(self).scanner.start == old(self).scanner.start,
            final(self).scanner.current == word_end(old(self).text(), old(self).scanner.current as int),
            r == keyword_of(
                old(self).text().subrange(old(self).scanner.start as int, final(self).scanner.current as int),
            ),
    {
        let ghost buf = self.text();
        let ghost start0 = self.scanner.start;
        let ghost target = word_end(buf, self.scanner.current as int);
        while !self.scanner.is_at_end() && (is_alpha_byte(self.scanner.peek()) || is_digit_byte(
            self.scanner.peek(),
        ))
            invariant
                self.wf(),
                self.text() == buf,
                self.scanner.start == start0,
                word_end(buf, self.scanner.current as int) == target,
            decreases buf.len() - self.scanner.current,
        {
            self.scanner.advance();
        }
        keyword_kind(&self.scanner.buffer, self.scanner.start, self.scanner.current)
    }

    /// Reads a run of digits.
    fn scan_digits(&mut self)
        requires
            old(self).wf(),
        ensures
            final(self).wf(),
            final(self).text() == old(self).text(),
            final(self).scanner.start == old(self).scanner.start,
            final(self).scanner.current == digits_end(old(self).text(), old(self).scanner.current as int),
    {
        let ghost buf = self.text();
        let ghost start0 = self.scanner.start;
        let ghost target = digits_end(buf, self.scanner.current as int);
        while !self.scanner.is_at_end() && is_digit_byte(self.scanner.peek())
            invariant
                self.wf(),
                self.text() == buf,
                self.scanner.start == start0,
                digits_end(buf, self.scanner.current as int) == target,
            decreases buf.len() - self.scanner.current,
        {
            self.scanner.advance();
        }
    }

    /// Reads the rest of a number whose first digit was just read.
    fn scan_number(&mut self)
        requires
            old(self).wf(),
        ensures
            final(self).wf(),
            final(self).text() == old(self).text(),
            final(self).scanner.start == old(self).scanner.start,
            final(self).scanner.current == number_end(old(self).text(), old(self).scanner.current as int),
    {
        self.scan_digits();
        if !self.scanner.is_at_end() && self.scanner.peek() == DOT_BYTE {
            let fraction = match self.scanner.peek_next() {
                Some(d) => is_digit_byte(d),
                None => false,
            };
            if fraction {
                self.scanner.advance();
                self.scan_digits();
            }
        }
    }

    /// Reads the rest of a string literal whose opening quote was just read,
    /// through its closing quote, counting the newlines inside it.
    fn scan_string(&mut self) -> (r: TokenType)
        requires
            old(self).wf(),
        ensures
            final(self).wf(),
            final(self).text() == old(self).text(),
            final(self).scanner.start == old(self).scanner.start,
            ({
                let e = string_end(old(self).text(), old(self).scanner.current as int);
                if e < old(self).text().len() {
                    r == TokenType::String && final(self).scanner.current == e + 1
                } else {
                    r == TokenType::UnterminatedString && final(self).scanner.current == e
                }
            }),
    {
        let ghost buf = self.text();
        let ghost start0 = self.scanner.start;
        let ghost target = string_end(buf, self.scanner.current as int);
        while !self.scanner.is_at_end() && self.scanner.peek() != QUOTE_BYTE
            invariant
                self.wf(),
                self.text() == buf,
                self.scanner.start == start0,
                string_end(buf, self.scanner.current as int) == target,
            decreases buf.len() - self.scanner.current,
        {
            let c = self.scanner.advance();
            if c == NEWLINE_BYTE {
                self.scanner.line = self.scanner.line + 1;
            }
        }
        if self.scanner.is_at_end() {
            TokenType::UnterminatedString
        } else {
            self.scanner.advance();
            TokenType::String
        }
    }

    /// Produces the next token and leaves the cursor right after it: blanks
    /// and comments are passed over, then one lexeme is recognized (an
    /// operator, a word, a number, a string literal, or a single unexpected
    /// character). The token carries the line on which its lexeme begins.
    /// Once the input is exhausted, every call yields the end-of-input token.
    pub fn scan_token(&mut self) -> (r: Token)
        requires
            old(self).wf(),
        ensures
            final(self).wf(),
            final(self).text() == old(self).text(),
            r == token_at(old(self).text(), old(self).scanner.current as int),
            final(self).scanner.start == r.start || old(self).scanner.at_end(),
            final(self).scanner.current >= old(self).scanner.current,
            final(self).scanner.current == r.start + r.length,
            r.tok_type == TokenType::EOF <==> r.length == 0,
            r.tok_type == TokenType::EOF ==> final(self).scanner.at_end(),
            r.tok_type != TokenType::EOF ==> final(self).scanner.current > old(self).scanner.current,
            old(self).scanner.at_end() ==> r.tok_type == TokenType::EOF && r.length == 0 && r.line
                == old(self).scanner.line && *final(self) == *old(self),
            has_fixed_text(r.tok_type) ==> old(self).text().subrange(r.start as int, r.start + r.length)
                == spelling(r.tok_type),
    {
        let ghost buf = self.scanner.buffer@;
        let ghost cur0 = self.scanner.current as int;
        proof {
            reveal(token_at);
        }
        if self.scanner.is_at_end() {
            return Token {
                tok_type: TokenType::EOF,
                start: self.scanner.current,
                length: 0,
                line: self.scanner.line,
            };
        }
        self.scanner.skip_whitespaces();
        proof {
            lemma_skip_from(buf, cur0, false);
        }
        self.scanner.start = self.scanner.current;
        if self.scanner.is_at_end() {
            return self.make_token(TokenType::EOF);
        }
        let ghost s = self.scanner.current as int;
        let line = self.scanner.line;
        let c = self.scanner.advance();
        assert(newlines_before(buf, s + 1) == newlines_before(buf, s));
        let kind = if is_alpha_byte(c) {
            self.scan_word()
        } else if is_digit_byte(c) {
            self.scan_number();
            TokenType::Number
        } else if c == QUOTE_BYTE {
            self.scan_string()
        } else if c == LEFT_PAREN_BYTE {
            TokenType::LeftParen
        } else if c == RIGHT_PAREN_BYTE {
            TokenType::RightParen
        } else if c == LEFT_BRACE_BYTE {
            TokenType::LeftBrace
        } else if c == RIGHT_BRACE_BYTE {
            TokenType::RightBrace
        } else if c == SEMICOLON_BYTE {
            TokenType::Semicolon
        } else if c == COMMA_BYTE {
            TokenType::Comma
        } else if c == DOT_BYTE {
            TokenType::Dot
        } else if c == MINUS_BYTE {
            TokenType::Minus
        } else if c == PLUS_BYTE {
            TokenType::Plus
        } else if c == SLASH_BYTE {
            TokenType::Slash
        } else if c == STAR_BYTE {
            TokenType::Star
        } else if c == BANG_BYTE {
            if self.scanner.match_next(EQUAL_BYTE) { TokenType::BangEqual } else { TokenType::Bang }
        } else if c == EQUAL_BYTE {
            if self.scanner.match_next(EQUAL_BYTE) { TokenType::EqualEqual } else { TokenType::Equal }
        } else if c == LESS_BYTE {
            if self.scanner.match_next(EQUAL_BYTE) { TokenType::LessEqual } else { TokenType::Less }
        } else if c == GREATER_BYTE {
            if self.scanner.match_next(EQUAL_BYTE) {
                TokenType::GreaterEqual
            } else {
                TokenType::Greater
            }
        } else {
            TokenType::Unexpected
        };
        proof {
            if self.scanner.current == s + 2 && buf[s + 1] == EQUAL_BYTE {
                assert(newlines_before(buf, s + 2) == newlines_before(buf, s + 1));
            }
            lemma_lexeme_bounds(buf, s);
        }
        let mut r = self.make_token(kind);
        r.line = line;
        proof {
            if has_fixed_text(r.tok_type) {
                lemma_token_spells_its_text(buf, cur0);
            }
        }
        r
    }

    /// Scans to the end of input and returns every token, the end-of-input
    /// token last and only there. Each token is the one scanned from where
    /// the previous one ended.
    pub fn scan_all(&mut self) -> (r: Vec<Token>)
        requires
            old(self).wf(),
        ensures
            final(self).wf(),
            final(self).text() == old(self).text(),
            final(self).scanner.at_end(),
            r@.len() >= 1,
            r@.last().tok_type == TokenType::EOF,
            forall|i: int| 0 <= i < r@.len() - 1 ==> r@[i].tok_type != TokenType::EOF,
            r@[0] == token_at(old(self).text(), old(self).scanner.current as int),
            forall|i: int|
                0 < i < r@.len() ==> #[trigger] r@[i] == token_at(
                    old(self).text(),
                    r@[i - 1].start + r@[i - 1].length,
                ),
    {
        let ghost buf = self.text();
        let ghost cur0 = self.scanner.current as int;
        let mut tokens: Vec<Token> = Vec::new();
        let mut tok = self.scan_token();
        tokens.push(tok);
        while tok.tok_type != TokenType::EOF
            invariant
                self.wf(),
                self.text() == buf,
                tokens@.len() >= 1,
                tok == tokens@.last(),
                self.scanner.current == tok.start + tok.length,
                tok.tok_type == TokenType::EOF ==> self.scanner.at_end(),
                tokens@[0] == token_at(buf, cur0),
                forall|i: int| 0 <= i < tokens@.len() - 1 ==> tokens@[i].tok_type != TokenType::EOF,
                forall|i: int|
                    0 < i < tokens@.len() ==> #[trigger] tokens@[i] == token_at(
                        buf,
                        tokens@[i - 1].start + tokens@[i - 1].length,
                    ),
            decreases buf.len() - self.scanner.current + if tok.tok_type == TokenType::EOF {
                0int
            } else {
                1int
            },
        {
            let ghost prev = tokens@;
            tok = self.scan_token();
            tokens.push(tok);
            assert(tokens@[tokens@.len() - 2] == prev.last());
        }
        tokens
    }
}

/// Round trip: the bytes that an operator, punctuation or keyword token
/// spans are exactly that token's text.
pub proof fn lemma_token_spells_its_text(buf: Seq<u8>, pos: int)
    requires
        0 <= pos <= buf.len(),
        buf.len() <= usize::MAX,
        has_fixed_text(token_at(buf, pos).tok_type),
    ensures
        buf.subrange(token_at(buf, pos).start as int, token_end(buf, pos)) == spelling(
            token_at(buf, pos).tok_type,
        ),
{
    reveal(token_at);
    lemma_skip_from(buf, pos, false);
    let s = skip_end(buf, pos);
    let t = token_at(buf, pos);
    lemma_lexeme_bounds(buf, s);
    if is_alpha(buf[s]) {
        let word = buf.subrange(s, word_end(buf, s + 1));
        assert(t.tok_type == keyword_of(word));
        assert(word == spelling(t.tok_type));
    } else if t.length == 1 {
        assert(buf.subrange(s, s + 1) =~= seq![buf[s]]);
    } else {
        assert(buf.subrange(s, s + 2) =~= seq![buf[s], buf[s + 1]]);
    }
}

/// Once a scan reports the end of input, the cursor stands at the end of
/// the buffer, and every later scan reports the end of input again, with
/// length zero, without moving the cursor.
pub proof fn lemma_end_of_input_repeats(buf: Seq<u8>, pos: int)
    requires
        0 <= pos <= buf.len(),
        buf.len() <= usize::MAX,
        token_at(buf, pos).tok_type == TokenType::EOF,
    ensures
        token_end(buf, pos) == buf.len(),
        token_at(buf, buf.len() as int).tok_type == TokenType::EOF,
        token_at(buf, buf.len() as int).length == 0,
        token_end(buf, buf.len() as int) == buf.len(),
{
    reveal(token_at);
    lemma_skip_from(buf, pos, false);
}

} // verus!
