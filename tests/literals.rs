use lexer::compiler::Compiler;
use lexer::token::{Token, TokenType};

fn tokens_of(source: &str) -> Vec<Token> {
    let source = source.to_string();
    let mut compiler = Compiler::from_source(&source);
    let mut tokens = Vec::new();
    loop {
        let tok = compiler.scan_token();
        tokens.push(tok);
        if tok.tok_type == TokenType::EOF {
            return tokens;
        }
    }
}

fn kinds(tokens: &[Token]) -> Vec<TokenType> {
    tokens.iter().map(|t| t.tok_type).collect()
}

#[test]
fn every_keyword_is_recognized() {
    let source = "and class else false fun for if nil or print return super this true var while";
    let tokens = tokens_of(source);
    assert_eq!(
        kinds(&tokens),
        vec![
            TokenType::And,
            TokenType::Class,
            TokenType::Else,
            TokenType::False,
            TokenType::Fun,
            TokenType::For,
            TokenType::If,
            TokenType::Nil,
            TokenType::Or,
            TokenType::Print,
            TokenType::Return,
            TokenType::Super,
            TokenType::This,
            TokenType::True,
            TokenType::Var,
            TokenType::While,
            TokenType::EOF
        ]
    );
    for (tok, word) in tokens.iter().zip(source.split(' ')) {
        assert_eq!(&source[tok.start..tok.start + tok.length], word);
    }
}

#[test]
fn words_near_keywords_are_identifiers() {
    let tokens = tokens_of("andy _x1 orchid fo While");
    assert_eq!(
        kinds(&tokens),
        vec![
            TokenType::Identifier,
            TokenType::Identifier,
            TokenType::Identifier,
            TokenType::Identifier,
            TokenType::Identifier,
            TokenType::EOF
        ]
    );
    assert_eq!(tokens[0], Token { tok_type: TokenType::Identifier, start: 0, length: 4, line: 1 });
    assert_eq!(tokens[1].length, 3);
}

#[test]
fn word_followed_by_operator() {
    let tokens = tokens_of("if(x>=1)");
    assert_eq!(
        kinds(&tokens),
        vec![
            TokenType::If,
            TokenType::LeftParen,
            TokenType::Identifier,
            TokenType::GreaterEqual,
            TokenType::Number,
            TokenType::RightParen,
            TokenType::EOF
        ]
    );
}

#[test]
fn numbers_take_one_fraction() {
    let tokens = tokens_of("12 3.5 7. .5 1.2.3");
    assert_eq!(
        kinds(&tokens),
        vec![
            TokenType::Number,
            TokenType::Number,
            TokenType::Number,
            TokenType::Dot,
            TokenType::Dot,
            TokenType::Number,
            TokenType::Number,
            TokenType::Dot,
            TokenType::Number,
            TokenType::EOF
        ]
    );
    let lengths: Vec<usize> = tokens.iter().map(|t| t.length).collect();
    assert_eq!(lengths, vec![2, 3, 1, 1, 1, 1, 3, 1, 1, 0]);
}

#[test]
fn string_spans_its_quotes_and_lines() {
    let tokens = tokens_of("\"a\nb\" +");
    assert_eq!(tokens[0], Token { tok_type: TokenType::String, start: 0, length: 5, line: 1 });
    assert_eq!(tokens[1], Token { tok_type: TokenType::Plus, start: 6, length: 1, line: 2 });
    assert_eq!(tokens[2].tok_type, TokenType::EOF);
}

#[test]
fn empty_string_literal() {
    let tokens = tokens_of("\"\"");
    assert_eq!(tokens[0], Token { tok_type: TokenType::String, start: 0, length: 2, line: 1 });
    assert_eq!(tokens[1].tok_type, TokenType::EOF);
}

#[test]
fn unterminated_string_runs_to_end_of_input() {
    let tokens = tokens_of("( \"abc\n");
    assert_eq!(tokens[0].tok_type, TokenType::LeftParen);
    assert_eq!(
        tokens[1],
        Token { tok_type: TokenType::UnterminatedString, start: 2, length: 5, line: 1 }
    );
    assert_eq!(tokens[2], Token { tok_type: TokenType::EOF, start: 7, length: 0, line: 2 });
}

#[test]
fn comment_inside_string_is_text() {
    let tokens = tokens_of("\"// not a comment\";");
    assert_eq!(kinds(&tokens), vec![TokenType::String, TokenType::Semicolon, TokenType::EOF]);
}
