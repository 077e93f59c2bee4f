use sol_gen::lexer::Lexer;
use sol_gen::token::{Span, Token, TokenType};

fn token(start: usize, end: usize, kind: TokenType) -> Option<Token> {
    Some(Token { span: Span { start, end }, kind })
}

#[test]
fn test_lexer() {
    let src = " message test { flag: bool = 1; }";
    let mut lexer = Lexer::new(src);

    assert_eq!(token(1, 8, TokenType::Message), lexer.next());
    assert_eq!(token(9, 13, TokenType::Identifer), lexer.next());
    assert_eq!(token(14, 15, TokenType::LBrace), lexer.next());
    assert_eq!(token(16, 20, TokenType::Identifer), lexer.next());
    assert_eq!(token(20, 21, TokenType::Colon), lexer.next());
    assert_eq!(token(22, 26, TokenType::Bool), lexer.next());
    assert_eq!(token(27, 28, TokenType::Assign), lexer.next());
    assert_eq!(token(29, 30, TokenType::Intager), lexer.next());
    assert_eq!(token(30, 31, TokenType::SimiColon), lexer.next());
    assert_eq!(token(32, 33, TokenType::RBrace), lexer.next());

    let none = lexer.next();
    assert!(none.is_none());
}

#[test]
fn test_single_char_tokens() {
    let tests = [
        ('{', TokenType::LBrace),
        ('}', TokenType::RBrace),
        ('(', TokenType::LParam),
        (')', TokenType::RParam),
        ('[', TokenType::LBracket),
        (']', TokenType::RBracket),
        (',', TokenType::Comma),
        ('=', TokenType::Assign),
        (':', TokenType::Colon),
        (';', TokenType::SimiColon),
    ];

    for (ch, tok) in tests {
        let src = &format!(" {} ", ch);
        let token = Lexer::new(src).next();
        assert_eq!(
            Some(Token {
                span: Span { start: 1, end: 2 },
                kind: tok
            }),
            token
        )
    }
}

#[test]
fn test_word_tokens() {
    let tests = [
        // keywords
        ("account", TokenType::Account),
        ("accounts", TokenType::Accounts),
        ("contract", TokenType::Contract),
        ("init", TokenType::Init),
        ("instruction", TokenType::Instruction),
        ("message", TokenType::Message),
        ("mutable", TokenType::Mutable),
        // types
        ("bool", TokenType::Bool),
        ("option", TokenType::Option),
        ("Singer", TokenType::Signer),
        ("u64", TokenType::U64),
        ("u8", TokenType::U8),
        // identifer
        ("test", TokenType::Identifer),
    ];

    for (keyword, tok) in tests {
        let src = &format!(" {} ", keyword);
        let token = Lexer::new(src).next();
        assert_eq!(
            Some(Token {
                span: Span {
                    start: 1,
                    end: 1 + keyword.len()
                },
                kind: tok
            }),
            token
        )
    }
}

#[test]
fn test_intager_token() {
    let src = " 12345 ";
    let token = Lexer::new(src).next();
    assert_eq!(
        Some(Token {
            span: Span { start: 1, end: 6 },
            kind: TokenType::Intager
        }),
        token
    )
}

#[test]
fn test_invalid_single_char() {
    let tests = ".\"!@#$%^&*+~`\\/|?><";

    for ch in tests.chars() {
        let src = &format!(" {} ", ch);
        let token = Lexer::new(src).next();
        assert_eq!(
            Some(Token {
                span: Span { start: 1, end: 2 },
                kind: TokenType::InvalidChar(ch)
            }),
            token
        )
    }
}

#[test]
fn lexer_reads_a_word_up_to_the_end_of_the_text() {
    let mut lexer = Lexer::new("ab_1");
    assert_eq!(token(0, 4, TokenType::Identifer), lexer.next());
    assert_eq!(None, lexer.next());
    assert_eq!(None, lexer.next());
}

#[test]
fn lexer_splits_digits_from_a_following_word() {
    let mut lexer = Lexer::new("12ab");
    assert_eq!(token(0, 2, TokenType::Intager), lexer.next());
    assert_eq!(token(2, 4, TokenType::Identifer), lexer.next());
    assert_eq!(None, lexer.next());
}

#[test]
fn lexer_on_empty_and_blank_text() {
    assert_eq!(None, Lexer::new("").next());
    assert_eq!(None, Lexer::new(" \t\r\n ").next());
}

#[test]
fn lexer_src_span_gives_the_text_of_a_token() {
    let src = " message test { }";
    let mut lexer = Lexer::new(src);
    let _ = lexer.next();
    let name = lexer.next().unwrap();
    assert_eq!("test", lexer.src_span(name.span));
}

#[test]
fn lexer_keyword_needs_the_whole_word() {
    let mut lexer = Lexer::new("accountsx u8_ str");
    assert_eq!(token(0, 9, TokenType::Identifer), lexer.next());
    assert_eq!(token(10, 13, TokenType::Identifer), lexer.next());
    assert_eq!(token(14, 17, TokenType::Identifer), lexer.next());
}

#[test]
fn lexer_spans_are_byte_ranges() {
    let src = "\u{e9}{";
    let mut lexer = Lexer::new(src);
    assert_eq!(token(0, 2, TokenType::InvalidChar('\u{e9}')), lexer.next());
    assert_eq!(token(2, 3, TokenType::LBrace), lexer.next());
    assert_eq!(None, lexer.next());

    let src = "\u{a0}\u{2003}ab \u{1f600} 12\u{3000}";
    let mut lexer = Lexer::new(src);
    let word = lexer.next().unwrap();
    assert_eq!(Span { start: 5, end: 7 }, word.span);
    assert_eq!("ab", &src[word.span.start..word.span.end]);
    assert_eq!("ab", lexer.src_span(word.span));
    let face = lexer.next().unwrap();
    assert_eq!(token(8, 12, TokenType::InvalidChar('\u{1f600}')), Some(face));
    assert_eq!("\u{1f600}", lexer.src_span(face.span));
    let digits = lexer.next().unwrap();
    assert_eq!(token(13, 15, TokenType::Intager), Some(digits));
    assert_eq!("12", lexer.src_span(digits.span));
    assert_eq!(None, lexer.next());
    assert_eq!(src, lexer.src_span(Span { start: 0, end: src.len() }));
    assert_eq!("", lexer.src_span(Span { start: 5, end: 5 }));
}

#[test]
fn lexer_word_stops_at_a_wide_letter() {
    let mut lexer = Lexer::new("na\u{ef}ve");
    assert_eq!(token(0, 2, TokenType::Identifer), lexer.next());
    assert_eq!(token(2, 4, TokenType::InvalidChar('\u{ef}')), lexer.next());
    assert_eq!(token(4, 6, TokenType::Identifer), lexer.next());
}
