use rvm::liamc::lexer::{can_lex, is_word_char, Lexer, Token, TokenType};
use rvm::liamc::parser::{Node, NodeType, Parser};
use rvm::text::parse_i32;

fn token(token_type: TokenType, string: &str, start: usize, end: usize) -> Token {
    Token::new(token_type, String::from(string), start, end)
}

fn lex(source: &str) -> Vec<Token> {
    assert!(can_lex(source));
    let mut lexer = Lexer::new(String::from(source));
    lexer.lex();
    assert_eq!(lexer.current, source.len());
    lexer.tokens
}

#[test]
fn token_holds_what_it_was_given() {
    let t = Token::new(TokenType::Plus, String::from("+"), 3, 4);
    assert_eq!(t.token_type, TokenType::Plus);
    assert_eq!(t.string, "+");
    assert_eq!(t.start, 3);
    assert_eq!(t.end, 4);
}

#[test]
fn new_lexer_stands_at_the_start() {
    let lexer = Lexer::new(String::from("let x"));
    assert!(lexer.tokens.is_empty());
    assert_eq!(lexer.source, "let x");
    assert_eq!(lexer.current, 0);
}

#[test]
fn lexer_finds_every_kind_of_token() {
    assert_eq!(
        lex("let x { 12 + y }"),
        vec![
            token(TokenType::Let, "let", 0, 3),
            token(TokenType::Identifier, "x", 4, 5),
            token(TokenType::LeftBrace, "{", 6, 7),
            token(TokenType::IntLiteral, "12", 8, 10),
            token(TokenType::Plus, "+", 11, 12),
            token(TokenType::Identifier, "y", 13, 14),
            token(TokenType::RightBrace, "}", 15, 16),
        ]
    );
}

#[test]
fn punctuation_needs_no_blanks_around_it() {
    assert_eq!(
        lex("1+2{a}"),
        vec![
            token(TokenType::IntLiteral, "1", 0, 1),
            token(TokenType::Plus, "+", 1, 2),
            token(TokenType::IntLiteral, "2", 2, 3),
            token(TokenType::LeftBrace, "{", 3, 4),
            token(TokenType::Identifier, "a", 4, 5),
            token(TokenType::RightBrace, "}", 5, 6),
        ]
    );
}

#[test]
fn blanks_of_every_kind_separate() {
    assert_eq!(
        lex("a\nb\r\nc\td  "),
        vec![
            token(TokenType::Identifier, "a", 0, 1),
            token(TokenType::Identifier, "b", 2, 3),
            token(TokenType::Identifier, "c", 5, 6),
            token(TokenType::Identifier, "d", 7, 8),
        ]
    );
    assert!(lex("").is_empty());
    assert!(lex(" \t\r\n").is_empty());
}

#[test]
fn words_are_keywords_literals_or_identifiers() {
    assert_eq!(lex("let"), vec![token(TokenType::Let, "let", 0, 3)]);
    assert_eq!(lex("lets"), vec![token(TokenType::Identifier, "lets", 0, 4)]);
    assert_eq!(lex("Let"), vec![token(TokenType::Identifier, "Let", 0, 3)]);
    assert_eq!(lex("007"), vec![token(TokenType::IntLiteral, "007", 0, 3)]);
    assert_eq!(lex("12ab"), vec![token(TokenType::Identifier, "12ab", 0, 4)]);
    assert_eq!(lex("2147483647"), vec![token(TokenType::IntLiteral, "2147483647", 0, 10)]);
    assert_eq!(lex("2147483648"), vec![token(TokenType::Identifier, "2147483648", 0, 10)]);
}

#[test]
fn lexing_goes_on_from_the_present_position() {
    let mut lexer = Lexer::new(String::from("ab cd"));
    lexer.current = 3;
    lexer.lex();
    assert_eq!(lexer.tokens, vec![token(TokenType::Identifier, "cd", 3, 5)]);
    lexer.lex();
    assert_eq!(lexer.tokens.len(), 1);
}

#[test]
fn lexing_from_beyond_the_end_finds_nothing() {
    let mut lexer = Lexer::new(String::from("ab"));
    lexer.current = 5;
    lexer.lex();
    assert!(lexer.tokens.is_empty());
    assert_eq!(lexer.current, 5);
}

#[test]
fn next_char_reads_and_moves_on() {
    let mut lexer = Lexer::new(String::from("a\u{e9}b"));
    assert_eq!(lexer.next_char(), 'a');
    assert_eq!(lexer.next_char(), '\u{e9}');
    assert_eq!(lexer.current, 2);
    assert_eq!(lexer.next_char(), 'b');
    assert_eq!(lexer.current, 3);
}

#[test]
fn can_lex_accepts_blanks_punctuation_letters_and_digits_only() {
    assert!(can_lex(""));
    assert!(can_lex("let x { 1 + 2 }\r\n\t"));
    assert!(!can_lex("x = 1"));
    assert!(!can_lex("a;"));
    assert!(!can_lex("a_b"));
    assert!(!can_lex("-1"));
    assert!(!can_lex("caf\u{e9}"));
    assert!(!can_lex("a\u{b}b"));
}

#[test]
fn word_characters_are_ascii_letters_and_digits() {
    for code in 0u32..0x300 {
        let c = char::from_u32(code).unwrap();
        assert_eq!(is_word_char(c), c.is_ascii_alphanumeric(), "U+{:04X}", code);
    }
}

#[test]
fn parse_i32_agrees_with_std() {
    let samples = ["0", "-0", "+0", "1", "-1", "+1", "", "+", "-", "--1", "+-1", "12a", "2147483647",
        "2147483648", "-2147483648", "-2147483649", "99999999999999999999999", "00000000000012"];
    for sample in samples {
        assert_eq!(parse_i32(sample), sample.parse::<i32>().ok(), "{}", sample);
    }
}

#[test]
fn node_without_children() {
    let node = Node::new(NodeType::File, String::from("f"), 1, 2);
    assert_eq!(node.node_type, NodeType::File);
    assert!(node.nodes.is_empty());
    assert_eq!(node.string, "f");
    assert_eq!(node.start, 1);
    assert_eq!(node.end, 2);
}

#[test]
fn tokens_become_leaves() {
    let literal = Node::create_from(token(TokenType::IntLiteral, "12", 3, 5));
    assert_eq!(literal, Node::new(NodeType::IntLiteral, String::from("12"), 3, 5));
    let identifier = Node::create_from(token(TokenType::Identifier, "x", 0, 1));
    assert_eq!(identifier, Node::new(NodeType::IntLiteral, String::from("x"), 0, 1));
    let plus = Node::create_from(token(TokenType::Plus, "+", 6, 7));
    assert_eq!(plus, Node::new(NodeType::Plus, String::from("+"), 6, 7));
}

#[test]
fn only_literals_identifiers_and_plus_become_leaves() {
    assert!(Node::can_create_from(TokenType::IntLiteral));
    assert!(Node::can_create_from(TokenType::Identifier));
    assert!(Node::can_create_from(TokenType::Plus));
    assert!(!Node::can_create_from(TokenType::Let));
    assert!(!Node::can_create_from(TokenType::LeftBrace));
    assert!(!Node::can_create_from(TokenType::RightBrace));
}

#[test]
fn new_parser_has_an_empty_file_root() {
    let parser = Parser::new(lex("1 + 2"));
    assert_eq!(parser.tokens.len(), 3);
    assert_eq!(parser.root, Node::new(NodeType::File, String::new(), 0, 0));
}

#[test]
fn parse_reads_three_tokens_from_the_end() {
    let mut parser = Parser::new(lex("let 1 + 22"));
    assert!(parser.can_parse());
    assert_eq!(parser.parse(), Ok(()));
    assert_eq!(parser.tokens, vec![token(TokenType::Let, "let", 0, 3)]);
    assert_eq!(parser.root.nodes.len(), 1);
    let expression = &parser.root.nodes[0];
    assert_eq!(expression.node_type, NodeType::BinaryExpression);
    assert_eq!(expression.string, "");
    assert_eq!(expression.start, 8);
    assert_eq!(expression.end, 5);
    assert_eq!(
        expression.nodes,
        vec![
            Node::new(NodeType::IntLiteral, String::from("22"), 8, 10),
            Node::new(NodeType::Plus, String::from("+"), 6, 7),
            Node::new(NodeType::IntLiteral, String::from("1"), 4, 5),
        ]
    );
    assert!(!parser.can_parse());
}

#[test]
fn parse_twice_hangs_two_expressions_under_the_root() {
    let mut parser = Parser::new(lex("a + b c + d"));
    assert_eq!(parser.parse(), Ok(()));
    assert!(parser.can_parse());
    assert_eq!(parser.parse(), Ok(()));
    assert!(parser.tokens.is_empty());
    assert_eq!(parser.root.nodes.len(), 2);
    assert_eq!(parser.root.nodes[0].nodes[0].string, "d");
    assert_eq!(parser.root.nodes[1].nodes[0].string, "b");
    assert_eq!(parser.root.node_type, NodeType::File);
}

#[test]
fn can_parse_wants_three_tokens_that_become_leaves() {
    assert!(!Parser::new(lex("")).can_parse());
    assert!(!Parser::new(lex("1 +")).can_parse());
    assert!(Parser::new(lex("+ + +")).can_parse());
    assert!(!Parser::new(lex("1 + let")).can_parse());
    assert!(!Parser::new(lex("{ + 2")).can_parse());
    assert!(!Parser::new(lex("1 } 2")).can_parse());
    assert!(Parser::new(lex("{ 1 + 2")).can_parse());
}
