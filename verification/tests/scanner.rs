use tree_walk_rs::errors::format_err;
use tree_walk_rs::scanner::{get_keywords, is_alpha, is_alpha_numeric, is_digit, keyword, ScanError, Scanner};
use tree_walk_rs::text::{chars_of, push_decimal, slice_text};
use tree_walk_rs::token::{Token, TokenType};

fn kinds(source: &str) -> Vec<TokenType> {
    Scanner::new(source.to_string()).scan_tokens().tokens.iter().map(|t| t.typ).collect()
}

#[test]
fn empty_source_is_only_the_end() {
    let results = Scanner::new(String::new()).scan_tokens();
    assert_eq!(results.tokens.len(), 1);
    assert_eq!(results.tokens[0].typ, TokenType::Eof);
    assert_eq!(results.tokens[0].lexeme, "");
    assert_eq!(results.tokens[0].line, 1);
    assert_eq!(results.tokens[0].id, 0);
    assert_eq!(results.next_id, 1);
    assert!(results.errors.is_empty());
}

#[test]
fn single_character_tokens() {
    assert_eq!(
        kinds("(){},.-+;*/"),
        vec![
            TokenType::LeftParen,
            TokenType::RightParen,
            TokenType::LeftBrace,
            TokenType::RightBrace,
            TokenType::Comma,
            TokenType::Dot,
            TokenType::Minus,
            TokenType::Plus,
            TokenType::SemiColon,
            TokenType::Star,
            TokenType::Slash,
            TokenType::Eof,
        ]
    );
}

#[test]
fn one_or_two_character_tokens() {
    assert_eq!(
        kinds("! != = == < <= > >="),
        vec![
            TokenType::Bang,
            TokenType::BangEqual,
            TokenType::Equal,
            TokenType::EqualEqual,
            TokenType::Less,
            TokenType::LessEqual,
            TokenType::Greater,
            TokenType::GreaterEqual,
            TokenType::Eof,
        ]
    );
}

#[test]
fn every_keyword_is_recognized() {
    let source = "and class else false for fun if nil or print return super this true var while";
    assert_eq!(
        kinds(source),
        vec![
            TokenType::And,
            TokenType::Class,
            TokenType::Else,
            TokenType::False,
            TokenType::For,
            TokenType::Fun,
            TokenType::If,
            TokenType::Nil,
            TokenType::Or,
            TokenType::Print,
            TokenType::Return,
            TokenType::Super,
            TokenType::This,
            TokenType::True,
            TokenType::Var,
            TokenType::While,
            TokenType::Eof,
        ]
    );
}

#[test]
fn keyword_table_has_the_sixteen_words() {
    let table = get_keywords();
    assert_eq!(table.len(), 16);
    assert_eq!(table[0], ("and", TokenType::And));
    assert_eq!(table[15], ("while", TokenType::While));
    assert_eq!(keyword("class"), Some(TokenType::Class));
    assert_eq!(keyword("classy"), None);
    assert_eq!(keyword("Class"), None);
    assert_eq!(keyword(""), None);
}

#[test]
fn identifiers_run_over_letters_digits_and_underscores() {
    let results = Scanner::new("_a1 b_2 orchid".to_string()).scan_tokens();
    let lexemes: Vec<&str> = results.tokens.iter().map(|t| t.lexeme.as_str()).collect();
    assert_eq!(lexemes, vec!["_a1", "b_2", "orchid", ""]);
    assert_eq!(results.tokens[0].typ, TokenType::Identifier);
    assert_eq!(results.tokens[2].typ, TokenType::Identifier);
}

#[test]
fn letters_beyond_ascii_make_identifiers() {
    let results = Scanner::new("var père = 1;".to_string()).scan_tokens();
    assert!(results.errors.is_empty());
    assert_eq!(results.tokens[1].typ, TokenType::Identifier);
    assert_eq!(results.tokens[1].lexeme, "père");
    assert_eq!(results.tokens.len(), 6);
}

#[test]
fn character_classes() {
    assert!(is_alpha('a'));
    assert!(is_alpha('Z'));
    assert!(is_alpha('_'));
    assert!(is_alpha('é'));
    assert!(!is_alpha('1'));
    assert!(!is_alpha(' '));
    assert!(is_alpha_numeric('7'));
    assert!(is_alpha_numeric('x'));
    assert!(!is_alpha_numeric('-'));
    assert!(is_digit('0'));
    assert!(is_digit('9'));
    assert!(!is_digit('a'));
    assert!(!is_digit('٣'));
}

#[test]
fn number_literals_keep_their_text() {
    for literal in ["0", "7", "123", "3.14", "0.5", "100.001", "00012"] {
        let results = Scanner::new(literal.to_string()).scan_tokens();
        assert!(results.errors.is_empty());
        assert_eq!(results.tokens.len(), 2);
        assert_eq!(results.tokens[0].typ, TokenType::Number);
        assert_eq!(results.tokens[0].lexeme, literal);
        assert_eq!(results.tokens[0].to_string(), literal);
        assert_eq!(results.tokens[1].typ, TokenType::Eof);
    }
}

#[test]
fn a_dot_without_digits_is_not_part_of_a_number() {
    let results = Scanner::new("12.foo 3. .5".to_string()).scan_tokens();
    let found: Vec<(TokenType, &str)> =
        results.tokens.iter().map(|t| (t.typ, t.lexeme.as_str())).collect();
    assert_eq!(
        found,
        vec![
            (TokenType::Number, "12"),
            (TokenType::Dot, "."),
            (TokenType::Identifier, "foo"),
            (TokenType::Number, "3"),
            (TokenType::Dot, "."),
            (TokenType::Dot, "."),
            (TokenType::Number, "5"),
            (TokenType::Eof, ""),
        ]
    );
}

#[test]
fn strings_keep_their_quotes_in_the_lexeme() {
    let results = Scanner::new("\"hi there\"".to_string()).scan_tokens();
    assert_eq!(results.tokens[0].typ, TokenType::String);
    assert_eq!(results.tokens[0].lexeme, "\"hi there\"");
    assert_eq!(results.tokens[0].contents(), "hi there");
}

#[test]
fn strings_may_span_lines() {
    let results = Scanner::new("\"a\nb\nc\" x".to_string()).scan_tokens();
    assert!(results.errors.is_empty());
    assert_eq!(results.tokens[0].typ, TokenType::String);
    assert_eq!(results.tokens[0].line, 3);
    assert_eq!(results.tokens[1].lexeme, "x");
    assert_eq!(results.tokens[1].line, 3);
}

#[test]
fn unterminated_string_is_an_error() {
    let results = Scanner::new("var a = \"abc\ndef".to_string()).scan_tokens();
    assert_eq!(results.errors.len(), 1);
    assert_eq!(results.errors[0], ScanError::new(2, "Unterminated String".to_string(), None));
    assert_eq!(results.errors[0].to_string(), "[line 2] Error: Unterminated String");
    let found: Vec<TokenType> = results.tokens.iter().map(|t| t.typ).collect();
    assert_eq!(
        found,
        vec![TokenType::Var, TokenType::Identifier, TokenType::Equal, TokenType::Eof]
    );
}

#[test]
fn scanning_goes_on_after_an_unexpected_character() {
    let results = Scanner::new("a @ b\n# c".to_string()).scan_tokens();
    assert_eq!(results.errors.len(), 2);
    assert_eq!(results.errors[0].line, 1);
    assert_eq!(results.errors[0].message, "Unexpected Character");
    assert_eq!(results.errors[0].pos, None);
    assert_eq!(results.errors[1].line, 2);
    let lexemes: Vec<&str> = results.tokens.iter().map(|t| t.lexeme.as_str()).collect();
    assert_eq!(lexemes, vec!["a", "b", "c", ""]);
}

#[test]
fn comments_run_to_the_end_of_the_line() {
    let results = Scanner::new("a // b c\nd // e".to_string()).scan_tokens();
    let found: Vec<(&str, usize)> =
        results.tokens.iter().map(|t| (t.lexeme.as_str(), t.line)).collect();
    assert_eq!(found, vec![("a", 1), ("d", 2), ("", 2)]);
}

#[test]
fn lines_count_from_one() {
    let results = Scanner::new("a\n\nb\r\n c\t".to_string()).scan_tokens();
    let lines: Vec<usize> = results.tokens.iter().map(|t| t.line).collect();
    assert_eq!(lines, vec![1, 3, 4, 4]);
}

#[test]
fn tokens_get_identities_in_order() {
    let results = Scanner::new("a a a".to_string()).scan_tokens();
    let ids: Vec<u64> = results.tokens.iter().map(|t| t.id).collect();
    assert_eq!(ids, vec![0, 1, 2, 3]);
    assert_eq!(results.next_id, 4);
    let later = Scanner::starting_at("a a".to_string(), results.next_id).scan_tokens();
    let ids: Vec<u64> = later.tokens.iter().map(|t| t.id).collect();
    assert_eq!(ids, vec![4, 5, 6]);
    assert_eq!(later.next_id, 7);
}

#[test]
fn identities_start_over_after_the_largest() {
    let results = Scanner::starting_at("a b".to_string(), u64::MAX).scan_tokens();
    let ids: Vec<u64> = results.tokens.iter().map(|t| t.id).collect();
    assert_eq!(ids, vec![u64::MAX, 0, 1]);
    assert_eq!(results.next_id, 2);
}

#[test]
fn tokens_are_made_as_given() {
    let token = Token::new(9, TokenType::Identifier, "name".to_string(), 4);
    assert_eq!(token.id, 9);
    assert_eq!(token.typ, TokenType::Identifier);
    assert_eq!(token.lexeme, "name");
    assert_eq!(token.line, 4);
    assert_eq!(token.clone(), token);
    assert_eq!(token.to_string(), "name");
    assert_eq!(TokenType::SemiColon.name(), "SemiColon");
    assert_eq!(Token::new(0, TokenType::String, "\"".to_string(), 1).contents(), "");
    assert_eq!(Token::new(0, TokenType::String, "\"\"".to_string(), 1).contents(), "");
    assert_eq!(Token::new(0, TokenType::String, "\"é\"".to_string(), 1).contents(), "é");
}

#[test]
fn diagnostics_have_one_format() {
    assert_eq!(format_err(3, "", "Unexpected Character"), "[line 3] Error: Unexpected Character");
    assert_eq!(format_err(12, " at end", "Expect ';'"), "[line 12] Error at end: Expect ';'");
    assert_eq!(format_err(0, " at 'x'", "m"), "[line 0] Error at 'x': m");
    assert_eq!(
        ScanError::new(7, "Unexpected Character".to_string(), Some(15)).to_string(),
        "[line 7] Error 15: Unexpected Character"
    );
}

#[test]
fn numerals_and_slices_of_text() {
    let mut text = String::from("n=");
    push_decimal(&mut text, 0);
    push_decimal(&mut text, 9);
    push_decimal(&mut text, 10);
    push_decimal(&mut text, 255);
    push_decimal(&mut text, 1234567890);
    assert_eq!(text, "n=09102551234567890");
    let chars = chars_of("héllo");
    assert_eq!(chars, vec!['h', 'é', 'l', 'l', 'o']);
    assert_eq!(slice_text(&chars, 1, 4), "éll");
    assert_eq!(slice_text(&chars, 2, 2), "");
    assert_eq!(slice_text(&chars, 0, 5), "héllo");
}
