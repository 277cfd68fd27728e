use rcc::lexer::Lexer;
use rcc::token::{LexError, LexErrorKind, Token, TokenKind};

fn lexer_on(src: &str) -> Lexer {
    Lexer::new("test.c".to_string(), src)
}

/// Every visible token of `src`, read with `read_token`.
fn visible_tokens(src: &str) -> Vec<Token> {
    let mut lexer = lexer_on(src);
    let mut out = Vec::new();
    loop {
        match lexer.read_token() {
            Ok(Some(t)) => out.push(t),
            Ok(None) => return out,
            Err(e) => panic!("unexpected error {:?}", e),
        }
    }
}

fn spellings(tokens: &Vec<Token>) -> Vec<(TokenKind, String)> {
    tokens.iter().map(|t| (t.kind, t.val.clone())).collect()
}

fn pair(kind: TokenKind, text: &str) -> (TokenKind, String) {
    (kind, text.to_string())
}

fn first_error(src: &str) -> LexError {
    let mut lexer = lexer_on(src);
    loop {
        match lexer.read_token() {
            Ok(Some(_)) => {}
            Ok(None) => panic!("no error in {:?}", src),
            Err(e) => return e,
        }
    }
}

#[test]
fn token_new_has_no_leading_space() {
    let t = Token::new(TokenKind::Symbol, "+=", 7);
    assert_eq!(t.kind, TokenKind::Symbol);
    assert_eq!(t.val, "+=");
    assert_eq!(t.line, 7);
    assert!(!t.space);
}

#[test]
fn filename_is_kept() {
    let lexer = Lexer::new("dir/main.c".to_string(), "int x;");
    assert_eq!(lexer.get_filename(), "dir/main.c");
}

#[test]
fn identifier_is_read_to_its_end() {
    let mut lexer = lexer_on("abc_1+");
    let t = lexer.read_identifier();
    assert_eq!(t.kind, TokenKind::Identifier);
    assert_eq!(t.val, "abc_1");
    assert_eq!(t.line, 1);
    assert!(!t.space);
    let next = lexer.read_symbol().unwrap();
    assert_eq!(next.val, "+");
}

#[test]
fn identifier_may_hold_digits_but_not_start_with_one() {
    let toks = visible_tokens("x9 9x");
    assert_eq!(
        spellings(&toks),
        vec![
            pair(TokenKind::Identifier, "x9"),
            pair(TokenKind::IntNumber, "9"),
            pair(TokenKind::Identifier, "x"),
        ]
    );
}

#[test]
fn compound_assignment_is_one_symbol() {
    let toks = visible_tokens("a+=1");
    assert_eq!(
        spellings(&toks),
        vec![
            pair(TokenKind::Identifier, "a"),
            pair(TokenKind::Symbol, "+="),
            pair(TokenKind::IntNumber, "1"),
        ]
    );
}

#[test]
fn lines_are_counted_from_one() {
    let toks = visible_tokens("x\ny");
    assert_eq!(toks.len(), 2);
    assert_eq!(toks[0].val, "x");
    assert_eq!(toks[0].line, 1);
    assert_eq!(toks[1].val, "y");
    assert_eq!(toks[1].line, 2);
}

#[test]
fn first_token_of_each_line_reports_its_line() {
    let toks = visible_tokens("a b\n\n  c\nd /* x\n y */ e\nf");
    let lines: Vec<(String, i32)> = toks.iter().map(|t| (t.val.clone(), t.line)).collect();
    assert_eq!(
        lines,
        vec![
            ("a".to_string(), 1),
            ("b".to_string(), 1),
            ("c".to_string(), 3),
            ("d".to_string(), 4),
            ("e".to_string(), 5),
            ("f".to_string(), 6),
        ]
    );
}

#[test]
fn leading_space_is_recorded() {
    let toks = visible_tokens("a  b");
    assert_eq!(toks.len(), 2);
    assert_eq!(toks[0].val, "a");
    assert!(!toks[0].space);
    assert_eq!(toks[1].val, "b");
    assert!(toks[1].space);
}

#[test]
fn tab_counts_as_leading_space() {
    let toks = visible_tokens("a\tb;c");
    assert!(toks[1].space);
    assert!(!toks[2].space);
    assert!(!toks[3].space);
}

#[test]
fn block_comment_is_elided_and_its_lines_counted() {
    let toks = visible_tokens("a/*x\ny*/b");
    assert_eq!(
        spellings(&toks),
        vec![pair(TokenKind::Identifier, "a"), pair(TokenKind::Identifier, "b")]
    );
    assert_eq!(toks[0].line, 1);
    assert_eq!(toks[1].line, 2);
    assert!(!toks[1].space);
}

#[test]
fn block_comment_ends_at_the_first_close() {
    let toks = visible_tokens("/* a */ b */");
    assert_eq!(
        spellings(&toks),
        vec![
            pair(TokenKind::Identifier, "b"),
            pair(TokenKind::Symbol, "*"),
            pair(TokenKind::Symbol, "/"),
        ]
    );
}

#[test]
fn slash_star_slash_does_not_close_itself() {
    let e = first_error("/*/ a");
    assert_eq!(e.kind, LexErrorKind::UnterminatedComment);
}

#[test]
fn line_comment_runs_to_the_line_feed() {
    let toks = visible_tokens("a // b c\nd");
    assert_eq!(
        spellings(&toks),
        vec![pair(TokenKind::Identifier, "a"), pair(TokenKind::Identifier, "d")]
    );
    assert_eq!(toks[1].line, 2);
}

#[test]
fn line_comment_without_line_feed_is_an_error() {
    let e = first_error("a // b");
    assert_eq!(e, LexError { kind: LexErrorKind::UnexpectedEndOfInput, line: 1 });
}

#[test]
fn line_continuation_yields_no_token() {
    let toks = visible_tokens("a\\\nb");
    assert_eq!(
        spellings(&toks),
        vec![pair(TokenKind::Identifier, "a"), pair(TokenKind::Identifier, "b")]
    );
    assert_eq!(toks[0].line, 1);
    assert_eq!(toks[1].line, 2);
}

#[test]
fn line_continuation_hides_the_line_feed_from_the_raw_scanner() {
    let mut lexer = lexer_on("a\\\nb\nc");
    let a = lexer.do_read_token().unwrap().unwrap();
    let b = lexer.do_read_token().unwrap().unwrap();
    let nl = lexer.do_read_token().unwrap().unwrap();
    let c = lexer.do_read_token().unwrap().unwrap();
    assert_eq!(a.val, "a");
    assert_eq!(b.val, "b");
    assert_eq!(b.line, 2);
    assert_eq!(nl.kind, TokenKind::Newline);
    assert_eq!(nl.val, "");
    assert_eq!(nl.line, 2);
    assert_eq!(c.val, "c");
    assert_eq!(c.line, 3);
    assert_eq!(lexer.do_read_token(), Ok(None));
}

#[test]
fn backslash_elsewhere_is_a_symbol() {
    let toks = visible_tokens("a\\b");
    assert_eq!(
        spellings(&toks),
        vec![
            pair(TokenKind::Identifier, "a"),
            pair(TokenKind::Symbol, "\\"),
            pair(TokenKind::Identifier, "b"),
        ]
    );
}

#[test]
fn shift_assign_is_one_symbol() {
    let toks = visible_tokens("<<=");
    assert_eq!(spellings(&toks), vec![pair(TokenKind::Symbol, "<<=")]);
}

#[test]
fn shift_then_fresh_token() {
    let toks = visible_tokens("<<a");
    assert_eq!(
        spellings(&toks),
        vec![pair(TokenKind::Symbol, "<<"), pair(TokenKind::Identifier, "a")]
    );
}

#[test]
fn ellipsis_is_one_symbol() {
    let toks = visible_tokens("...");
    assert_eq!(spellings(&toks), vec![pair(TokenKind::Symbol, "...")]);
}

#[test]
fn two_dots_are_two_symbols() {
    let toks = visible_tokens("..");
    assert_eq!(
        spellings(&toks),
        vec![pair(TokenKind::Symbol, "."), pair(TokenKind::Symbol, ".")]
    );
}

#[test]
fn four_dots_are_an_ellipsis_and_a_dot() {
    let toks = visible_tokens("....");
    assert_eq!(
        spellings(&toks),
        vec![pair(TokenKind::Symbol, "..."), pair(TokenKind::Symbol, ".")]
    );
}

#[test]
fn operators_munch_maximally() {
    let toks = visible_tokens("a<=b>>=c&&d||e!=f==g->h|=i&j^=k%l<m>n");
    let syms: Vec<String> = toks
        .iter()
        .filter(|t| t.kind == TokenKind::Symbol)
        .map(|t| t.val.clone())
        .collect();
    assert_eq!(
        syms,
        vec!["<=", ">>=", "&&", "||", "!=", "==", "-", ">", "|=", "&", "^=", "%", "<", ">"]
    );
}

#[test]
fn other_characters_are_single_symbols() {
    let toks = visible_tokens("(){};,#?:~[]");
    let syms: Vec<String> = toks.iter().map(|t| t.val.clone()).collect();
    assert_eq!(syms, vec!["(", ")", "{", "}", ";", ",", "#", "?", ":", "~", "[", "]"]);
    assert!(toks.iter().all(|t| t.kind == TokenKind::Symbol));
}

#[test]
fn symbol_at_the_end_of_input_is_read() {
    let toks = visible_tokens("a+");
    assert_eq!(
        spellings(&toks),
        vec![pair(TokenKind::Identifier, "a"), pair(TokenKind::Symbol, "+")]
    );
}

#[test]
fn read_symbol_at_end_is_an_error() {
    let mut lexer = lexer_on("");
    assert_eq!(
        lexer.read_symbol(),
        Err(LexError { kind: LexErrorKind::UnexpectedEndOfInput, line: 1 })
    );
}

#[test]
fn integer_and_float_literals() {
    let toks = visible_tokens("12 3.5 1.2.3 7.");
    assert_eq!(
        spellings(&toks),
        vec![
            pair(TokenKind::IntNumber, "12"),
            pair(TokenKind::FloatNumber, "3.5"),
            pair(TokenKind::FloatNumber, "1.2.3"),
            pair(TokenKind::FloatNumber, "7."),
        ]
    );
}

#[test]
fn number_literal_is_read_on_its_own() {
    let mut lexer = lexer_on("42;");
    let t = lexer.read_number_literal();
    assert_eq!(t.kind, TokenKind::IntNumber);
    assert_eq!(t.val, "42");
    let mut lexer = lexer_on("4.2;");
    let t = lexer.read_number_literal();
    assert_eq!(t.kind, TokenKind::FloatNumber);
    assert_eq!(t.val, "4.2");
}

#[test]
fn string_literal_text_is_between_the_quotes() {
    let toks = visible_tokens("x = \"a b+c\";");
    assert_eq!(
        spellings(&toks),
        vec![
            pair(TokenKind::Identifier, "x"),
            pair(TokenKind::Symbol, "="),
            pair(TokenKind::String, "a b+c"),
            pair(TokenKind::Symbol, ";"),
        ]
    );
    assert!(toks[2].space);
}

#[test]
fn escaped_quote_does_not_close_a_string() {
    let toks = visible_tokens("\"a\\\"b\" c");
    assert_eq!(
        spellings(&toks),
        vec![pair(TokenKind::String, "a\\\"b"), pair(TokenKind::Identifier, "c")]
    );
}

#[test]
fn escaped_backslash_does_not_escape_the_quote() {
    let toks = visible_tokens("\"a\\\\\"b");
    assert_eq!(
        spellings(&toks),
        vec![pair(TokenKind::String, "a\\\\"), pair(TokenKind::Identifier, "b")]
    );
}

#[test]
fn char_literal_text_is_between_the_quotes() {
    let toks = visible_tokens("'a' '\\'' '\\n'");
    assert_eq!(
        spellings(&toks),
        vec![
            pair(TokenKind::Char, "a"),
            pair(TokenKind::Char, "\\'"),
            pair(TokenKind::Char, "\\n"),
        ]
    );
}

#[test]
fn string_literal_reports_the_line_it_starts_on() {
    let toks = visible_tokens("\n\"a\nb\" c");
    assert_eq!(toks[0].kind, TokenKind::String);
    assert_eq!(toks[0].val, "a\nb");
    assert_eq!(toks[0].line, 2);
    assert_eq!(toks[1].line, 3);
}

#[test]
fn unterminated_string_is_fatal() {
    let mut lexer = lexer_on("\"abc");
    assert_eq!(
        lexer.read_token(),
        Err(LexError { kind: LexErrorKind::UnterminatedLiteral, line: 1 })
    );
}

#[test]
fn unterminated_string_through_get_is_fatal() {
    let mut lexer = lexer_on("x \"abc");
    let mut macros = rcc::macros::MacroTable::new();
    assert!(matches!(lexer.get(&mut macros), Ok(rcc::lexer::Event::Token(_))));
    match lexer.get(&mut macros) {
        Err(e) => assert_eq!(e.kind, LexErrorKind::UnterminatedLiteral),
        Ok(_) => panic!("an unterminated literal was accepted"),
    }
}

#[test]
fn string_ending_in_a_backslash_is_unterminated() {
    let e = first_error("\"abc\\");
    assert_eq!(e.kind, LexErrorKind::UnterminatedLiteral);
}

#[test]
fn unterminated_char_is_fatal() {
    let e = first_error("a\n'b");
    assert_eq!(e, LexError { kind: LexErrorKind::UnterminatedLiteral, line: 2 });
}

#[test]
fn read_string_literal_at_end_is_an_error() {
    let mut lexer = lexer_on("");
    assert_eq!(
        lexer.read_string_literal().map(|t| t.val),
        Err(LexError { kind: LexErrorKind::UnexpectedEndOfInput, line: 1 })
    );
    assert_eq!(
        lexer.read_char_literal().map(|t| t.val),
        Err(LexError { kind: LexErrorKind::UnexpectedEndOfInput, line: 1 })
    );
}

#[test]
fn unterminated_comment_is_fatal() {
    let e = first_error("a /* b\nc");
    assert_eq!(e, LexError { kind: LexErrorKind::UnterminatedComment, line: 2 });
}

#[test]
fn empty_input_has_no_token() {
    let mut lexer = lexer_on("");
    assert_eq!(lexer.do_read_token(), Ok(None));
    assert_eq!(lexer.read_token(), Ok(None));
    let mut lexer = lexer_on(" \t\n \n");
    assert_eq!(lexer.read_token(), Ok(None));
}

#[test]
fn raw_scanner_hands_out_line_feeds() {
    let mut lexer = lexer_on("a\n\nb");
    let kinds: Vec<TokenKind> =
        (0..4).map(|_| lexer.do_read_token().unwrap().unwrap().kind).collect();
    assert_eq!(
        kinds,
        vec![
            TokenKind::Identifier,
            TokenKind::Newline,
            TokenKind::Newline,
            TokenKind::Identifier,
        ]
    );
}

#[test]
fn read_newline_consumes_one_character() {
    let mut lexer = lexer_on("\nx");
    let t = lexer.read_newline().unwrap();
    assert_eq!(t.kind, TokenKind::Newline);
    assert_eq!(t.val, "");
    assert_eq!(t.line, 1);
    assert_eq!(lexer.line(), 2);
    let x = lexer.read_identifier();
    assert_eq!(x.val, "x");
    assert_eq!(x.line, 2);
    assert_eq!(
        lexer.read_newline().map(|t| t.val),
        Err(LexError { kind: LexErrorKind::UnexpectedEndOfInput, line: 2 })
    );
}

#[test]
fn a_blank_before_a_line_feed_marks_nothing_on_the_next_line() {
    let mut lexer = lexer_on("a \nb");
    let a = lexer.read_token().unwrap().unwrap();
    assert_eq!(a, Token { kind: TokenKind::Identifier, space: false, val: "a".into(), line: 1 });
    let b = lexer.read_token().unwrap();
    assert_eq!(
        b,
        Some(Token { kind: TokenKind::Identifier, space: false, val: "b".into(), line: 2 })
    );
    assert_eq!(lexer.read_token(), Ok(None));
}

#[test]
fn a_line_feed_after_a_blank_is_a_raw_token() {
    let mut lexer = lexer_on("1 \nB");
    let one = lexer.do_read_token().unwrap().unwrap();
    let nl = lexer.do_read_token().unwrap().unwrap();
    let b = lexer.do_read_token().unwrap().unwrap();
    assert_eq!(one.val, "1");
    assert_eq!(nl.kind, TokenKind::Newline);
    assert_eq!(nl.line, 1);
    assert_eq!(b, Token { kind: TokenKind::Identifier, space: false, val: "B".into(), line: 2 });
    assert_eq!(lexer.do_read_token(), Ok(None));
}

#[test]
fn a_blank_on_the_same_line_marks_across_a_comment() {
    let toks = visible_tokens("a /* c */b /**/ c/* d */e");
    let marks: Vec<(String, bool)> = toks.iter().map(|t| (t.val.clone(), t.space)).collect();
    assert_eq!(
        marks,
        vec![
            ("a".to_string(), false),
            ("b".to_string(), true),
            ("c".to_string(), true),
            ("e".to_string(), false),
        ]
    );
}

#[test]
fn a_blank_before_a_line_continuation_marks_nothing_on_the_next_line() {
    let toks = visible_tokens("a \\\nb \\\n c");
    let marks: Vec<(String, bool, i32)> =
        toks.iter().map(|t| (t.val.clone(), t.space, t.line)).collect();
    assert_eq!(
        marks,
        vec![
            ("a".to_string(), false, 1),
            ("b".to_string(), false, 2),
            ("c".to_string(), true, 3),
        ]
    );
}

#[test]
fn a_blank_before_a_comment_over_two_lines_marks_nothing_after_it() {
    let toks = visible_tokens("a /* x\n y */b");
    assert_eq!(toks[1].val, "b");
    assert!(!toks[1].space);
    assert_eq!(toks[1].line, 2);
    let toks = visible_tokens("a /* x\n y */ b");
    assert!(toks[1].space);
}

#[test]
fn every_line_feed_is_a_raw_token() {
    let mut lexer = lexer_on(" \n\t\n// c \n/* d */ \nx");
    let mut kinds = Vec::new();
    while let Some(t) = lexer.do_read_token().unwrap() {
        kinds.push((t.kind, t.line));
    }
    assert_eq!(
        kinds,
        vec![
            (TokenKind::Newline, 1),
            (TokenKind::Newline, 2),
            (TokenKind::Newline, 3),
            (TokenKind::Newline, 4),
            (TokenKind::Identifier, 5),
        ]
    );
}

#[test]
fn read_token_skips_line_feeds() {
    let toks = visible_tokens("\n\na\n\n\nb\n");
    assert_eq!(
        spellings(&toks),
        vec![pair(TokenKind::Identifier, "a"), pair(TokenKind::Identifier, "b")]
    );
    assert!(toks.iter().all(|t| t.kind != TokenKind::Newline));
}

#[test]
fn non_ascii_characters_are_symbols() {
    let toks = visible_tokens("a\u{e9}b");
    assert_eq!(
        spellings(&toks),
        vec![
            pair(TokenKind::Identifier, "a"),
            pair(TokenKind::Symbol, "\u{e9}"),
            pair(TokenKind::Identifier, "b"),
        ]
    );
}
