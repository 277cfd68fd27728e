use rcc::chars::{blank, digit, ident_char, ident_start, CharClass};
use rcc::cursor::CharCursor;
use rcc::token::{LexError, LexErrorKind};

#[test]
fn cursor_starts_on_line_one() {
    let c = CharCursor::new("ab");
    assert_eq!(c.line(), 1);
    assert_eq!(c.peek_get(), Some('a'));
}

#[test]
fn peek_does_not_consume() {
    let c = CharCursor::new("xy");
    assert_eq!(c.peek_get(), Some('x'));
    assert_eq!(c.peek_get(), Some('x'));
    assert!(c.peek_char_is('x'));
    assert!(!c.peek_char_is('y'));
    assert!(c.peek_next_char_is('y'));
    assert!(!c.peek_next_char_is('x'));
}

#[test]
fn next_consumes_in_order() {
    let mut c = CharCursor::new("xy");
    assert_eq!(c.peek_next(), Ok('x'));
    assert_eq!(c.peek_next(), Ok('y'));
    assert_eq!(c.peek_get(), None);
    assert_eq!(
        c.peek_next(),
        Err(LexError { kind: LexErrorKind::UnexpectedEndOfInput, line: 1 })
    );
}

#[test]
fn lookahead_at_the_end_is_false() {
    let mut c = CharCursor::new("a");
    assert!(!c.peek_next_char_is('a'));
    let _ = c.peek_next();
    assert!(!c.peek_char_is('a'));
    assert!(!c.peek_in(CharClass::NotNewline));
}

#[test]
fn line_feeds_advance_the_line() {
    let mut c = CharCursor::new("a\n\nb");
    assert_eq!(c.line(), 1);
    let _ = c.peek_next();
    assert_eq!(c.line(), 1);
    let _ = c.peek_next();
    assert_eq!(c.line(), 2);
    let _ = c.peek_next();
    assert_eq!(c.line(), 3);
    let _ = c.peek_next();
    assert_eq!(c.line(), 3);
}

#[test]
fn pushback_restores_the_character_and_the_line() {
    let mut c = CharCursor::new("a\nb");
    assert_eq!(c.peek_next(), Ok('a'));
    assert_eq!(c.peek_next(), Ok('\n'));
    assert_eq!(c.line(), 2);
    c.peek_unget('\n');
    assert_eq!(c.line(), 1);
    assert_eq!(c.peek_get(), Some('\n'));
    c.peek_unget('a');
    assert_eq!(c.peek_get(), Some('a'));
    assert_eq!(c.peek_next(), Ok('a'));
}

#[test]
fn multibyte_characters_are_single_characters() {
    let mut c = CharCursor::new("\u{4e2d}x");
    assert_eq!(c.peek_next(), Ok('\u{4e2d}'));
    assert_eq!(c.peek_next(), Ok('x'));
}

#[test]
fn character_classes() {
    assert!(ident_start('a') && ident_start('Z') && ident_start('_'));
    assert!(!ident_start('0') && !ident_start('-') && !ident_start('\u{e9}'));
    assert!(ident_char('0') && ident_char('z') && ident_char('_'));
    assert!(!ident_char('.') && !ident_char(' '));
    assert!(digit('0') && digit('9') && !digit('a') && !digit('/'));
    assert!(blank(' ') && blank('\t') && !blank('\n') && !blank('a'));
    assert!(CharClass::Ident.contains('q') && !CharClass::Ident.contains('+'));
    assert!(CharClass::Number.contains('.') && CharClass::Number.contains('5'));
    assert!(!CharClass::Number.contains('e'));
    assert!(CharClass::NotNewline.contains('x') && !CharClass::NotNewline.contains('\n'));
    assert!(CharClass::NotCloseAngle.contains('<') && !CharClass::NotCloseAngle.contains('>'));
}
