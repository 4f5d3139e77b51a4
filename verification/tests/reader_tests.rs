use cljtrans::ast::AstVal;
use cljtrans::diag::ErrKind;
use cljtrans::reader::{escape_char, is_macro_terminating, read_string_inner, read_token, RawReader};

fn read_one(src: &str) -> AstVal {
    let mut r = RawReader::new(src.to_string());
    r.read().expect("no error").expect("one form")
}

fn read_err(src: &str) -> ErrKind {
    let mut r = RawReader::new(src.to_string());
    loop {
        match r.read() {
            Ok(Some(_)) => continue,
            Ok(None) => panic!("expected an error"),
            Err(e) => return e.kind,
        }
    }
}

#[test]
fn int_atom() {
    match read_one("5") {
        AstVal::AstInt(5) => {}
        v => panic!("unexpected: {:?}", v),
    }
}

#[test]
fn negative_int() {
    match read_one("-42") {
        AstVal::AstInt(-42) => {}
        v => panic!("unexpected: {:?}", v),
    }
}

#[test]
fn int_min_parses() {
    match read_one("-2147483648") {
        AstVal::AstInt(i) => assert_eq!(i, i32::MIN),
        v => panic!("unexpected: {:?}", v),
    }
}

#[test]
fn float_atom_keeps_token() {
    match read_one("1.5") {
        AstVal::AstFloat(t) => assert_eq!(t, "1.5"),
        v => panic!("unexpected: {:?}", v),
    }
}

#[test]
fn float_exponent() {
    match read_one("1e3") {
        AstVal::AstFloat(t) => assert_eq!(t, "1e3"),
        v => panic!("unexpected: {:?}", v),
    }
}

#[test]
fn int_overflow_falls_back_to_float() {
    match read_one("99999999999") {
        AstVal::AstFloat(t) => assert_eq!(t, "99999999999"),
        v => panic!("unexpected: {:?}", v),
    }
}

#[test]
fn malformed_number_is_fatal() {
    assert_eq!(read_err("1.2.3"), ErrKind::BadNumber);
}

#[test]
fn minus_alone_is_symbol() {
    match read_one("- x") {
        AstVal::AstSymbol(s) => assert_eq!(s, "-"),
        v => panic!("unexpected: {:?}", v),
    }
}

#[test]
fn reserved_words() {
    assert!(matches!(read_one("nil"), AstVal::AstNil));
    assert!(matches!(read_one("true"), AstVal::AstBool(true)));
    assert!(matches!(read_one("false"), AstVal::AstBool(false)));
}

#[test]
fn string_with_escapes() {
    match read_one("\"a\\nb\\t\\\"q\\\\\"") {
        AstVal::AstString(s) => assert_eq!(s, "a\nb\t\"q\\"),
        v => panic!("unexpected: {:?}", v),
    }
}

#[test]
fn unterminated_string_is_fatal() {
    assert_eq!(read_err("\"abc"), ErrKind::UnterminatedString);
}

#[test]
fn unknown_escape_is_fatal() {
    assert_eq!(read_err("\"a\\qb\""), ErrKind::UnknownEscape);
}

#[test]
fn keyword_reads_token() {
    match read_one(":a") {
        AstVal::AstKeyword(s) => assert_eq!(s, "a"),
        v => panic!("unexpected: {:?}", v),
    }
}

#[test]
fn keyword_before_whitespace_is_fatal() {
    assert_eq!(read_err(": a"), ErrKind::BadKeyword);
}

#[test]
fn quote_wraps_form() {
    match read_one("'(1 2)") {
        AstVal::AstList(items) => {
            assert_eq!(items.len(), 2);
            match &items[0] {
                AstVal::AstSymbol(s) => assert_eq!(s, "'"),
                v => panic!("unexpected head: {:?}", v),
            }
            match &items[1] {
                AstVal::AstList(inner) => {
                    assert_eq!(inner.len(), 2);
                    assert!(matches!(inner[0], AstVal::AstInt(1)));
                    assert!(matches!(inner[1], AstVal::AstInt(2)));
                }
                v => panic!("unexpected second: {:?}", v),
            }
        }
        v => panic!("unexpected: {:?}", v),
    }
}

#[test]
fn quote_without_form_is_fatal() {
    assert_eq!(read_err("'"), ErrKind::MissingQuotedForm);
}

#[test]
fn comment_is_first_class_inside_list() {
    match read_one("(1 ; note\n 2)") {
        AstVal::AstList(items) => {
            assert_eq!(items.len(), 3);
            assert!(matches!(items[0], AstVal::AstInt(1)));
            match &items[1] {
                AstVal::AstCommentLine(s) => assert_eq!(s, " note"),
                v => panic!("unexpected middle: {:?}", v),
            }
            assert!(matches!(items[2], AstVal::AstInt(2)));
        }
        v => panic!("unexpected: {:?}", v),
    }
}

#[test]
fn end_of_input_yields_no_more_forms() {
    let mut r = RawReader::new(String::new());
    assert!(matches!(r.read(), Ok(None)));
    let mut r2 = RawReader::new("   \t\n".to_string());
    assert!(matches!(r2.read(), Ok(None)));
}

#[test]
fn stray_closing_delimiter_is_fatal() {
    let mut r = RawReader::new(")".to_string());
    let e = r.read().unwrap_err();
    assert_eq!(e.kind, ErrKind::UnmatchedDelimiter);
    assert_eq!(e.pos, 1);
}

#[test]
fn unterminated_collections() {
    assert_eq!(read_err("(1 2"), ErrKind::UnterminatedList);
    assert_eq!(read_err("[1 2"), ErrKind::UnterminatedVector);
    assert_eq!(read_err("{:a 1"), ErrKind::UnterminatedMap);
}

#[test]
fn mismatched_delimiter_is_reported() {
    assert_eq!(read_err("[1)"), ErrKind::UnmatchedDelimiter);
}

#[test]
fn odd_map_arity_is_fatal() {
    assert_eq!(read_err("{:a 1 :b}"), ErrKind::OddMapArity);
}

#[test]
fn map_pairs_in_order() {
    match read_one("{:a 1 :b 2}") {
        AstVal::AstMap(entries) => {
            assert_eq!(entries.len(), 2);
            match &entries[0] {
                (AstVal::AstKeyword(k), AstVal::AstInt(1)) => assert_eq!(k, "a"),
                p => panic!("unexpected first pair: {:?}", p),
            }
            match &entries[1] {
                (AstVal::AstKeyword(k), AstVal::AstInt(2)) => assert_eq!(k, "b"),
                p => panic!("unexpected second pair: {:?}", p),
            }
        }
        v => panic!("unexpected: {:?}", v),
    }
}

#[test]
fn empty_collections_read_as_nil() {
    assert!(matches!(read_one("()"), AstVal::AstNil));
    assert!(matches!(read_one("[]"), AstVal::AstNil));
    assert!(matches!(read_one("{}"), AstVal::AstNil));
}

#[test]
fn meta_map_form() {
    match read_one("^{:a 1} ") {
        AstVal::AstMeta(entries) => assert_eq!(entries.len(), 1),
        v => panic!("unexpected: {:?}", v),
    }
}

#[test]
fn meta_keyword_shorthand() {
    match read_one("^k") {
        AstVal::AstMeta(entries) => {
            assert_eq!(entries.len(), 1);
            match &entries[0] {
                (AstVal::AstKeyword(k), AstVal::AstString(t)) => {
                    assert_eq!(k, "tag");
                    assert_eq!(t, "k");
                }
                p => panic!("unexpected entry: {:?}", p),
            }
        }
        v => panic!("unexpected: {:?}", v),
    }
}

#[test]
fn meta_keyword_marks_true() {
    match read_one("^:k") {
        AstVal::AstMeta(entries) => {
            assert_eq!(entries.len(), 1);
            match &entries[0] {
                (AstVal::AstKeyword(k), AstVal::AstBool(true)) => assert_eq!(k, "k"),
                p => panic!("unexpected entry: {:?}", p),
            }
        }
        v => panic!("unexpected: {:?}", v),
    }
}

#[test]
fn meta_of_number_is_fatal() {
    assert_eq!(read_err("^1"), ErrKind::BadMeta);
}

#[test]
fn two_forms_in_sequence() {
    let mut r = RawReader::new("1 2".to_string());
    assert!(matches!(r.read(), Ok(Some(AstVal::AstInt(1)))));
    assert!(matches!(r.read(), Ok(Some(AstVal::AstInt(2)))));
    assert!(matches!(r.read(), Ok(None)));
}

#[test]
fn unread_prepends_a_character() {
    let mut r = RawReader::new("bc".to_string());
    r.unread_char('a');
    match r.read() {
        Ok(Some(AstVal::AstSymbol(s))) => assert_eq!(s, "abc"),
        v => panic!("unexpected: {:?}", v),
    }
}

#[test]
fn reader_primitives() {
    let mut r = RawReader::new("xy".to_string());
    assert_eq!(r.len(), 2);
    assert_eq!(r.pre_read_next_char(), Some('x'));
    assert_eq!(r.consume_char(), Some('x'));
    assert_eq!(r.consume_char(), Some('y'));
    assert_eq!(r.consume_char(), None);
}

#[test]
fn token_reading() {
    let mut r = RawReader::new("ab cd".to_string());
    assert_eq!(read_token(&mut r), Some("ab".to_string()));
    let mut empty = RawReader::new(String::new());
    assert_eq!(read_token(&mut empty), None);
}

#[test]
fn escape_char_reads_one_escape() {
    let mut r = RawReader::new("\\n rest".to_string());
    assert_eq!(escape_char(&mut r), Ok('\n'));
}

#[test]
fn string_inner_reads_body() {
    let mut r = RawReader::new("\"hi\" tail".to_string());
    assert_eq!(read_string_inner(&mut r), Ok("hi".to_string()));
}

#[test]
fn macro_terminating_set() {
    for c in ['"', ';', '@', '^', '`', '~', '(', ')', '[', ']', '{', '}', '\\'] {
        assert!(is_macro_terminating(c));
    }
    assert!(!is_macro_terminating('a'));
    assert!(!is_macro_terminating('\''));
}

#[test]
fn backtick_is_fatal() {
    assert_eq!(read_err("`x"), ErrKind::BadToken);
}
