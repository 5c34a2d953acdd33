use avbcc_lexer::lexer::{Lexer, LexerErr};
use avbcc_lexer::tokens::{Coordinate, Direction, Span, TokenType};

#[test]
fn coordinate_zero() {
    let c = Coordinate::zero();
    assert_eq!(c, Coordinate { line: 0, col: 0 });
}

#[test]
fn coordinate_relative_updates() {
    let mut c = Coordinate { line: 5, col: 7 };
    c.update_line_rel(Direction::Right, 3);
    assert_eq!(c, Coordinate { line: 8, col: 7 });
    c.update_line_rel(Direction::Left, 2);
    assert_eq!(c, Coordinate { line: 6, col: 7 });
    c.update_col_rel(Direction::Right, 10);
    assert_eq!(c, Coordinate { line: 6, col: 17 });
    c.update_col_rel(Direction::Left, 17);
    assert_eq!(c, Coordinate { line: 6, col: 0 });
}

#[test]
fn coordinate_absolute_updates() {
    let mut c = Coordinate::zero();
    c.update_line_abs(12);
    c.update_col_abs(34);
    assert_eq!(c, Coordinate { line: 12, col: 34 });
}

#[test]
fn coordinate_ordering_is_lexicographic() {
    let a = Coordinate { line: 1, col: 9 };
    let b = Coordinate { line: 2, col: 0 };
    let c = Coordinate { line: 2, col: 1 };
    assert!(a < b && b < c);
}

#[test]
fn span_from_coord() {
    let start = Coordinate { line: 3, col: 4 };
    let sp = Span::from_coord(start, 0, 5);
    assert_eq!(sp.start, start);
    assert_eq!(sp.end, Coordinate { line: 3, col: 9 });
    let sp = Span::from_coord(start, 2, 1);
    assert_eq!(sp.end, Coordinate { line: 5, col: 5 });
}

#[test]
fn coordinate_render_format() {
    let c = Coordinate { line: 3, col: 17 };
    assert_eq!(c.render(), "3:17");
    assert_eq!(Coordinate::zero().render(), "0:0");
    let c = Coordinate { line: 120, col: 0 };
    assert_eq!(c.render(), "120:0");
}

#[test]
fn span_render_same_line() {
    let sp = Span {
        start: Coordinate { line: 1, col: 2 },
        end: Coordinate { line: 1, col: 8 },
    };
    assert_eq!(sp.render(), "1:2-8");
}

#[test]
fn span_render_cross_line() {
    let sp = Span {
        start: Coordinate { line: 1, col: 2 },
        end: Coordinate { line: 3, col: 4 },
    };
    assert_eq!(sp.render(), "1:2-3:4");
}

#[test]
fn unrecognized_error_message() {
    let mut lx = Lexer::new(String::from("int x #;"));
    let _ = lx.next_token();
    let _ = lx.next_token();
    match lx.next_token() {
        Err(e @ LexerErr::UnrecognizedToken { .. }) => {
            assert_eq!(e.render(), "0:6-7 - encountered unknown token `#`");
        }
        other => panic!("expected an unrecognized token, got {:?}", other),
    }
}

#[test]
fn unterminated_error_message() {
    let mut lx = Lexer::new(String::from("\"ab"));
    match lx.next_token() {
        Err(e @ LexerErr::UnterminatedLiteral { .. }) => {
            assert_eq!(e.render(), "0:0-3 - unterminated literal");
        }
        other => panic!("expected an unterminated literal, got {:?}", other),
    }
}

#[test]
fn invalid_char_error_message() {
    let mut lx = Lexer::new(String::from("'xy'"));
    match lx.next_token() {
        Err(e @ LexerErr::InvalidCharLiteral { .. }) => {
            assert_eq!(e.render(), "0:0-4 - invalid character literal");
        }
        other => panic!("expected an invalid char literal, got {:?}", other),
    }
}

#[test]
fn token_type_render() {
    assert_eq!(TokenType::KWInt.render(), "int");
    assert_eq!(TokenType::DblPlus.render(), "++");
    assert_eq!(TokenType::DblDash.render(), "--");
    assert_eq!(TokenType::KWBool.render(), "_Bool");
    assert_eq!(TokenType::Ident(String::from("foo")).render(), "foo");
    assert_eq!(TokenType::Constant(String::from("42")).render(), "42");
    assert_eq!(TokenType::LeftBrace.render(), "{");
    assert_eq!(TokenType::DblRightCarat.render(), ">>");
}
