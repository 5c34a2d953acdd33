use avbcc_lexer::lexer::{Lexer, LexerErr, LexerResult};
use avbcc_lexer::tokens::{Coordinate, Token, TokenType};

fn kinds_of(text: &str) -> Vec<Result<TokenType, LexerErr>> {
    let mut lx = Lexer::new(String::from(text));
    let mut out = Vec::new();
    loop {
        match lx.next_token() {
            Ok(None) => break,
            Ok(Some(t)) => out.push(Ok(t.ty)),
            Err(e) => out.push(Err(e)),
        }
    }
    out
}

fn tokens_of(text: &str) -> Vec<Token> {
    let mut lx = Lexer::new(String::from(text));
    let mut out = Vec::new();
    loop {
        match lx.next_token() {
            Ok(None) => break,
            Ok(Some(t)) => out.push(t),
            Err(e) => panic!("unexpected error: {:?}", e),
        }
    }
    out
}

#[test]
fn doubled_plus_is_one_token() {
    let ks = kinds_of("++");
    assert_eq!(ks, vec![Ok(TokenType::DblPlus)]);
}

#[test]
fn separated_pluses_are_two_tokens() {
    let ks = kinds_of("+ +");
    assert_eq!(ks, vec![Ok(TokenType::Plus), Ok(TokenType::Plus)]);
}

#[test]
fn all_doubled_operators() {
    let ks = kinds_of("** ++ -- // && || == << >>");
    assert_eq!(
        ks,
        vec![
            Ok(TokenType::DblStar),
            Ok(TokenType::DblPlus),
            Ok(TokenType::DblDash),
            Ok(TokenType::DblSlash),
            Ok(TokenType::DblAmpersand),
            Ok(TokenType::DblPipe),
            Ok(TokenType::DblEquals),
            Ok(TokenType::DblLeftCarat),
            Ok(TokenType::DblRightCarat),
        ]
    );
}

#[test]
fn triple_plus_is_double_then_single() {
    let ks = kinds_of("+++");
    assert_eq!(ks, vec![Ok(TokenType::DblPlus), Ok(TokenType::Plus)]);
}

#[test]
fn keyword_boundary() {
    assert_eq!(kinds_of("int"), vec![Ok(TokenType::KWInt)]);
    assert_eq!(
        kinds_of("integer"),
        vec![Ok(TokenType::Ident(String::from("integer")))]
    );
    assert_eq!(
        kinds_of("int2"),
        vec![Ok(TokenType::Ident(String::from("int2")))]
    );
}

#[test]
fn every_keyword_is_recognized() {
    let text = "unsigned signed char short int long float double _Bool struct enum union \
                static extern typedef void const if else switch case default goto do for \
                while continue break return";
    let ks = kinds_of(text);
    assert_eq!(
        ks,
        vec![
            Ok(TokenType::Unsigned),
            Ok(TokenType::Signed),
            Ok(TokenType::KWChar),
            Ok(TokenType::KWShort),
            Ok(TokenType::KWInt),
            Ok(TokenType::KWLong),
            Ok(TokenType::KWFloat),
            Ok(TokenType::KWDouble),
            Ok(TokenType::KWBool),
            Ok(TokenType::Struct),
            Ok(TokenType::Enum),
            Ok(TokenType::Union),
            Ok(TokenType::Static),
            Ok(TokenType::Extern),
            Ok(TokenType::Typedef),
            Ok(TokenType::Void),
            Ok(TokenType::Const),
            Ok(TokenType::If),
            Ok(TokenType::Else),
            Ok(TokenType::Switch),
            Ok(TokenType::Case),
            Ok(TokenType::Default),
            Ok(TokenType::Goto),
            Ok(TokenType::Do),
            Ok(TokenType::For),
            Ok(TokenType::While),
            Ok(TokenType::Continue),
            Ok(TokenType::Break),
            Ok(TokenType::Return),
        ]
    );
}

#[test]
fn punctuation_and_grouping() {
    let ks = kinds_of(", ; : ! ( ) { } [ ] < >");
    assert_eq!(
        ks,
        vec![
            Ok(TokenType::Comma),
            Ok(TokenType::Semicolon),
            Ok(TokenType::Colon),
            Ok(TokenType::Bang),
            Ok(TokenType::LeftParen),
            Ok(TokenType::RightParen),
            Ok(TokenType::LeftBrace),
            Ok(TokenType::RightBrace),
            Ok(TokenType::LeftBrkt),
            Ok(TokenType::RightBrkt),
            Ok(TokenType::LeftCarat),
            Ok(TokenType::RightCarat),
        ]
    );
}

#[test]
fn decimal_constants() {
    assert_eq!(
        kinds_of("42 007"),
        vec![
            Ok(TokenType::Constant(String::from("42"))),
            Ok(TokenType::Constant(String::from("007"))),
        ]
    );
}

#[test]
fn mixed_digit_letter_run_is_unrecognized_then_recovers() {
    let ks = kinds_of("123abc");
    assert_eq!(ks.len(), 2);
    match &ks[0] {
        Err(LexerErr::UnrecognizedToken { src, .. }) => assert_eq!(src, "123"),
        other => panic!("expected an unrecognized token, got {:?}", other),
    }
    assert_eq!(ks[1], Ok(TokenType::Ident(String::from("abc"))));
}

#[test]
fn escaped_quote_in_literal() {
    let toks = tokens_of("\"a\\\"b\"");
    assert_eq!(toks.len(), 1);
    assert_eq!(toks[0].ty, TokenType::Constant(String::from("a\"b")));
    assert_eq!(toks[0].start, Coordinate { line: 0, col: 0 });
    assert_eq!(toks[0].end, Coordinate { line: 0, col: 6 });
}

#[test]
fn escape_sequences_decode() {
    let toks = tokens_of("\"a\\n\\tb\\\\\"");
    assert_eq!(toks[0].ty, TokenType::Constant(String::from("a\n\tb\\")));
}

#[test]
fn empty_string_literal() {
    let toks = tokens_of("\"\"");
    assert_eq!(toks[0].ty, TokenType::Constant(String::from("")));
}

#[test]
fn char_literal_single_character() {
    assert_eq!(
        kinds_of("'a'"),
        vec![Ok(TokenType::Constant(String::from("a")))]
    );
    assert_eq!(
        kinds_of("'\\n'"),
        vec![Ok(TokenType::Constant(String::from("\n")))]
    );
}

#[test]
fn char_literal_wrong_length_is_error() {
    let mut lx = Lexer::new(String::from("'ab'"));
    match lx.next_token() {
        Err(LexerErr::InvalidCharLiteral { span }) => {
            assert_eq!(span.start, Coordinate { line: 0, col: 0 });
            assert_eq!(span.end, Coordinate { line: 0, col: 4 });
        }
        other => panic!("expected an invalid char literal, got {:?}", other),
    }
    let mut lx = Lexer::new(String::from("''"));
    assert!(matches!(
        lx.next_token(),
        Err(LexerErr::InvalidCharLiteral { .. })
    ));
}

#[test]
fn unterminated_literal() {
    let mut lx = Lexer::new(String::from("\"abc"));
    match lx.next_token() {
        Err(LexerErr::UnterminatedLiteral { span }) => {
            assert_eq!(span.start, Coordinate { line: 0, col: 0 });
            assert_eq!(span.end, Coordinate { line: 0, col: 4 });
        }
        other => panic!("expected an unterminated literal, got {:?}", other),
    }
    // everything was consumed for recovery: the stream is exhausted
    assert_eq!(lx.next_token(), Ok(None));
}

#[test]
fn backslash_at_end_is_unterminated() {
    let mut lx = Lexer::new(String::from("\"a\\"));
    assert!(matches!(
        lx.next_token(),
        Err(LexerErr::UnterminatedLiteral { .. })
    ));
}

#[test]
fn literal_spanning_lines() {
    let toks = tokens_of("\"a\nb\"");
    assert_eq!(toks[0].ty, TokenType::Constant(String::from("a\nb")));
    assert_eq!(toks[0].start, Coordinate { line: 0, col: 0 });
    assert_eq!(toks[0].end, Coordinate { line: 1, col: 2 });
}

#[test]
fn line_and_column_tracking() {
    let toks = tokens_of("int\n  x;");
    assert_eq!(toks[0].ty, TokenType::KWInt);
    assert_eq!(toks[0].start, Coordinate { line: 0, col: 0 });
    assert_eq!(toks[0].end, Coordinate { line: 0, col: 3 });
    assert_eq!(toks[1].ty, TokenType::Ident(String::from("x")));
    assert_eq!(toks[1].start, Coordinate { line: 1, col: 2 });
    assert_eq!(toks[1].end, Coordinate { line: 1, col: 3 });
}

#[test]
fn unknown_token_recovery() {
    let mut lx = Lexer::new(String::from("int x #;"));
    match lx.next_token() {
        Ok(Some(t)) => assert_eq!(t.ty, TokenType::KWInt),
        other => panic!("expected the int keyword, got {:?}", other),
    }
    match lx.next_token() {
        Ok(Some(t)) => assert_eq!(t.ty, TokenType::Ident(String::from("x"))),
        other => panic!("expected an identifier, got {:?}", other),
    }
    match lx.next_token() {
        Err(LexerErr::UnrecognizedToken { src, span }) => {
            assert_eq!(src, "#");
            assert_eq!(span.start, Coordinate { line: 0, col: 6 });
            assert_eq!(span.end, Coordinate { line: 0, col: 7 });
        }
        other => panic!("expected an unrecognized token, got {:?}", other),
    }
    match lx.next_token() {
        Ok(Some(t)) => assert_eq!(t.ty, TokenType::Semicolon),
        other => panic!("expected a semicolon, got {:?}", other),
    }
    assert_eq!(lx.next_token(), Ok(None));
}

#[test]
fn exhaustion_is_idempotent() {
    let mut lx = Lexer::new(String::from("  \t\n "));
    assert_eq!(lx.next_token(), Ok(None));
    assert_eq!(lx.next_token(), Ok(None));
    let mut lx = Lexer::new(String::new());
    assert_eq!(lx.next_token(), Ok(None));
}

#[test]
fn identical_text_gives_identical_streams() {
    let text = "int x = 3; \"s\\t\" 'ab' #~ y++";
    let a = kinds_of(text);
    let b = kinds_of(text);
    assert_eq!(a, b);
    assert!(a.len() > 0);
}

#[test]
fn set_text_resets_the_cursor() {
    let mut lx = Lexer::new(String::from("int\nint"));
    let _ = lx.next_token();
    let _ = lx.next_token();
    lx.set_text(String::from("y"));
    match lx.next_token() {
        Ok(Some(t)) => {
            assert_eq!(t.ty, TokenType::Ident(String::from("y")));
            assert_eq!(t.start, Coordinate { line: 0, col: 0 });
        }
        other => panic!("expected an identifier, got {:?}", other),
    }
}

#[test]
fn quote_wins_over_punctuation() {
    // a lone quote is never a SingleQuote/DoubleQuote token: it opens a
    // literal, and with no closing delimiter the literal is unterminated
    let mut lx = Lexer::new(String::from("'"));
    assert!(matches!(
        lx.next_token(),
        Err(LexerErr::UnterminatedLiteral { .. })
    ));
}

#[test]
fn declaration_statement() {
    let ks = kinds_of("unsigned int count = 40 + 2;");
    assert_eq!(
        ks,
        vec![
            Ok(TokenType::Unsigned),
            Ok(TokenType::KWInt),
            Ok(TokenType::Ident(String::from("count"))),
            Ok(TokenType::Equals),
            Ok(TokenType::Constant(String::from("40"))),
            Ok(TokenType::Plus),
            Ok(TokenType::Constant(String::from("2"))),
            Ok(TokenType::Semicolon),
        ]
    );
}

#[test]
fn double_token_table() {
    assert_eq!(TokenType::Plus.double_token(), Some(TokenType::DblPlus));
    assert_eq!(TokenType::Dash.double_token(), Some(TokenType::DblDash));
    assert_eq!(TokenType::Star.double_token(), Some(TokenType::DblStar));
    assert_eq!(TokenType::Slash.double_token(), Some(TokenType::DblSlash));
    assert_eq!(
        TokenType::Ampersand.double_token(),
        Some(TokenType::DblAmpersand)
    );
    assert_eq!(TokenType::Pipe.double_token(), Some(TokenType::DblPipe));
    assert_eq!(TokenType::Equals.double_token(), Some(TokenType::DblEquals));
    assert_eq!(
        TokenType::LeftCarat.double_token(),
        Some(TokenType::DblLeftCarat)
    );
    assert_eq!(
        TokenType::RightCarat.double_token(),
        Some(TokenType::DblRightCarat)
    );
    assert_eq!(TokenType::SingleQuote.double_token(), None);
    assert_eq!(TokenType::Comma.double_token(), None);
    assert_eq!(TokenType::Ident(String::from("x")).double_token(), None);
}

#[test]
fn non_ascii_content_counts_scalar_values() {
    // three scalar values inside the quotes: the span width is 5, not the
    // byte count
    let toks = tokens_of("\"aéz\"");
    assert_eq!(toks[0].ty, TokenType::Constant(String::from("aéz")));
    assert_eq!(toks[0].end, Coordinate { line: 0, col: 5 });
}

fn run_all(text: &str) -> Vec<LexerResult> {
    let mut lx = Lexer::new(String::from(text));
    let mut out = Vec::new();
    loop {
        let r = lx.next_token();
        let done = r == Ok(None);
        out.push(r);
        if done {
            break;
        }
    }
    out
}

#[test]
fn errors_do_not_stop_the_stream() {
    let rs = run_all("# $ %");
    assert_eq!(rs.len(), 4);
    assert!(rs[0].is_err() && rs[1].is_err() && rs[2].is_err());
    assert_eq!(rs[3], Ok(None));
}

#[test]
fn escaped_quote_in_char_literal() {
    // source text: quote, backslash, quote, quote — one escaped quote
    let toks = tokens_of("'\\''");
    assert_eq!(toks[0].ty, TokenType::Constant(String::from("'")));
}

#[test]
fn unterminated_char_literal() {
    let mut lx = Lexer::new(String::from("'a"));
    assert!(matches!(
        lx.next_token(),
        Err(LexerErr::UnterminatedLiteral { .. })
    ));
}

#[test]
fn unknown_run_stops_at_a_quote() {
    let ks = kinds_of("#\"x\"");
    assert_eq!(ks.len(), 2);
    match &ks[0] {
        Err(LexerErr::UnrecognizedToken { src, .. }) => assert_eq!(src, "#"),
        other => panic!("expected an unrecognized token, got {:?}", other),
    }
    assert_eq!(ks[1], Ok(TokenType::Constant(String::from("x"))));
}
