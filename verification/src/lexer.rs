//! The tokenizer.
//!
//! [`Lexer`] owns the source text and a cursor into it (a linear offset and
//! the matching line/column [`Coordinate`]); [`Lexer::next_token`] skips
//! whitespace, dispatches on the pattern at the cursor, advances the cursor
//! over exactly the consumed characters, and returns a [`Token`] or a typed
//! [`LexerErr`].  Its contract ties every outcome to the model in
//! [`crate::model`], so the token stream is pinned by the text alone.

use vstd::prelude::*;
use vstd::string::StrSliceExecFns;
use vstd::string::StringExecFns;
use crate::tokens::{
    Token, TokenType, TokenShape, Coordinate, Span, Direction, shape_of, coord_at,
    lemma_coord_at_step, lemma_coord_at_bounds, span_text,
};
use crate::model::{
    is_ws, is_word, is_ident_start, is_digit, all_digits, ws_end, word_run_end, keyword_of,
    punct_of, close_idx, unescaped, decoded, token_starts_at, unknown_end, unknown_end_from,
    LexStep, step, call_end,
};

verus! {

/// What one `next_token` call yields: `Ok(None)` at the end of the input,
/// `Ok(Some(token))` for the next token, `Err` for a lexical error at the
/// current position.
pub type LexerResult = Result<Option<Token>, LexerErr>;

/// A lexical error, returned as an ordinary recoverable result: the lexer
/// never aborts on malformed input, and it advances past the offending
/// characters so that scanning can continue.
#[derive(Debug, Clone, PartialEq)]
pub enum LexerErr {
    /// No token pattern matched; `src` is the offending run of characters.
    UnrecognizedToken { src: String, span: Span },
    /// A quoted literal was opened but the input ended before its closing
    /// delimiter; the span starts at the opening quote.
    UnterminatedLiteral { span: Span },
    /// A char literal whose content does not decode to exactly one
    /// character; the span covers the delimiters.
    InvalidCharLiteral { span: Span },
}

/// The diagnostic text of a lexical error: its span in the stable span
/// format, then the error kind, with the offending text where there is
/// one.
pub open spec fn err_text(e: LexerErr) -> Seq<char> {
    match e {
        LexerErr::UnrecognizedToken { src, span } => span_text(span)
            + " - encountered unknown token `"@ + src@ + "`"@,
        LexerErr::UnterminatedLiteral { span } => span_text(span) + " - unterminated literal"@,
        LexerErr::InvalidCharLiteral { span } => span_text(span) + " - invalid character literal"@,
    }
}

impl LexerErr {
    /// The diagnostic text of the error.
    pub fn render(&self) -> (r: String)
        ensures
            r@ == err_text(*self),
    {
        match self {
            LexerErr::UnrecognizedToken { src, span } => {
                let mut out = span.render();
                out.append(" - encountered unknown token `");
                out.append(src.as_str());
                out.append("`");
                proof {
                    assert(out@ =~= err_text(*self));
                }
                out
            },
            LexerErr::UnterminatedLiteral { span } => {
                let mut out = span.render();
                out.append(" - unterminated literal");
                out
            },
            LexerErr::InvalidCharLiteral { span } => {
                let mut out = span.render();
                out.append(" - invalid character literal");
                out
            },
        }
    }
}

/// The tokenizer: the source text (immutable for the session) and a cursor
/// into it, mutated only by [`Lexer::next_token`] and [`Lexer::set_text`].
#[derive(Debug, Clone)]
pub struct Lexer {
    // the text to tokenize, one entry per Unicode scalar value
    text: Vec<char>,
    // the line/column position matching charidx
    position: Coordinate,
    // the linear position along the text
    charidx: usize,
}

/// The abstract state of a [`Lexer`]: the text, the linear offset, and the
/// line/column the cursor sits at.
pub struct LexerView {
    pub text: Seq<char>,
    pub idx: int,
    pub line: int,
    pub col: int,
}

impl View for Lexer {
    type V = LexerView;

    closed spec fn view(&self) -> LexerView {
        LexerView {
            text: self.text@,
            idx: self.charidx as int,
            line: self.position.line as int,
            col: self.position.col as int,
        }
    }
}

impl Lexer {
    /// The cursor invariant: the offset lies within the text and the
    /// line/column coordinate refers to the same point of the text as the
    /// offset.
    pub open spec fn wf(&self) -> bool {
        &&& 0 <= self@.idx <= self@.text.len()
        &&& (self@.line, self@.col) == coord_at(self@.text, self@.idx)
    }

    /// Build a tokenizer sitting at the start of `text`.
    pub fn new(text: String) -> (r: Lexer)
        ensures
            r.wf(),
            r@.text == text@,
            r@.idx == 0,
            r@.line == 0 && r@.col == 0,
    {
        let chars = chars_of(text.as_str());
        proof {
            assert(chars@.take(0) =~= Seq::<char>::empty());
        }
        Lexer { text: chars, position: Coordinate::zero(), charidx: 0 }
    }

    /// Re-target the tokenizer at new text, resetting the cursor to the
    /// start.
    pub fn set_text(&mut self, text: String)
        ensures
            final (self).wf(),
            final (self)@.text == text@,
            final (self)@.idx == 0,
            final (self)@.line == 0 && final (self)@.col == 0,
    {
        let chars = chars_of(text.as_str());
        proof {
            assert(chars@.take(0) =~= Seq::<char>::empty());
        }
        self.text = chars;
        self.position = Coordinate::zero();
        self.charidx = 0;
    }

    /// Move the cursor forward to offset `j`, updating the line/column
    /// coordinate for each character passed over.
    fn advance_to(&mut self, j: usize)
        requires
            old(self).wf(),
            old(self)@.idx <= j <= old(self)@.text.len(),
        ensures
            final (self).wf(),
            final (self)@.text == old(self)@.text,
            final (self)@.idx == j,
    {
        while self.charidx < j
            invariant
                self.wf(),
                self@.text == old(self)@.text,
                old(self)@.idx <= self@.idx <= j <= self@.text.len(),
            decreases j - self.charidx,
        {
            let ghost s = self@.text;
            let ghost i = self@.idx;
            proof {
                lemma_coord_at_bounds(s, i);
                lemma_coord_at_step(s, i);
                lemma_coord_at_bounds(s, i + 1);
            }
            let c = self.text[self.charidx];
            if c == '\n' {
                self.position.update_line_rel(Direction::Right, 1);
                self.position.update_col_abs(0);
            } else {
                self.position.update_col_rel(Direction::Right, 1);
            }
            self.charidx = self.charidx + 1;
        }
    }
}

/// The token `t` is what the dispatch outcome `shape` demands for a match
/// of `n` characters at offset `j` of `s`: same category and text, and its
/// endpoints are the positions of offsets `j` and `j + n`.
pub open spec fn token_ok(s: Seq<char>, j: int, n: int, shape: TokenShape, t: Token) -> bool {
    &&& shape_of(t.ty) == shape
    &&& (t.start.line as int, t.start.col as int) == coord_at(s, j)
    &&& (t.end.line as int, t.end.col as int) == coord_at(s, j + n)
}

/// The result `r` is exactly what one `next_token` call must return on the
/// text `s` from offset `i`: whitespace is skipped to `ws_end(s, i)`, the
/// dispatch there decides between end-of-input, a token, and each of the
/// three errors, and every coordinate in the result refers to the exact
/// character offsets involved.
pub open spec fn result_matches(s: Seq<char>, i: int, r: LexerResult) -> bool {
    let j = ws_end(s, i);
    match step(s, j) {
        LexStep::Eof => r == Ok::<Option<Token>, LexerErr>(None),
        LexStep::Lexed { shape, n } => r matches Ok(Some(t)) && token_ok(s, j, n, shape, t),
        LexStep::Unknown { text } => r matches Err(LexerErr::UnrecognizedToken { src, span }) && {
            &&& src@ == text
            &&& (span.start.line as int, span.start.col as int) == coord_at(s, j)
            &&& span.end.line == span.start.line
            &&& span.end.col as int == span.start.col + text.len()
        },
        LexStep::Unterminated => r matches Err(LexerErr::UnterminatedLiteral { span }) && {
            &&& (span.start.line as int, span.start.col as int) == coord_at(s, j)
            &&& (span.end.line as int, span.end.col as int) == coord_at(s, s.len() as int)
        },
        LexStep::BadCharLit { n } => r matches Err(LexerErr::InvalidCharLiteral { span }) && {
            &&& (span.start.line as int, span.start.col as int) == coord_at(s, j)
            &&& (span.end.line as int, span.end.col as int) == coord_at(s, j + n)
        },
    }
}

impl Lexer {
    /// Produce the next token of the text, or `Ok(None)` at the end of the
    /// input, or a typed error.
    ///
    /// The consumed characters are exactly
    /// `text[old(self)@.idx .. final(self)@.idx]`: successive calls consume
    /// adjacent stretches, so the whole input is covered exactly once, with
    /// no gaps and no overlaps.  The result is pinned by
    /// [`result_matches`], a function of the text and the old offset alone.
    pub fn next_token(&mut self) -> (r: LexerResult)
        requires
            old(self).wf(),
        ensures
            final (self).wf(),
            final (self)@.text == old(self)@.text,
            final (self)@.idx == call_end(old(self)@.text, old(self)@.idx),
            old(self)@.idx <= final (self)@.idx <= old(self)@.text.len(),
            result_matches(old(self)@.text, old(self)@.idx, r),
    {
        let ghost s = self@.text;
        let ghost i0 = self@.idx;
        let j = scan_ws(&self.text, self.charidx);
        self.advance_to(j);
        if j >= self.text.len() {
            return Ok(None);
        }
        let start = self.position;
        let c = self.text[j];
        if c == '"' || c == '\'' {
            match scan_close(&self.text, j + 1, c) {
                None => {
                    let n = self.text.len();
                    self.advance_to(n);
                    let end = self.position;
                    Err(LexerErr::UnterminatedLiteral { span: Span { start, end } })
                },
                Some(e) => {
                    let content = decode_range(&self.text, j + 1, e);
                    if c == '\'' && content.as_str().unicode_len() != 1 {
                        self.advance_to(e + 1);
                        let end = self.position;
                        Err(LexerErr::InvalidCharLiteral { span: Span { start, end } })
                    } else {
                        self.advance_to(e + 1);
                        let end = self.position;
                        Ok(Some(Token { ty: TokenType::Constant(content), start, end }))
                    }
                },
            }
        } else if word_char(c) {
            let e = scan_word(&self.text, j);
            let run = copy_range(&self.text, j, e);
            match keyword_token(&run) {
                Some(t) => {
                    self.advance_to(e);
                    let end = self.position;
                    Ok(Some(Token { ty: t, start, end }))
                },
                None => {
                    if ident_start_char(c) {
                        self.advance_to(e);
                        let end = self.position;
                        Ok(Some(Token { ty: TokenType::Ident(run), start, end }))
                    } else if digits_only(&self.text, j, e) {
                        self.advance_to(e);
                        let end = self.position;
                        Ok(Some(Token { ty: TokenType::Constant(run), start, end }))
                    } else {
                        self.fail_unknown(j)
                    }
                },
            }
        } else {
            match punct_token(c) {
                Some(t) => {
                    let doubled: Option<TokenType> = if j + 1 < self.text.len() && self.text[j + 1]
                        == c {
                        t.double_token()
                    } else {
                        None
                    };
                    match doubled {
                        Some(d) => {
                            self.advance_to(j + 2);
                            let end = self.position;
                            Ok(Some(Token { ty: d, start, end }))
                        },
                        None => {
                            self.advance_to(j + 1);
                            let end = self.position;
                            Ok(Some(Token { ty: t, start, end }))
                        },
                    }
                },
                None => self.fail_unknown(j),
            }
        }
    }

    /// Recover from an unrecognized token: collect the maximal run of
    /// characters at `j` that neither is whitespace nor starts any token,
    /// advance past it, and report it with its span.
    fn fail_unknown(&mut self, j: usize) -> (r: LexerResult)
        requires
            old(self).wf(),
            old(self)@.idx == j < old(self)@.text.len(),
            !is_ws(old(self)@.text[j as int]),
            !token_starts_at(old(self)@.text, j as int),
        ensures
            final (self).wf(),
            final (self)@.text == old(self)@.text,
            final (self)@.idx == unknown_end(old(self)@.text, j as int),
            j < final (self)@.idx <= old(self)@.text.len(),
            r matches Err(LexerErr::UnrecognizedToken { src, span }) && {
                let s = old(self)@.text;
                &&& src@ == s.subrange(j as int, unknown_end(s, j as int))
                &&& (span.start.line as int, span.start.col as int) == coord_at(s, j as int)
                &&& span.end.line == span.start.line
                &&& span.end.col as int == span.start.col + src@.len()
            },
    {
        let ghost s = self@.text;
        let e = scan_unknown(&self.text, j);
        let src = copy_range(&self.text, j, e);
        let start = self.position;
        proof {
            lemma_coord_at_bounds(s, j as int);
        }
        let span = Span::from_coord(start, 0, e - j);
        self.advance_to(e);
        Err(LexerErr::UnrecognizedToken { src, span })
    }
}

/// Whether `c` is skipped as whitespace.
fn ws_char(c: char) -> (b: bool)
    ensures
        b == is_ws(c),
{
    c == ' ' || c == '\t' || c == '\n'
}

/// Whether `c` is a word character (letter, digit or underscore).
fn word_char(c: char) -> (b: bool)
    ensures
        b == is_word(c),
{
    let u = c as u32;
    ('a' as u32 <= u && u <= 'z' as u32) || ('A' as u32 <= u && u <= 'Z' as u32) || ('0' as u32
        <= u && u <= '9' as u32) || c == '_'
}

/// Whether `c` may start an identifier.
fn ident_start_char(c: char) -> (b: bool)
    ensures
        b == is_ident_start(c),
{
    let u = c as u32;
    ('a' as u32 <= u && u <= 'z' as u32) || ('A' as u32 <= u && u <= 'Z' as u32) || c == '_'
}

/// Whether `c` is a decimal digit.
fn digit_char(c: char) -> (b: bool)
    ensures
        b == is_digit(c),
{
    let u = c as u32;
    '0' as u32 <= u && u <= '9' as u32
}

/// What the escape sequence `\c` decodes to.
fn unescape_char(c: char) -> (r: char)
    ensures
        r == unescaped(c),
{
    if c == 'n' {
        '\n'
    } else if c == 't' {
        '\t'
    } else {
        c
    }
}

/// Index of the first non-whitespace character at or after `i`.
fn scan_ws(text: &Vec<char>, i: usize) -> (j: usize)
    requires
        i <= text@.len(),
    ensures
        i <= j <= text@.len(),
        j == ws_end(text@, i as int),
        j < text@.len() ==> !is_ws(text@[j as int]),
{
    let mut j: usize = i;
    while j < text.len() && ws_char(text[j])
        invariant
            i <= j <= text@.len(),
            ws_end(text@, i as int) == ws_end(text@, j as int),
        decreases text@.len() - j,
    {
        j = j + 1;
    }
    j
}

/// Index just past the maximal word-character run starting at `i`.
fn scan_word(text: &Vec<char>, i: usize) -> (j: usize)
    requires
        i <= text@.len(),
    ensures
        i <= j <= text@.len(),
        j == word_run_end(text@, i as int),
{
    let mut j: usize = i;
    while j < text.len() && word_char(text[j])
        invariant
            i <= j <= text@.len(),
            word_run_end(text@, i as int) == word_run_end(text@, j as int),
        decreases text@.len() - j,
    {
        j = j + 1;
    }
    j
}

/// The characters `text[from..to]`, copied verbatim into an owned string.
fn copy_range(text: &Vec<char>, from: usize, to: usize) -> (r: String)
    requires
        from <= to <= text@.len(),
    ensures
        r@ == text@.subrange(from as int, to as int),
{
    let mut out = String::new();
    let mut k: usize = from;
    while k < to
        invariant
            from <= k <= to <= text@.len(),
            out@ == text@.subrange(from as int, k as int),
        decreases to - k,
    {
        out.push(text[k]);
        proof {
            assert(text@.subrange(from as int, k + 1 as int) =~= text@.subrange(
                from as int,
                k as int,
            ).push(text@[k as int]));
        }
        k = k + 1;
    }
    out
}

/// Whether every character of `text[from..to]` is a decimal digit.
fn digits_only(text: &Vec<char>, from: usize, to: usize) -> (b: bool)
    requires
        from <= to <= text@.len(),
    ensures
        b == all_digits(text@.subrange(from as int, to as int)),
{
    let ghost sub = text@.subrange(from as int, to as int);
    let mut k: usize = from;
    while k < to
        invariant
            from <= k <= to <= text@.len(),
            sub == text@.subrange(from as int, to as int),
            forall|m: int| from <= m < k ==> is_digit(#[trigger] text@[m]),
        decreases to - k,
    {
        if !digit_char(text[k]) {
            assert(sub[k - from] == text@[k as int]);
            return false;
        }
        k = k + 1;
    }
    assert forall|x: int| 0 <= x < sub.len() implies is_digit(#[trigger] sub[x]) by {
        assert(sub[x] == text@[from + x]);
    }
    true
}

/// Whether `a` holds exactly the text of the literal `lit`.
fn string_eq_lit(a: &String, lit: &str) -> (b: bool)
    ensures
        b == (a@ == lit@),
{
    let s = String::from_str(lit);
    *a == s
}

/// The keyword whose text is `run`, if there is one.
fn keyword_token(run: &String) -> (r: Option<TokenType>)
    ensures
        r == keyword_of(run@),
{
    if string_eq_lit(run, "unsigned") {
        Some(TokenType::Unsigned)
    } else if string_eq_lit(run, "signed") {
        Some(TokenType::Signed)
    } else if string_eq_lit(run, "char") {
        Some(TokenType::KWChar)
    } else if string_eq_lit(run, "short") {
        Some(TokenType::KWShort)
    } else if string_eq_lit(run, "int") {
        Some(TokenType::KWInt)
    } else if string_eq_lit(run, "long") {
        Some(TokenType::KWLong)
    } else if string_eq_lit(run, "float") {
        Some(TokenType::KWFloat)
    } else if string_eq_lit(run, "double") {
        Some(TokenType::KWDouble)
    } else if string_eq_lit(run, "_Bool") {
        Some(TokenType::KWBool)
    } else if string_eq_lit(run, "struct") {
        Some(TokenType::Struct)
    } else if string_eq_lit(run, "enum") {
        Some(TokenType::Enum)
    } else if string_eq_lit(run, "union") {
        Some(TokenType::Union)
    } else if string_eq_lit(run, "static") {
        Some(TokenType::Static)
    } else if string_eq_lit(run, "extern") {
        Some(TokenType::Extern)
    } else if string_eq_lit(run, "typedef") {
        Some(TokenType::Typedef)
    } else if string_eq_lit(run, "void") {
        Some(TokenType::Void)
    } else if string_eq_lit(run, "const") {
        Some(TokenType::Const)
    } else if string_eq_lit(run, "if") {
        Some(TokenType::If)
    } else if string_eq_lit(run, "else") {
        Some(TokenType::Else)
    } else if string_eq_lit(run, "switch") {
        Some(TokenType::Switch)
    } else if string_eq_lit(run, "case") {
        Some(TokenType::Case)
    } else if string_eq_lit(run, "default") {
        Some(TokenType::Default)
    } else if string_eq_lit(run, "goto") {
        Some(TokenType::Goto)
    } else if string_eq_lit(run, "do") {
        Some(TokenType::Do)
    } else if string_eq_lit(run, "for") {
        Some(TokenType::For)
    } else if string_eq_lit(run, "while") {
        Some(TokenType::While)
    } else if string_eq_lit(run, "continue") {
        Some(TokenType::Continue)
    } else if string_eq_lit(run, "break") {
        Some(TokenType::Break)
    } else if string_eq_lit(run, "return") {
        Some(TokenType::Return)
    } else {
        None
    }
}

/// The single-character punctuation token for `c`, if there is one.
fn punct_token(c: char) -> (r: Option<TokenType>)
    ensures
        r == punct_of(c),
{
    if c == ',' {
        Some(TokenType::Comma)
    } else if c == ';' {
        Some(TokenType::Semicolon)
    } else if c == ':' {
        Some(TokenType::Colon)
    } else if c == '!' {
        Some(TokenType::Bang)
    } else if c == '*' {
        Some(TokenType::Star)
    } else if c == '+' {
        Some(TokenType::Plus)
    } else if c == '-' {
        Some(TokenType::Dash)
    } else if c == '/' {
        Some(TokenType::Slash)
    } else if c == '&' {
        Some(TokenType::Ampersand)
    } else if c == '|' {
        Some(TokenType::Pipe)
    } else if c == '=' {
        Some(TokenType::Equals)
    } else if c == '(' {
        Some(TokenType::LeftParen)
    } else if c == ')' {
        Some(TokenType::RightParen)
    } else if c == '{' {
        Some(TokenType::LeftBrace)
    } else if c == '}' {
        Some(TokenType::RightBrace)
    } else if c == '[' {
        Some(TokenType::LeftBrkt)
    } else if c == ']' {
        Some(TokenType::RightBrkt)
    } else if c == '<' {
        Some(TokenType::LeftCarat)
    } else if c == '>' {
        Some(TokenType::RightCarat)
    } else {
        None
    }
}

/// Index of the closing delimiter `d` for a literal whose content starts at
/// `k`, honoring backslash escapes; `None` if the input ends first.
fn scan_close(text: &Vec<char>, k: usize, d: char) -> (r: Option<usize>)
    requires
        k <= text@.len(),
    ensures
        match r {
            Some(e) => k <= e < text@.len() && close_idx(text@, k as int, d) == Some(e as int),
            None => close_idx(text@, k as int, d) is None,
        },
{
    let mut j: usize = k;
    loop
        invariant
            k <= j <= text@.len(),
            close_idx(text@, k as int, d) == close_idx(text@, j as int, d),
        decreases text@.len() - j,
    {
        if j >= text.len() {
            return None;
        }
        let c = text[j];
        if c == d {
            return Some(j);
        }
        if c == '\\' {
            if j + 1 >= text.len() {
                return None;
            }
            j = j + 2;
        } else {
            j = j + 1;
        }
    }
}

/// The decoded content of the literal text `text[from..to]`.
fn decode_range(text: &Vec<char>, from: usize, to: usize) -> (r: String)
    requires
        from <= to <= text@.len(),
    ensures
        r@ == decoded(text@, from as int, to as int),
{
    let ghost s = text@;
    let mut out = String::new();
    let mut k: usize = from;
    proof {
        assert(Seq::<char>::empty() + decoded(s, from as int, to as int) =~= decoded(
            s,
            from as int,
            to as int,
        ));
    }
    while k < to
        invariant
            from <= k <= to <= text@.len(),
            s == text@,
            decoded(s, from as int, to as int) == out@ + decoded(s, k as int, to as int),
        decreases to - k,
    {
        let c = text[k];
        if c == '\\' && k + 1 < to {
            let d = text[k + 1];
            out.push(unescape_char(d));
            proof {
                assert(out@ + decoded(s, k + 2 as int, to as int) =~= (out@.drop_last() + (seq![
                    unescaped(s[k + 1 as int]),
                ] + decoded(s, k + 2 as int, to as int))));
            }
            k = k + 2;
        } else {
            out.push(c);
            proof {
                assert(out@ + decoded(s, k + 1 as int, to as int) =~= (out@.drop_last() + (seq![
                    s[k as int],
                ] + decoded(s, k + 1 as int, to as int))));
            }
            k = k + 1;
        }
    }
    proof {
        assert(out@ + decoded(s, k as int, to as int) =~= out@);
    }
    out
}

/// Whether some token pattern matches at offset `j`.
fn token_start(text: &Vec<char>, j: usize) -> (b: bool)
    requires
        j < text@.len(),
    ensures
        b == token_starts_at(text@, j as int),
{
    let c = text[j];
    if c == '"' || c == '\'' {
        true
    } else if punct_token(c).is_some() {
        true
    } else if word_char(c) {
        let e = scan_word(text, j);
        let run = copy_range(text, j, e);
        if keyword_token(&run).is_some() {
            true
        } else if ident_start_char(c) {
            true
        } else {
            digits_only(text, j, e)
        }
    } else {
        false
    }
}

/// Index just past the maximal unrecognized run starting at `i`.
fn scan_unknown(text: &Vec<char>, i: usize) -> (j: usize)
    requires
        i < text@.len(),
    ensures
        i < j <= text@.len(),
        j == unknown_end(text@, i as int),
{
    let n = text.len();
    let mut j: usize = i + 1;
    while j < text.len() && !ws_char(text[j]) && !token_start(text, j)
        invariant
            i + 1 <= j <= text@.len(),
            unknown_end_from(text@, i + 1 as int) == unknown_end_from(text@, j as int),
        decreases text@.len() - j,
    {
        j = j + 1;
    }
    j
}

/// The characters of `text`, one per Unicode scalar value.
fn chars_of(text: &str) -> (r: Vec<char>)
    ensures
        r@ == text@,
{
    let n = text.unicode_len();
    let mut r: Vec<char> = Vec::new();
    let mut i: usize = 0;
    while i < n
        invariant
            n == text@.len(),
            i <= n,
            r@ == text@.take(i as int),
        decreases n - i,
    {
        let c = text.get_char(i);
        r.push(c);
        proof {
            assert(text@.take(i + 1 as int) =~= text@.take(i as int).push(text@[i as int]));
        }
        i = i + 1;
    }
    proof {
        assert(text@.take(n as int) =~= text@);
    }
    r
}

} // verus!
