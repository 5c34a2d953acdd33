//! Token taxonomy and source positions.
//!
//! A [`Token`] pairs a [`TokenType`] with the [`Coordinate`]s of its first
//! character and of the character just past its last one.  Coordinates are
//! zero-based and counted in Unicode scalar values, so they stay correct on
//! non-ASCII content inside literals.

use vstd::prelude::*;
use vstd::string::StringExecFns;

verus! {

/// Gives `String::push` a contract; vstd specifies `String::new` and
/// equality but not `push`.  Relies on `String::push` appending exactly the
/// given character to the end of the string.
pub assume_specification[ String::push ](s: &mut String, c: char)
    ensures
        final (s)@ == old(s)@.push(c),
;

/// One lexical unit of the source text.
#[derive(Debug, Clone, PartialEq)]
pub struct Token {
    /// The category of the unit, with the matched text for the
    /// payload-bearing categories.
    pub ty: TokenType,
    /// Position of the first character of the unit.
    pub start: Coordinate,
    /// Position one past the last character of the unit (exclusive).
    pub end: Coordinate,
}

/// The closed set of token categories.
///
/// `Ident` and `Constant` carry the matched text verbatim (for a quoted
/// literal, `Constant` carries the decoded content).  Every other variant
/// stands for one fixed keyword or punctuation form.
#[derive(Debug, Clone, PartialEq, Eq, Hash)]
pub enum TokenType {
    Ident(String),
    Constant(String),
    // keywords
    Unsigned,
    Signed,
    KWChar,
    KWShort,
    KWInt,
    KWLong,
    KWFloat,
    KWDouble,
    KWBool,
    Struct,
    Enum,
    Union,
    Static,
    Extern,
    Typedef,
    Void,
    Const,
    // control flow keywords
    If,
    Else,
    Switch,
    Case,
    Default,
    Goto,
    Do,
    For,
    While,
    Continue,
    Break,
    Return,
    // punctuation
    Comma,
    Semicolon,
    Colon,
    Bang,
    // operators with a doubled counterpart
    Star,
    DblStar,
    Plus,
    DblPlus,
    Dash,
    DblDash,
    Slash,
    DblSlash,
    Ampersand,
    DblAmpersand,
    Pipe,
    DblPipe,
    Equals,
    DblEquals,
    // quote delimiters
    SingleQuote,
    DoubleQuote,
    // grouping
    LeftParen,
    RightParen,
    LeftBrace,
    RightBrace,
    LeftBrkt,
    RightBrkt,
    LeftCarat,
    RightCarat,
    DblLeftCarat,
    DblRightCarat,
}

/// The mathematical shape of a [`TokenType`]: payload-bearing categories
/// carry their text as a `Seq<char>`, every fixed category is carried as is.
pub enum TokenShape {
    Ident(Seq<char>),
    Constant(Seq<char>),
    Fixed(TokenType),
}

/// The shape of a [`TokenType`] value: the payload text abstracted to its
/// character sequence.
pub open spec fn shape_of(t: TokenType) -> TokenShape {
    match t {
        TokenType::Ident(s) => TokenShape::Ident(s@),
        TokenType::Constant(s) => TokenShape::Constant(s@),
        _ => TokenShape::Fixed(t),
    }
}

/// The doubled counterpart of an operator, if the taxonomy has one.
///
/// `SingleQuote` has none by design: `'` is a delimiter distinct from `"`,
/// not a double-up of it.
pub open spec fn spec_double_token(t: TokenType) -> Option<TokenType> {
    match t {
        TokenType::Star => Some(TokenType::DblStar),
        TokenType::Plus => Some(TokenType::DblPlus),
        TokenType::Dash => Some(TokenType::DblDash),
        TokenType::Slash => Some(TokenType::DblSlash),
        TokenType::Ampersand => Some(TokenType::DblAmpersand),
        TokenType::Pipe => Some(TokenType::DblPipe),
        TokenType::Equals => Some(TokenType::DblEquals),
        TokenType::LeftCarat => Some(TokenType::DblLeftCarat),
        TokenType::RightCarat => Some(TokenType::DblRightCarat),
        _ => None,
    }
}

impl TokenType {
    /// Returns the doubled version of the token, if such a token exists;
    /// `None` otherwise.
    pub fn double_token(&self) -> (r: Option<TokenType>)
        ensures
            r == spec_double_token(*self),
    {
        match self {
            TokenType::Star => Some(TokenType::DblStar),
            TokenType::Plus => Some(TokenType::DblPlus),
            TokenType::Dash => Some(TokenType::DblDash),
            TokenType::Slash => Some(TokenType::DblSlash),
            TokenType::Ampersand => Some(TokenType::DblAmpersand),
            TokenType::Pipe => Some(TokenType::DblPipe),
            TokenType::Equals => Some(TokenType::DblEquals),
            TokenType::LeftCarat => Some(TokenType::DblLeftCarat),
            TokenType::RightCarat => Some(TokenType::DblRightCarat),
            _ => None,
        }
    }
}

/// The verbatim text a fixed [`TokenType`] stands for, or the payload of a
/// payload-bearing one.
pub open spec fn token_text(t: TokenType) -> Seq<char> {
    match t {
        TokenType::Ident(s) => s@,
        TokenType::Constant(s) => s@,
        TokenType::Unsigned => "unsigned"@,
        TokenType::Signed => "signed"@,
        TokenType::KWChar => "char"@,
        TokenType::KWShort => "short"@,
        TokenType::KWInt => "int"@,
        TokenType::KWLong => "long"@,
        TokenType::KWFloat => "float"@,
        TokenType::KWDouble => "double"@,
        TokenType::KWBool => "_Bool"@,
        TokenType::Struct => "struct"@,
        TokenType::Enum => "enum"@,
        TokenType::Union => "union"@,
        TokenType::Static => "static"@,
        TokenType::Extern => "extern"@,
        TokenType::Typedef => "typedef"@,
        TokenType::Void => "void"@,
        TokenType::Const => "const"@,
        TokenType::If => "if"@,
        TokenType::Else => "else"@,
        TokenType::Switch => "switch"@,
        TokenType::Case => "case"@,
        TokenType::Default => "default"@,
        TokenType::Goto => "goto"@,
        TokenType::Do => "do"@,
        TokenType::For => "for"@,
        TokenType::While => "while"@,
        TokenType::Continue => "continue"@,
        TokenType::Break => "break"@,
        TokenType::Return => "return"@,
        TokenType::Comma => ","@,
        TokenType::Semicolon => ";"@,
        TokenType::Colon => ":"@,
        TokenType::Bang => "!"@,
        TokenType::Star => "*"@,
        TokenType::DblStar => "**"@,
        TokenType::Plus => "+"@,
        TokenType::DblPlus => "++"@,
        TokenType::Dash => "-"@,
        TokenType::DblDash => "--"@,
        TokenType::Slash => "/"@,
        TokenType::DblSlash => "//"@,
        TokenType::Ampersand => "&"@,
        TokenType::DblAmpersand => "&&"@,
        TokenType::Pipe => "|"@,
        TokenType::DblPipe => "||"@,
        TokenType::Equals => "="@,
        TokenType::DblEquals => "=="@,
        TokenType::SingleQuote => "'"@,
        TokenType::DoubleQuote => "\""@,
        TokenType::LeftParen => "("@,
        TokenType::RightParen => ")"@,
        TokenType::LeftBrace => "{"@,
        TokenType::RightBrace => "}"@,
        TokenType::LeftBrkt => "["@,
        TokenType::RightBrkt => "]"@,
        TokenType::LeftCarat => "<"@,
        TokenType::RightCarat => ">"@,
        TokenType::DblLeftCarat => "<<"@,
        TokenType::DblRightCarat => ">>"@,
    }
}

impl TokenType {
    /// The display text of the token: its payload for `Ident` and
    /// `Constant`, the verbatim source text for every fixed category.
    pub fn render(&self) -> (r: String)
        ensures
            r@ == token_text(*self),
    {
        match self {
            TokenType::Ident(s) => s.clone(),
            TokenType::Constant(s) => s.clone(),
            TokenType::Unsigned => String::from_str("unsigned"),
            TokenType::Signed => String::from_str("signed"),
            TokenType::KWChar => String::from_str("char"),
            TokenType::KWShort => String::from_str("short"),
            TokenType::KWInt => String::from_str("int"),
            TokenType::KWLong => String::from_str("long"),
            TokenType::KWFloat => String::from_str("float"),
            TokenType::KWDouble => String::from_str("double"),
            TokenType::KWBool => String::from_str("_Bool"),
            TokenType::Struct => String::from_str("struct"),
            TokenType::Enum => String::from_str("enum"),
            TokenType::Union => String::from_str("union"),
            TokenType::Static => String::from_str("static"),
            TokenType::Extern => String::from_str("extern"),
            TokenType::Typedef => String::from_str("typedef"),
            TokenType::Void => String::from_str("void"),
            TokenType::Const => String::from_str("const"),
            TokenType::If => String::from_str("if"),
            TokenType::Else => String::from_str("else"),
            TokenType::Switch => String::from_str("switch"),
            TokenType::Case => String::from_str("case"),
            TokenType::Default => String::from_str("default"),
            TokenType::Goto => String::from_str("goto"),
            TokenType::Do => String::from_str("do"),
            TokenType::For => String::from_str("for"),
            TokenType::While => String::from_str("while"),
            TokenType::Continue => String::from_str("continue"),
            TokenType::Break => String::from_str("break"),
            TokenType::Return => String::from_str("return"),
            TokenType::Comma => String::from_str(","),
            TokenType::Semicolon => String::from_str(";"),
            TokenType::Colon => String::from_str(":"),
            TokenType::Bang => String::from_str("!"),
            TokenType::Star => String::from_str("*"),
            TokenType::DblStar => String::from_str("**"),
            TokenType::Plus => String::from_str("+"),
            TokenType::DblPlus => String::from_str("++"),
            TokenType::Dash => String::from_str("-"),
            TokenType::DblDash => String::from_str("--"),
            TokenType::Slash => String::from_str("/"),
            TokenType::DblSlash => String::from_str("//"),
            TokenType::Ampersand => String::from_str("&"),
            TokenType::DblAmpersand => String::from_str("&&"),
            TokenType::Pipe => String::from_str("|"),
            TokenType::DblPipe => String::from_str("||"),
            TokenType::Equals => String::from_str("="),
            TokenType::DblEquals => String::from_str("=="),
            TokenType::SingleQuote => String::from_str("'"),
            TokenType::DoubleQuote => String::from_str("\""),
            TokenType::LeftParen => String::from_str("("),
            TokenType::RightParen => String::from_str(")"),
            TokenType::LeftBrace => String::from_str("{"),
            TokenType::RightBrace => String::from_str("}"),
            TokenType::LeftBrkt => String::from_str("["),
            TokenType::RightBrkt => String::from_str("]"),
            TokenType::LeftCarat => String::from_str("<"),
            TokenType::RightCarat => String::from_str(">"),
            TokenType::DblLeftCarat => String::from_str("<<"),
            TokenType::DblRightCarat => String::from_str(">>"),
        }
    }
}

/// A cardinal direction on a 1D line.
#[derive(Debug, Copy, Clone, PartialEq, Eq, Structural)]
pub enum Direction {
    Left,
    Right,
}

/// The position of a character within a block of text, zero-based and
/// counted in Unicode scalar values.  Ordered lexicographically by
/// `(line, col)`.
#[derive(Debug, Copy, Clone, PartialEq, Eq, PartialOrd, Ord, Structural)]
pub struct Coordinate {
    /// The line (y-axis) that the character sits on.
    pub line: usize,
    /// The column (x-axis) along the line of the character.
    pub col: usize,
}

/// The line/column position reached after reading `s` starting from
/// `(line, col)`: a newline moves to the start of the next line, any other
/// character advances the column by one.
pub open spec fn advanced(line: int, col: int, s: Seq<char>) -> (int, int)
    decreases s.len(),
{
    if s.len() == 0 {
        (line, col)
    } else if s[0] == '\n' {
        advanced(line + 1, 0, s.skip(1))
    } else {
        advanced(line, col + 1, s.skip(1))
    }
}

/// The position of the character at index `i` of `text`, as reached by
/// reading the first `i` characters from line 0, column 0.
pub open spec fn coord_at(text: Seq<char>, i: int) -> (int, int) {
    advanced(0, 0, text.take(i))
}

/// Reading one more character advances the position by one step.
pub proof fn lemma_advanced_push(line: int, col: int, s: Seq<char>, c: char)
    ensures
        advanced(line, col, s.push(c)) == if c == '\n' {
            (advanced(line, col, s).0 + 1, 0int)
        } else {
            (advanced(line, col, s).0, advanced(line, col, s).1 + 1)
        },
    decreases s.len(),
{
    if s.len() == 0 {
        assert(s.push(c)[0] == c);
        assert(s.push(c).skip(1) =~= Seq::<char>::empty());
        assert(advanced(line, col, Seq::<char>::empty()) == (line, col));
        if c == '\n' {
            assert(advanced(line, col, s.push(c)) == advanced(line + 1, 0, s.push(c).skip(1)));
            assert(advanced(line, col, s.push(c)) == (line + 1, 0int));
            assert(advanced(line, col, s) == (line, col));
        } else {
            assert(advanced(line, col, s.push(c)) == advanced(line, col + 1, s.push(c).skip(1)));
            assert(advanced(line, col, s.push(c)) == (line, col + 1));
        }
    } else {
        assert(s.push(c)[0] == s[0]);
        assert(s.push(c).skip(1) =~= s.skip(1).push(c));
        if s[0] == '\n' {
            lemma_advanced_push(line + 1, 0, s.skip(1), c);
        } else {
            lemma_advanced_push(line, col + 1, s.skip(1), c);
        }
    }
}

/// The position reached after a text stays within it: the line moves at
/// most one per character read, the column likewise.
pub proof fn lemma_advanced_bounds(line: int, col: int, s: Seq<char>)
    requires
        0 <= line,
        0 <= col,
    ensures
        line <= advanced(line, col, s).0 <= line + s.len(),
        0 <= advanced(line, col, s).1 <= col + s.len(),
    decreases s.len(),
{
    if s.len() > 0 {
        if s[0] == '\n' {
            lemma_advanced_bounds(line + 1, 0, s.skip(1));
        } else {
            lemma_advanced_bounds(line, col + 1, s.skip(1));
        }
    }
}

/// The position of the character after index `i` follows from the position
/// at `i` and the character there.
pub proof fn lemma_coord_at_step(s: Seq<char>, i: int)
    requires
        0 <= i < s.len(),
    ensures
        coord_at(s, i + 1) == if s[i] == '\n' {
            (coord_at(s, i).0 + 1, 0int)
        } else {
            (coord_at(s, i).0, coord_at(s, i).1 + 1)
        },
{
    assert(s.take(i + 1) =~= s.take(i).push(s[i]));
    lemma_advanced_push(0, 0, s.take(i), s[i]);
}

/// Line and column at index `i` are both between 0 and `i`.
pub proof fn lemma_coord_at_bounds(s: Seq<char>, i: int)
    requires
        0 <= i <= s.len(),
    ensures
        0 <= coord_at(s, i).0 <= i,
        0 <= coord_at(s, i).1 <= i,
{
    lemma_advanced_bounds(0, 0, s.take(i));
}

impl Coordinate {
    /// Create a zeroed Coordinate (`line` and `col` set to 0).
    pub fn zero() -> (r: Self)
        ensures
            r.line == 0 && r.col == 0,
    {
        Coordinate { line: 0, col: 0 }
    }

    /// Update the Coordinate's `line` relative to its current value.
    pub fn update_line_rel(&mut self, dir: Direction, delta: usize)
        requires
            dir == Direction::Left ==> delta <= old(self).line,
            dir == Direction::Right ==> old(self).line + delta <= usize::MAX,
        ensures
            final (self).line == if dir == Direction::Left {
                old(self).line - delta
            } else {
                old(self).line + delta
            },
            final (self).col == old(self).col,
    {
        match dir {
            Direction::Left => self.line = self.line - delta,
            Direction::Right => self.line = self.line + delta,
        }
    }

    /// Update the Coordinate's `col` relative to its current value.
    pub fn update_col_rel(&mut self, dir: Direction, delta: usize)
        requires
            dir == Direction::Left ==> delta <= old(self).col,
            dir == Direction::Right ==> old(self).col + delta <= usize::MAX,
        ensures
            final (self).col == if dir == Direction::Left {
                old(self).col - delta
            } else {
                old(self).col + delta
            },
            final (self).line == old(self).line,
    {
        match dir {
            Direction::Left => self.col = self.col - delta,
            Direction::Right => self.col = self.col + delta,
        }
    }

    /// Set the Coordinate's `line` to an absolute value.
    pub fn update_line_abs(&mut self, line: usize)
        ensures
            final (self).line == line,
            final (self).col == old(self).col,
    {
        self.line = line
    }

    /// Set the Coordinate's `col` to an absolute value.
    pub fn update_col_abs(&mut self, col: usize)
        ensures
            final (self).col == col,
            final (self).line == old(self).line,
    {
        self.col = col
    }
}

/// A start/end Coordinate pair delimiting consumed source text; `end` is
/// exclusive.
#[derive(Debug, Copy, Clone, PartialEq, Eq, Structural)]
pub struct Span {
    pub start: Coordinate,
    pub end: Coordinate,
}

/// The character for the decimal digit `d`.
pub open spec fn digit_char_of(d: int) -> char {
    if d == 0 { '0' }
    else if d == 1 { '1' }
    else if d == 2 { '2' }
    else if d == 3 { '3' }
    else if d == 4 { '4' }
    else if d == 5 { '5' }
    else if d == 6 { '6' }
    else if d == 7 { '7' }
    else if d == 8 { '8' }
    else { '9' }
}

/// The decimal digits of `n`, most significant first, with no leading
/// zeroes (a single `0` for zero).
pub open spec fn decimal_digits(n: int) -> Seq<char>
    decreases n,
{
    if n < 10 {
        seq![digit_char_of(n)]
    } else {
        decimal_digits(n / 10).push(digit_char_of(n % 10))
    }
}

/// The `line:col` diagnostic text for a position.
pub open spec fn coord_text(line: int, col: int) -> Seq<char> {
    decimal_digits(line) + seq![':'] + decimal_digits(col)
}

/// The diagnostic text for a span: `line:colStart-colEnd` when both
/// endpoints share a line, otherwise both endpoints as `line:col` joined by
/// `-`.
pub open spec fn span_text(sp: Span) -> Seq<char> {
    if sp.start.line == sp.end.line {
        decimal_digits(sp.start.line as int) + seq![':'] + decimal_digits(sp.start.col as int)
            + seq!['-'] + decimal_digits(sp.end.col as int)
    } else {
        coord_text(sp.start.line as int, sp.start.col as int) + seq!['-'] + coord_text(
            sp.end.line as int,
            sp.end.col as int,
        )
    }
}

/// The character for the decimal digit `d`.
fn digit_to_char(d: usize) -> (c: char)
    requires
        d < 10,
    ensures
        c == digit_char_of(d as int),
{
    match d {
        0 => '0',
        1 => '1',
        2 => '2',
        3 => '3',
        4 => '4',
        5 => '5',
        6 => '6',
        7 => '7',
        8 => '8',
        _ => '9',
    }
}

/// Append the decimal digits of `n` to `out`.
fn push_decimal(out: &mut String, n: usize)
    ensures
        final (out)@ == old(out)@ + decimal_digits(n as int),
    decreases n,
{
    if n >= 10 {
        push_decimal(out, n / 10);
    }
    let d = digit_to_char(n % 10);
    out.push(d);
    proof {
        if n < 10 {
            assert(old(out)@ + decimal_digits(n as int) =~= old(out)@.push(
                digit_char_of(n as int),
            ));
        } else {
            assert(old(out)@ + decimal_digits(n as int) =~= (old(out)@ + decimal_digits(
                n as int / 10,
            )).push(digit_char_of(n as int % 10)));
        }
    }
}

impl Coordinate {
    /// The `line:col` diagnostic text of the position.
    pub fn render(&self) -> (r: String)
        ensures
            r@ == coord_text(self.line as int, self.col as int),
    {
        let mut out = String::new();
        push_decimal(&mut out, self.line);
        out.push(':');
        push_decimal(&mut out, self.col);
        proof {
            assert(out@ =~= coord_text(self.line as int, self.col as int));
        }
        out
    }
}

impl Span {
    /// The diagnostic text of the span; this rendering is the stable format
    /// that error messages rely on.
    pub fn render(&self) -> (r: String)
        ensures
            r@ == span_text(*self),
    {
        let mut out = String::new();
        push_decimal(&mut out, self.start.line);
        out.push(':');
        push_decimal(&mut out, self.start.col);
        out.push('-');
        if self.start.line == self.end.line {
            push_decimal(&mut out, self.end.col);
        } else {
            push_decimal(&mut out, self.end.line);
            out.push(':');
            push_decimal(&mut out, self.end.col);
        }
        proof {
            assert(out@ =~= span_text(*self));
        }
        out
    }
}

impl Span {
    /// Build a Span from its start and the line/column distance to its end.
    pub fn from_coord(start: Coordinate, delta_line: usize, delta_col: usize) -> (r: Self)
        requires
            start.line + delta_line <= usize::MAX,
            start.col + delta_col <= usize::MAX,
        ensures
            r.start == start,
            r.end.line == start.line + delta_line,
            r.end.col == start.col + delta_col,
    {
        let end = Coordinate { line: start.line + delta_line, col: start.col + delta_col };
        Span { start, end }
    }
}

} // verus!
