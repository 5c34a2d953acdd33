//! The mathematical model of the lexer.
//!
//! Everything the executable tokenizer does is specified here as spec
//! functions over the source text as a `Seq<char>`: character classes, the
//! maximal-run scans, the keyword and punctuation tables, the quotation
//! scan, and the single-step dispatch [`step`] that resolves which pattern
//! wins at a given offset.  [`step`] is a function of the text and offset
//! alone, so the contracts it appears in pin the tokenizer's output
//! completely.

use vstd::prelude::*;
use crate::tokens::{TokenType, TokenShape, spec_double_token};

verus! {

/// Whitespace skipped between tokens: space, tab, newline.
pub open spec fn is_ws(c: char) -> bool {
    c == ' ' || c == '\t' || c == '\n'
}

/// A word character: letter, digit or underscore.  Maximal runs of word
/// characters form keywords, identifiers and numeric constants, and a token
/// made of word characters must end at a word boundary.
pub open spec fn is_word(c: char) -> bool {
    ('a' as u32 <= c as u32 && c as u32 <= 'z' as u32)
    || ('A' as u32 <= c as u32 && c as u32 <= 'Z' as u32)
    || ('0' as u32 <= c as u32 && c as u32 <= '9' as u32)
    || c == '_'
}

/// A character that may start an identifier: letter or underscore.
pub open spec fn is_ident_start(c: char) -> bool {
    ('a' as u32 <= c as u32 && c as u32 <= 'z' as u32)
    || ('A' as u32 <= c as u32 && c as u32 <= 'Z' as u32)
    || c == '_'
}

/// A decimal digit.
pub open spec fn is_digit(c: char) -> bool {
    '0' as u32 <= c as u32 && c as u32 <= '9' as u32
}

/// Every character of `s` is a decimal digit.
pub open spec fn all_digits(s: Seq<char>) -> bool {
    forall|k: int| 0 <= k < s.len() ==> is_digit(#[trigger] s[k])
}

/// Index of the first non-whitespace character at or after `i` (or the
/// length of `s` if only whitespace remains).
pub open spec fn ws_end(s: Seq<char>, i: int) -> int
    decreases s.len() - i when 0 <= i <= s.len()
{
    if i >= s.len() || !is_ws(s[i]) {
        i
    } else {
        ws_end(s, i + 1)
    }
}

/// Index just past the maximal run of word characters starting at `i`.
pub open spec fn word_run_end(s: Seq<char>, i: int) -> int
    decreases s.len() - i when 0 <= i <= s.len()
{
    if i >= s.len() || !is_word(s[i]) {
        i
    } else {
        word_run_end(s, i + 1)
    }
}

/// The keyword table: maps the text of each keyword to its token category,
/// and every other text to `None`.
pub open spec fn keyword_of(r: Seq<char>) -> Option<TokenType> {
    if r == "unsigned"@ { Some(TokenType::Unsigned) }
    else if r == "signed"@ { Some(TokenType::Signed) }
    else if r == "char"@ { Some(TokenType::KWChar) }
    else if r == "short"@ { Some(TokenType::KWShort) }
    else if r == "int"@ { Some(TokenType::KWInt) }
    else if r == "long"@ { Some(TokenType::KWLong) }
    else if r == "float"@ { Some(TokenType::KWFloat) }
    else if r == "double"@ { Some(TokenType::KWDouble) }
    else if r == "_Bool"@ { Some(TokenType::KWBool) }
    else if r == "struct"@ { Some(TokenType::Struct) }
    else if r == "enum"@ { Some(TokenType::Enum) }
    else if r == "union"@ { Some(TokenType::Union) }
    else if r == "static"@ { Some(TokenType::Static) }
    else if r == "extern"@ { Some(TokenType::Extern) }
    else if r == "typedef"@ { Some(TokenType::Typedef) }
    else if r == "void"@ { Some(TokenType::Void) }
    else if r == "const"@ { Some(TokenType::Const) }
    else if r == "if"@ { Some(TokenType::If) }
    else if r == "else"@ { Some(TokenType::Else) }
    else if r == "switch"@ { Some(TokenType::Switch) }
    else if r == "case"@ { Some(TokenType::Case) }
    else if r == "default"@ { Some(TokenType::Default) }
    else if r == "goto"@ { Some(TokenType::Goto) }
    else if r == "do"@ { Some(TokenType::Do) }
    else if r == "for"@ { Some(TokenType::For) }
    else if r == "while"@ { Some(TokenType::While) }
    else if r == "continue"@ { Some(TokenType::Continue) }
    else if r == "break"@ { Some(TokenType::Break) }
    else if r == "return"@ { Some(TokenType::Return) }
    else { None }
}

/// The single-character punctuation table.  The quote delimiters are not
/// here: dispatch hands them to the quotation scan before punctuation is
/// ever tried.
pub open spec fn punct_of(c: char) -> Option<TokenType> {
    if c == ',' { Some(TokenType::Comma) }
    else if c == ';' { Some(TokenType::Semicolon) }
    else if c == ':' { Some(TokenType::Colon) }
    else if c == '!' { Some(TokenType::Bang) }
    else if c == '*' { Some(TokenType::Star) }
    else if c == '+' { Some(TokenType::Plus) }
    else if c == '-' { Some(TokenType::Dash) }
    else if c == '/' { Some(TokenType::Slash) }
    else if c == '&' { Some(TokenType::Ampersand) }
    else if c == '|' { Some(TokenType::Pipe) }
    else if c == '=' { Some(TokenType::Equals) }
    else if c == '(' { Some(TokenType::LeftParen) }
    else if c == ')' { Some(TokenType::RightParen) }
    else if c == '{' { Some(TokenType::LeftBrace) }
    else if c == '}' { Some(TokenType::RightBrace) }
    else if c == '[' { Some(TokenType::LeftBrkt) }
    else if c == ']' { Some(TokenType::RightBrkt) }
    else if c == '<' { Some(TokenType::LeftCarat) }
    else if c == '>' { Some(TokenType::RightCarat) }
    else { None }
}

/// Index of the closing delimiter `d` for a literal whose content starts at
/// `j`, or `None` if the input ends first.  A backslash escapes the
/// following character: that character is part of the content and is never
/// tested as a terminator.
pub open spec fn close_idx(s: Seq<char>, j: int, d: char) -> Option<int>
    decreases s.len() - j when 0 <= j <= s.len()
{
    if j >= s.len() {
        None
    } else if s[j] == d {
        Some(j)
    } else if s[j] == '\\' {
        if j + 1 >= s.len() {
            None
        } else {
            close_idx(s, j + 2, d)
        }
    } else {
        close_idx(s, j + 1, d)
    }
}

/// What an escape sequence `\c` decodes to: `\n` and `\t` become the
/// control characters, any other escaped character stands for itself
/// (covering `\"`, `\'` and `\\`).
pub open spec fn unescaped(c: char) -> char {
    if c == 'n' { '\n' } else if c == 't' { '\t' } else { c }
}

/// The decoded content of the literal text `s[from..to]`: each backslash
/// and its following character decode to one character, every other
/// character stands for itself.
pub open spec fn decoded(s: Seq<char>, from: int, to: int) -> Seq<char>
    decreases to - from when from <= to <= s.len()
{
    if from < 0 || from >= to {
        Seq::empty()
    } else if s[from] == '\\' && from + 1 < to {
        seq![unescaped(s[from + 1])] + decoded(s, from + 2, to)
    } else {
        seq![s[from]] + decoded(s, from + 1, to)
    }
}

/// Some token pattern matches at offset `j`: a quote delimiter, a
/// punctuation character, or a run of word characters that forms a keyword,
/// an identifier or a constant.
pub open spec fn token_starts_at(s: Seq<char>, j: int) -> bool {
    j < s.len() && {
        let c = s[j];
        ||| c == '"' || c == '\''
        ||| punct_of(c) is Some
        ||| (is_word(c) && word_token_at(s, j))
    }
}

/// The maximal word run starting at `j` forms a token: a keyword, an
/// identifier (first character a letter or underscore), or a constant (all
/// digits).  A mixed run such as `1x` forms none.
pub open spec fn word_token_at(s: Seq<char>, j: int) -> bool {
    let r = s.subrange(j, word_run_end(s, j));
    keyword_of(r) is Some || is_ident_start(s[j]) || all_digits(r)
}

/// Index just past the maximal unrecognized run that starts at `i`: the run
/// always takes the character at `i` and then extends until whitespace, a
/// recognized token start, or the end of the input.
pub open spec fn unknown_end(s: Seq<char>, i: int) -> int {
    unknown_end_from(s, i + 1)
}

/// Helper for [`unknown_end`]: first index at or after `j` where the
/// unrecognized run must stop.
pub open spec fn unknown_end_from(s: Seq<char>, j: int) -> int
    decreases s.len() - j when 0 <= j <= s.len()
{
    if j >= s.len() || is_ws(s[j]) || token_starts_at(s, j) {
        j
    } else {
        unknown_end_from(s, j + 1)
    }
}

/// The outcome of one dispatch at a given offset, abstractly: what was
/// recognized and how many characters it consumes.
pub enum LexStep {
    /// The offset is at the end of the input.
    Eof,
    /// A token was recognized; `shape` is its category and text, `n` the
    /// number of characters it spans in the source.
    Lexed { shape: TokenShape, n: int },
    /// No pattern matched; `text` is the maximal unrecognized run, which is
    /// consumed for recovery.
    Unknown { text: Seq<char> },
    /// A quoted literal was opened but the input ended before its closing
    /// delimiter; everything to the end of the input is consumed.
    Unterminated,
    /// A char literal whose content does not decode to exactly one
    /// character; `n` is the full extent of the literal, which is consumed.
    BadCharLit { n: int },
}

/// One dispatch of the tokenizer at offset `j`, which must not point at
/// whitespace.  The priority order is fixed: a quote delimiter always hands
/// off to the quotation scan; then keywords win over identifiers and
/// constants at the same offset (all share the word-run shape, so they are
/// resolved together from the maximal word run); then punctuation, with a
/// doubled operator winning over its single-character prefix; and if
/// nothing matches the offset starts an unrecognized run.
pub open spec fn step(s: Seq<char>, j: int) -> LexStep {
    if j >= s.len() {
        LexStep::Eof
    } else {
        let c = s[j];
        if c == '"' || c == '\'' {
            match close_idx(s, j + 1, c) {
                None => LexStep::Unterminated,
                Some(e) => {
                    let content = decoded(s, j + 1, e);
                    if c == '\'' && content.len() != 1 {
                        LexStep::BadCharLit { n: e + 1 - j }
                    } else {
                        LexStep::Lexed { shape: TokenShape::Constant(content), n: e + 1 - j }
                    }
                },
            }
        } else if is_word(c) {
            let e = word_run_end(s, j);
            let r = s.subrange(j, e);
            match keyword_of(r) {
                Some(t) => LexStep::Lexed { shape: TokenShape::Fixed(t), n: e - j },
                None => {
                    if is_ident_start(c) {
                        LexStep::Lexed { shape: TokenShape::Ident(r), n: e - j }
                    } else if all_digits(r) {
                        LexStep::Lexed { shape: TokenShape::Constant(r), n: e - j }
                    } else {
                        LexStep::Unknown { text: s.subrange(j, unknown_end(s, j)) }
                    }
                },
            }
        } else {
            match punct_of(c) {
                Some(t) => {
                    if j + 1 < s.len() && s[j + 1] == c && spec_double_token(t) is Some {
                        LexStep::Lexed {
                            shape: TokenShape::Fixed(spec_double_token(t)->Some_0),
                            n: 2,
                        }
                    } else {
                        LexStep::Lexed { shape: TokenShape::Fixed(t), n: 1 }
                    }
                },
                None => LexStep::Unknown { text: s.subrange(j, unknown_end(s, j)) },
            }
        }
    }
}

/// How many characters the dispatch at `j` consumes.
pub open spec fn step_len(s: Seq<char>, j: int) -> int {
    match step(s, j) {
        LexStep::Eof => 0,
        LexStep::Lexed { shape, n } => n,
        LexStep::Unknown { text } => text.len() as int,
        LexStep::Unterminated => s.len() - j,
        LexStep::BadCharLit { n } => n,
    }
}

/// The offset reached by one `next_token` call starting at offset `i`:
/// whitespace is skipped, then the dispatched pattern is consumed.
pub open spec fn call_end(s: Seq<char>, i: int) -> int {
    ws_end(s, i) + step_len(s, ws_end(s, i))
}

/// Skipping whitespace stays within the text.
pub proof fn lemma_ws_end_bounds(s: Seq<char>, i: int)
    requires
        0 <= i <= s.len(),
    ensures
        i <= ws_end(s, i) <= s.len(),
    decreases s.len() - i,
{
    if i < s.len() && is_ws(s[i]) {
        lemma_ws_end_bounds(s, i + 1);
    }
}

/// A word run stays within the text.
pub proof fn lemma_word_run_end_bounds(s: Seq<char>, i: int)
    requires
        0 <= i <= s.len(),
    ensures
        i <= word_run_end(s, i) <= s.len(),
    decreases s.len() - i,
{
    if i < s.len() && is_word(s[i]) {
        lemma_word_run_end_bounds(s, i + 1);
    }
}

/// An unrecognized run stays within the text.
pub proof fn lemma_unknown_end_from_bounds(s: Seq<char>, j: int)
    requires
        0 <= j <= s.len(),
    ensures
        j <= unknown_end_from(s, j) <= s.len(),
    decreases s.len() - j,
{
    if j < s.len() && !is_ws(s[j]) && !token_starts_at(s, j) {
        lemma_unknown_end_from_bounds(s, j + 1);
    }
}

/// A closing delimiter, when found, lies within the text at or after the
/// content start.
pub proof fn lemma_close_idx_bounds(s: Seq<char>, j: int, d: char)
    requires
        0 <= j <= s.len(),
    ensures
        close_idx(s, j, d) matches Some(e) ==> j <= e < s.len(),
    decreases s.len() - j,
{
    if j < s.len() && s[j] != d {
        if s[j] == '\\' {
            if j + 1 < s.len() {
                lemma_close_idx_bounds(s, j + 2, d);
            }
        } else {
            lemma_close_idx_bounds(s, j + 1, d);
        }
    }
}

/// Away from the end of the input, one dispatch consumes at least one and
/// at most all of the remaining characters; at the end it consumes none.
pub proof fn lemma_step_len_bounds(s: Seq<char>, j: int)
    requires
        0 <= j <= s.len(),
    ensures
        j == s.len() ==> step_len(s, j) == 0,
        j < s.len() ==> 1 <= step_len(s, j) && j + step_len(s, j) <= s.len(),
    decreases s.len() - j,
{
    if j < s.len() {
        let c = s[j];
        if c == '"' || c == '\'' {
            lemma_close_idx_bounds(s, j + 1, c);
        } else if is_word(c) {
            lemma_word_run_end_bounds(s, j + 1);
            if (step(s, j) matches LexStep::Unknown { .. }) {
                lemma_unknown_end_from_bounds(s, j + 1);
            }
        } else {
            if (step(s, j) matches LexStep::Unknown { .. }) {
                lemma_unknown_end_from_bounds(s, j + 1);
            }
        }
    }
}

/// One `next_token` call never moves the cursor backwards, never past the
/// end, and always makes progress while input remains.
pub proof fn lemma_call_end_bounds(s: Seq<char>, i: int)
    requires
        0 <= i <= s.len(),
    ensures
        i <= call_end(s, i) <= s.len(),
        i < s.len() ==> i < call_end(s, i),
    decreases s.len() - i,
{
    lemma_ws_end_bounds(s, i);
    lemma_step_len_bounds(s, ws_end(s, i));
}

/// The consumed spans of a whole tokenizing run from offset `i`: each
/// element is the half-open offset range one `next_token` call consumes
/// (whitespace, token or offending characters together); the call that
/// reports the end of the input or an unterminated literal closes the run
/// at the end of the text.
pub open spec fn segs(s: Seq<char>, i: int) -> Seq<(int, int)>
    decreases s.len() - i when 0 <= i <= s.len() via segs_dec
{
    if i >= s.len() || step(s, ws_end(s, i)) is Eof {
        seq![(i, s.len() as int)]
    } else {
        seq![(i, call_end(s, i))] + segs(s, call_end(s, i))
    }
}

#[via_fn]
proof fn segs_dec(s: Seq<char>, i: int) {
    lemma_call_end_bounds(s, i);
}

/// Total coverage: the consumed spans of a whole run from offset `i` tile
/// the text exactly once — the first starts at `i`, each next one starts
/// where the previous ended (no gap, no overlap), and the last ends at the
/// end of the text.
pub proof fn lemma_segs_cover(s: Seq<char>, i: int)
    requires
        0 <= i <= s.len(),
    ensures
        segs(s, i).len() > 0,
        segs(s, i)[0].0 == i,
        segs(s, i).last().1 == s.len(),
        forall|k: int|
            0 <= k < segs(s, i).len() ==> i <= (#[trigger] segs(s, i)[k]).0 <= segs(s, i)[k].1
                <= s.len(),
        forall|k: int|
            0 <= k < segs(s, i).len() - 1 ==> (#[trigger] segs(s, i)[k]).1 == segs(s, i)[k + 1].0,
    decreases s.len() - i,
{
    lemma_call_end_bounds(s, i);
    if i >= s.len() || step(s, ws_end(s, i)) is Eof {
    } else {
        let ce = call_end(s, i);
        lemma_segs_cover(s, ce);
        let pre = seq![(i, ce)];
        let rest = segs(s, ce);
        assert(segs(s, i) == pre + rest);
        assert(segs(s, i).last() == rest.last());
        assert forall|k: int|
            0 <= k < segs(s, i).len() implies i <= (#[trigger] segs(s, i)[k]).0 <= segs(
            s,
            i,
        )[k].1 <= s.len() by {
            if k >= 1 {
                assert(segs(s, i)[k] == rest[k - 1]);
            }
        }
        assert forall|k: int|
            0 <= k < segs(s, i).len() - 1 implies (#[trigger] segs(s, i)[k]).1 == segs(s, i)[k
            + 1].0 by {
            if k == 0 {
                assert(segs(s, i)[0] == pre[0]);
                assert(segs(s, i)[1] == rest[0]);
            } else {
                assert(segs(s, i)[k] == rest[k - 1]);
                assert(segs(s, i)[k + 1] == rest[k]);
            }
        }
    }
}

/// Determinism: what one `next_token` call skips, recognizes and consumes
/// is a function of the text and the starting offset alone.  Since
/// `next_token`'s contract pins its result and new offset to these
/// functions, two fresh tokenizers over equal text produce identical token
/// sequences and identical error sequences.
pub proof fn lemma_deterministic(s1: Seq<char>, s2: Seq<char>, i1: int, i2: int)
    requires
        s1 == s2,
        i1 == i2,
    ensures
        ws_end(s1, i1) == ws_end(s2, i2),
        step(s1, ws_end(s1, i1)) == step(s2, ws_end(s2, i2)),
        call_end(s1, i1) == call_end(s2, i2),
        segs(s1, i1) == segs(s2, i2),
{
}

} // verus!
