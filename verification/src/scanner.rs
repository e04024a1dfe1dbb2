//! The scanner: lexes source text into a lazy sequence of tokens.
//!
//! The scanner walks an immutable byte buffer in one forward pass and hands
//! out one token per call, tracking the current line.  It never aborts: an
//! unterminated string or an unrecognized byte yields an `ERROR` token
//! carrying a message, and the caller decides how to react.
//!
//! Every step of the scanner is modelled by a specification function over
//! the source bytes (`spec_scan_token` and its helpers), and `scan_token` is
//! proved to return exactly the token that model describes.

use vstd::prelude::*;

verus! {

/// The kind of a token.
#[allow(non_camel_case_types)]
#[derive(Clone, Copy, PartialEq, Eq, Structural, Debug)]
pub enum TokenType {
    LEFT_PAREN,
    RIGHT_PAREN,
    LEFT_BRACE,
    RIGHT_BRACE,
    COMMA,
    DOT,
    SLASH,
    STAR,
    PLUS,
    MINUS,
    SEMICOLON,
    NOT,
    NOT_EQUAL,
    LESS,
    LESS_EQUAL,
    EQUAL,
    EQUAL_EQUAL,
    GREATER,
    GREATER_EQUAL,
    IDENTIFIER,
    STRING,
    NUMBER,
    TRUE,
    FALSE,
    AND,
    OR,
    NIL,
    WHILE,
    FOR,
    CLASS,
    IF,
    ELSE,
    RETURN,
    VAR,
    SUPER,
    THIS,
    FUN,
    PRINT,
    EOF,
    ERROR,
}

/// The mathematical model of a token: its kind, its position in the source
/// buffer, its lexeme, and (for `ERROR` tokens) a message.
pub struct TokenModel {
    pub type_: TokenType,
    pub line: int,
    pub start: int,
    pub len: int,
    pub text: Seq<u8>,
    pub message: Seq<char>,
}

/// One step of the scanner model: the token produced, and the position and
/// line the scanner is left at.
pub struct ScanStep {
    pub tok: TokenModel,
    pub pos: int,
    pub line: int,
}

/// Whether a byte is an ASCII decimal digit.
pub open spec fn is_digit_byte(c: u8) -> bool {
    '0' as u8 <= c && c <= '9' as u8
}

/// Whether a byte starts an identifier: an ASCII letter or an underscore.
pub open spec fn is_alpha_byte(c: u8) -> bool {
    ('a' as u8 <= c && c <= 'z' as u8) || ('A' as u8 <= c && c <= 'Z' as u8) || c == '_' as u8
}

/// Whether a byte may continue an identifier.
pub open spec fn is_alnum_byte(c: u8) -> bool {
    is_digit_byte(c) || is_alpha_byte(c)
}

/// The position just past a line comment that starts at `pos`: the next
/// newline, or the end of the buffer.
pub open spec fn spec_skip_comment(src: Seq<u8>, pos: int) -> int
    decreases src.len() - pos,
{
    if pos < 0 || pos >= src.len() || src[pos] == '\n' as u8 {
        pos
    } else {
        spec_skip_comment(src, pos + 1)
    }
}

pub proof fn lemma_skip_comment_bounds(src: Seq<u8>, pos: int)
    requires
        0 <= pos <= src.len(),
    ensures
        pos <= spec_skip_comment(src, pos) <= src.len(),
        pos < src.len() && src[pos] != '\n' as u8 ==> spec_skip_comment(src, pos) > pos,
    decreases src.len() - pos,
{
    if pos < src.len() && src[pos] != '\n' as u8 {
        lemma_skip_comment_bounds(src, pos + 1);
    }
}

/// The position and line after skipping whitespace and line comments.
pub open spec fn spec_skip_ws(src: Seq<u8>, pos: int, line: int) -> (int, int)
    decreases src.len() - pos,
    via spec_skip_ws_decreases
{
    if pos < 0 || pos >= src.len() {
        (pos, line)
    } else {
        let c = src[pos];
        if c == ' ' as u8 || c == '\r' as u8 || c == '\t' as u8 {
            spec_skip_ws(src, pos + 1, line)
        } else if c == '\n' as u8 {
            spec_skip_ws(src, pos + 1, line + 1)
        } else if c == '/' as u8 && pos + 1 < src.len() && src[pos + 1] == '/' as u8 {
            spec_skip_ws(src, spec_skip_comment(src, pos), line)
        } else {
            (pos, line)
        }
    }
}

#[via_fn]
proof fn spec_skip_ws_decreases(src: Seq<u8>, pos: int, line: int) {
    if 0 <= pos && pos < src.len() {
        lemma_skip_comment_bounds(src, pos);
    }
}

pub proof fn lemma_skip_ws_bounds(src: Seq<u8>, pos: int, line: int)
    requires
        0 <= pos <= src.len(),
    ensures
        pos <= spec_skip_ws(src, pos, line).0 <= src.len(),
        spec_skip_ws(src, pos, line).1 <= line + (spec_skip_ws(src, pos, line).0 - pos),
        line <= spec_skip_ws(src, pos, line).1,
    decreases src.len() - pos,
{
    if pos < src.len() {
        let c = src[pos];
        if c == ' ' as u8 || c == '\r' as u8 || c == '\t' as u8 {
            lemma_skip_ws_bounds(src, pos + 1, line);
        } else if c == '\n' as u8 {
            lemma_skip_ws_bounds(src, pos + 1, line + 1);
        } else if c == '/' as u8 && pos + 1 < src.len() && src[pos + 1] == '/' as u8 {
            lemma_skip_comment_bounds(src, pos);
            lemma_skip_ws_bounds(src, spec_skip_comment(src, pos), line);
        }
    }
}

/// The position just past a run of decimal digits starting at `pos`.
pub open spec fn spec_digits_end(src: Seq<u8>, pos: int) -> int
    decreases src.len() - pos,
{
    if pos < 0 || pos >= src.len() || !is_digit_byte(src[pos]) {
        pos
    } else {
        spec_digits_end(src, pos + 1)
    }
}

pub proof fn lemma_digits_end_bounds(src: Seq<u8>, pos: int)
    requires
        0 <= pos <= src.len(),
    ensures
        pos <= spec_digits_end(src, pos) <= src.len(),
    decreases src.len() - pos,
{
    if pos < src.len() && is_digit_byte(src[pos]) {
        lemma_digits_end_bounds(src, pos + 1);
    }
}

/// The position just past a numeric literal that starts at `pos`: digits,
/// optionally followed by a single decimal point and more digits.
pub open spec fn spec_number_end(src: Seq<u8>, pos: int) -> int {
    let p = spec_digits_end(src, pos);
    if 0 <= p && p + 1 < src.len() && src[p] == '.' as u8 && is_digit_byte(src[p + 1]) {
        spec_digits_end(src, p + 2)
    } else {
        p
    }
}

pub proof fn lemma_number_end_bounds(src: Seq<u8>, pos: int)
    requires
        0 <= pos <= src.len(),
    ensures
        pos <= spec_number_end(src, pos) <= src.len(),
{
    lemma_digits_end_bounds(src, pos);
    let p = spec_digits_end(src, pos);
    if 0 <= p && p + 1 < src.len() && src[p] == '.' as u8 && is_digit_byte(src[p + 1]) {
        lemma_digits_end_bounds(src, p + 2);
    }
}

/// The position of the closing quote of a string literal whose content
/// starts at `pos` (or the end of the buffer if unterminated), with the line
/// count advanced over the newlines inside.
pub open spec fn spec_string_end(src: Seq<u8>, pos: int, line: int) -> (int, int)
    decreases src.len() - pos,
{
    if pos < 0 || pos >= src.len() || src[pos] == '"' as u8 {
        (pos, line)
    } else if src[pos] == '\n' as u8 {
        spec_string_end(src, pos + 1, line + 1)
    } else {
        spec_string_end(src, pos + 1, line)
    }
}

pub proof fn lemma_string_end_bounds(src: Seq<u8>, pos: int, line: int)
    requires
        0 <= pos <= src.len(),
    ensures
        pos <= spec_string_end(src, pos, line).0 <= src.len(),
        spec_string_end(src, pos, line).1 <= line + (spec_string_end(src, pos, line).0 - pos),
        line <= spec_string_end(src, pos, line).1,
    decreases src.len() - pos,
{
    if pos < src.len() && src[pos] != '"' as u8 {
        if src[pos] == '\n' as u8 {
            lemma_string_end_bounds(src, pos + 1, line + 1);
        } else {
            lemma_string_end_bounds(src, pos + 1, line);
        }
    }
}

/// The position just past an identifier that starts at `pos`.
pub open spec fn spec_ident_end(src: Seq<u8>, pos: int) -> int
    decreases src.len() - pos,
{
    if pos < 0 || pos >= src.len() || !is_alnum_byte(src[pos]) {
        pos
    } else {
        spec_ident_end(src, pos + 1)
    }
}

pub proof fn lemma_ident_end_bounds(src: Seq<u8>, pos: int)
    requires
        0 <= pos <= src.len(),
    ensures
        pos <= spec_ident_end(src, pos) <= src.len(),
    decreases src.len() - pos,
{
    if pos < src.len() && is_alnum_byte(src[pos]) {
        lemma_ident_end_bounds(src, pos + 1);
    }
}

/// The token kind of an identifier lexeme: a reserved keyword where the
/// lexeme matches one exactly, an ordinary identifier otherwise.
pub open spec fn spec_keyword(t: Seq<u8>) -> TokenType {
    if t.len() == 2 && t[0] == 'i' as u8 && t[1] == 'f' as u8 {
        TokenType::IF
    } else if t.len() == 2 && t[0] == 'o' as u8 && t[1] == 'r' as u8 {
        TokenType::OR
    } else if t.len() == 3 && t[0] == 'a' as u8 && t[1] == 'n' as u8 && t[2] == 'd' as u8 {
        TokenType::AND
    } else if t.len() == 3 && t[0] == 'n' as u8 && t[1] == 'i' as u8 && t[2] == 'l' as u8 {
        TokenType::NIL
    } else if t.len() == 3 && t[0] == 'v' as u8 && t[1] == 'a' as u8 && t[2] == 'r' as u8 {
        TokenType::VAR
    } else if t.len() == 3 && t[0] == 'f' as u8 && t[1] == 'o' as u8 && t[2] == 'r' as u8 {
        TokenType::FOR
    } else if t.len() == 3 && t[0] == 'f' as u8 && t[1] == 'u' as u8 && t[2] == 'n' as u8 {
        TokenType::FUN
    } else if t.len() == 4 && t[0] == 'e' as u8 && t[1] == 'l' as u8 && t[2] == 's' as u8 && t[3]
        == 'e' as u8 {
        TokenType::ELSE
    } else if t.len() == 4 && t[0] == 't' as u8 && t[1] == 'h' as u8 && t[2] == 'i' as u8 && t[3]
        == 's' as u8 {
        TokenType::THIS
    } else if t.len() == 4 && t[0] == 't' as u8 && t[1] == 'r' as u8 && t[2] == 'u' as u8 && t[3]
        == 'e' as u8 {
        TokenType::TRUE
    } else if t.len() == 5 && t[0] == 'c' as u8 && t[1] == 'l' as u8 && t[2] == 'a' as u8 && t[3]
        == 's' as u8 && t[4] == 's' as u8 {
        TokenType::CLASS
    } else if t.len() == 5 && t[0] == 's' as u8 && t[1] == 'u' as u8 && t[2] == 'p' as u8 && t[3]
        == 'e' as u8 && t[4] == 'r' as u8 {
        TokenType::SUPER
    } else if t.len() == 5 && t[0] == 'w' as u8 && t[1] == 'h' as u8 && t[2] == 'i' as u8 && t[3]
        == 'l' as u8 && t[4] == 'e' as u8 {
        TokenType::WHILE
    } else if t.len() == 5 && t[0] == 'f' as u8 && t[1] == 'a' as u8 && t[2] == 'l' as u8 && t[3]
        == 's' as u8 && t[4] == 'e' as u8 {
        TokenType::FALSE
    } else if t.len() == 5 && t[0] == 'p' as u8 && t[1] == 'r' as u8 && t[2] == 'i' as u8 && t[3]
        == 'n' as u8 && t[4] == 't' as u8 {
        TokenType::PRINT
    } else if t.len() == 6 && t[0] == 'r' as u8 && t[1] == 'e' as u8 && t[2] == 't' as u8 && t[3]
        == 'u' as u8 && t[4] == 'r' as u8 && t[5] == 'n' as u8 {
        TokenType::RETURN
    } else {
        TokenType::IDENTIFIER
    }
}

/// The model of an ordinary token covering `src[start..end)`.
pub open spec fn spec_make_token(
    src: Seq<u8>,
    type_: TokenType,
    start: int,
    end: int,
    line: int,
) -> TokenModel {
    TokenModel {
        type_,
        line,
        start,
        len: end - start,
        text: src.subrange(start, end),
        message: ""@,
    }
}

/// The model of an `ERROR` token carrying a message.
pub open spec fn spec_error_token(message: Seq<char>, line: int) -> TokenModel {
    TokenModel {
        type_: TokenType::ERROR,
        line,
        start: 0,
        len: 0,
        text: Seq::<u8>::empty(),
        message,
    }
}

/// A single-byte token at `pos`.
pub open spec fn spec_single(src: Seq<u8>, type_: TokenType, pos: int, line: int) -> ScanStep {
    ScanStep { tok: spec_make_token(src, type_, pos, pos + 1, line), pos: pos + 1, line }
}

/// A greedy two-byte token at `pos`: `with_eq` if the next byte is `=`,
/// `solo` otherwise.
pub open spec fn spec_double(
    src: Seq<u8>,
    with_eq: TokenType,
    solo: TokenType,
    pos: int,
    line: int,
) -> ScanStep {
    if pos + 1 < src.len() && src[pos + 1] == '=' as u8 {
        ScanStep { tok: spec_make_token(src, with_eq, pos, pos + 2, line), pos: pos + 2, line }
    } else {
        spec_single(src, solo, pos, line)
    }
}

/// The model of one call of `scan_token` from position `pos0` on line
/// `line0`: the token produced and the scanner state left behind.
pub open spec fn spec_scan_token(src: Seq<u8>, pos0: int, line0: int) -> ScanStep {
    let (pos, line) = spec_skip_ws(src, pos0, line0);
    if pos >= src.len() {
        ScanStep { tok: spec_make_token(src, TokenType::EOF, pos, pos, line), pos, line }
    } else {
        let c = src[pos];
        if c == '(' as u8 {
            spec_single(src, TokenType::LEFT_PAREN, pos, line)
        } else if c == ')' as u8 {
            spec_single(src, TokenType::RIGHT_PAREN, pos, line)
        } else if c == '{' as u8 {
            spec_single(src, TokenType::LEFT_BRACE, pos, line)
        } else if c == '}' as u8 {
            spec_single(src, TokenType::RIGHT_BRACE, pos, line)
        } else if c == ',' as u8 {
            spec_single(src, TokenType::COMMA, pos, line)
        } else if c == '.' as u8 {
            spec_single(src, TokenType::DOT, pos, line)
        } else if c == '-' as u8 {
            spec_single(src, TokenType::MINUS, pos, line)
        } else if c == ';' as u8 {
            spec_single(src, TokenType::SEMICOLON, pos, line)
        } else if c == '*' as u8 {
            spec_single(src, TokenType::STAR, pos, line)
        } else if c == '+' as u8 {
            spec_single(src, TokenType::PLUS, pos, line)
        } else if c == '/' as u8 {
            spec_single(src, TokenType::SLASH, pos, line)
        } else if c == '!' as u8 {
            spec_double(src, TokenType::NOT_EQUAL, TokenType::NOT, pos, line)
        } else if c == '=' as u8 {
            spec_double(src, TokenType::EQUAL_EQUAL, TokenType::EQUAL, pos, line)
        } else if c == '<' as u8 {
            spec_double(src, TokenType::LESS_EQUAL, TokenType::LESS, pos, line)
        } else if c == '>' as u8 {
            spec_double(src, TokenType::GREATER_EQUAL, TokenType::GREATER, pos, line)
        } else if c == '"' as u8 {
            let (e, l2) = spec_string_end(src, pos + 1, line);
            if e >= src.len() {
                ScanStep { tok: spec_error_token("Unterminated string"@, l2), pos: e, line: l2 }
            } else {
                ScanStep {
                    tok: spec_make_token(src, TokenType::STRING, pos, e + 1, l2),
                    pos: e + 1,
                    line: l2,
                }
            }
        } else if is_digit_byte(c) {
            let e = spec_number_end(src, pos);
            ScanStep { tok: spec_make_token(src, TokenType::NUMBER, pos, e, line), pos: e, line }
        } else if is_alpha_byte(c) {
            let e = spec_ident_end(src, pos);
            ScanStep {
                tok: spec_make_token(src, spec_keyword(src.subrange(pos, e)), pos, e, line),
                pos: e,
                line,
            }
        } else {
            ScanStep {
                tok: spec_error_token("Unexpected Character"@, line),
                pos: pos + 1,
                line,
            }
        }
    }
}

/// The scanner makes progress: it never moves backwards, never moves past
/// the end of the buffer, and any token other than `EOF` consumes at least
/// one byte.
pub proof fn lemma_scan_token_bounds(src: Seq<u8>, pos0: int, line0: int)
    requires
        0 <= pos0 <= src.len(),
    ensures
        pos0 <= spec_scan_token(src, pos0, line0).pos <= src.len(),
        spec_scan_token(src, pos0, line0).tok.type_ != TokenType::EOF ==> spec_scan_token(
            src,
            pos0,
            line0,
        ).pos > pos0,
        spec_scan_token(src, pos0, line0).line <= line0 + (spec_scan_token(src, pos0, line0).pos
            - pos0),
        line0 <= spec_scan_token(src, pos0, line0).line,
{
    lemma_skip_ws_bounds(src, pos0, line0);
    let (pos, line) = spec_skip_ws(src, pos0, line0);
    if pos < src.len() {
        let c = src[pos];
        if c == '"' as u8 {
            lemma_string_end_bounds(src, pos + 1, line);
        } else if is_digit_byte(c) {
            lemma_digits_end_bounds(src, pos + 1);
            assert(spec_digits_end(src, pos) == spec_digits_end(src, pos + 1));
            let p = spec_digits_end(src, pos);
            if 0 <= p && p + 1 < src.len() && src[p] == '.' as u8 && is_digit_byte(src[p + 1]) {
                lemma_digits_end_bounds(src, p + 2);
            }
        } else if is_alpha_byte(c) {
            lemma_ident_end_bounds(src, pos + 1);
            assert(spec_ident_end(src, pos) == spec_ident_end(src, pos + 1));
        }
    }
}

/// A token: its kind, a reference into the source buffer (start offset and
/// length), the source line it starts on, its lexeme, and (for `ERROR`
/// tokens) a message.
#[derive(Clone, Debug)]
pub struct Token {
    line: usize,
    content: Vec<u8>,
    content_len: usize,
    content_start: usize,
    type_: TokenType,
    message: &'static str,
}

impl View for Token {
    type V = TokenModel;

    closed spec fn view(&self) -> TokenModel {
        TokenModel {
            type_: self.type_,
            line: self.line as int,
            start: self.content_start as int,
            len: self.content_len as int,
            text: self.content@,
            message: self.message@,
        }
    }
}

impl Token {
    /// A fresh token owning the given lexeme bytes, with every other field
    /// at its initial value.
    pub fn init_token(content: Vec<u8>) -> (r: Self)
        ensures
            r@ == (TokenModel {
                type_: TokenType::ERROR,
                line: 0,
                start: 0,
                len: 0,
                text: content@,
                message: ""@,
            }),
    {
        Token {
            line: 0,
            content,
            content_len: 0,
            content_start: 0,
            type_: TokenType::ERROR,
            message: "",
        }
    }

    /// The source line the token starts on.
    pub fn get_line(&self) -> (r: usize)
        ensures
            r == self@.line,
    {
        self.line
    }

    /// The length of the lexeme.
    pub fn get_len(&self) -> (r: usize)
        ensures
            r == self@.len,
    {
        self.content_len
    }

    /// The start offset of the lexeme in the source buffer.
    pub fn get_start(&self) -> (r: usize)
        ensures
            r == self@.start,
    {
        self.content_start
    }

    /// The kind of the token.
    pub fn get_type(&self) -> (r: &TokenType)
        ensures
            *r == self@.type_,
    {
        &self.type_
    }

    /// The lexeme of the token.
    pub fn get_sized_content(&self) -> (r: &Vec<u8>)
        ensures
            r@ == self@.text,
    {
        &self.content
    }

    /// The message of an `ERROR` token; empty for every other kind.
    pub fn get_message(&self) -> (r: &'static str)
        ensures
            r@ == self@.message,
    {
        self.message
    }

    /// An owned copy of the token.
    pub fn duplicate(&self) -> (r: Token)
        ensures
            r@ == self@,
    {
        let r = Token {
            line: self.line,
            content: copy_bytes_range(&self.content, 0, self.content.len()),
            content_len: self.content_len,
            content_start: self.content_start,
            type_: self.type_,
            message: self.message,
        };
        proof {
            assert(r@.text =~= self@.text);
        }
        r
    }

    pub fn set_line(&mut self, line: usize)
        ensures
            final(self)@ == (TokenModel { line: line as int, ..old(self)@ }),
    {
        self.line = line;
    }

    pub fn set_len(&mut self, len: usize)
        ensures
            final(self)@ == (TokenModel { len: len as int, ..old(self)@ }),
    {
        self.content_len = len;
    }

    pub fn set_start(&mut self, start: usize)
        ensures
            final(self)@ == (TokenModel { start: start as int, ..old(self)@ }),
    {
        self.content_start = start;
    }

    pub fn set_type(&mut self, kind: TokenType)
        ensures
            final(self)@ == (TokenModel { type_: kind, ..old(self)@ }),
    {
        self.type_ = kind;
    }
}

/// Copy the bytes `v[from..to)` into a fresh vector.
pub(crate) fn copy_bytes_range(v: &Vec<u8>, from: usize, to: usize) -> (r: Vec<u8>)
    requires
        from <= to <= v@.len(),
    ensures
        r@ == v@.subrange(from as int, to as int),
{
    let mut r: Vec<u8> = Vec::new();
    let mut i: usize = from;
    while i < to
        invariant
            from <= i <= to <= v@.len(),
            r@ == v@.subrange(from as int, i as int),
        decreases to - i,
    {
        r.push(v[i]);
        i += 1;
        proof {
            assert(r@ =~= v@.subrange(from as int, i as int));
        }
    }
    r
}

/// The scanner: an immutable source buffer, the offset of the token being
/// scanned, the read position, and the current line.
pub struct Scanner {
    line: usize,
    content: Vec<u8>,
    current: usize,
    start: usize,
}

impl Scanner {
    /// The source bytes.
    pub closed spec fn src(&self) -> Seq<u8> {
        self.content@
    }

    /// The read position.
    pub closed spec fn pos(&self) -> int {
        self.current as int
    }

    /// The current line.
    pub closed spec fn line_no(&self) -> int {
        self.line as int
    }

    /// The start offset of the token being scanned.
    pub closed spec fn start_pos(&self) -> int {
        self.start as int
    }

    /// Well-formedness: the positions lie inside the buffer and the line
    /// counter cannot outrun the bytes consumed.
    pub open spec fn wf(&self) -> bool {
        &&& self.src().len() < usize::MAX
        &&& 0 <= self.start_pos() <= self.pos() <= self.src().len()
        &&& 1 <= self.line_no() <= self.pos() + 1
    }

    /// A scanner at the beginning of the given source buffer.
    pub fn init_scanner(content: Vec<u8>) -> (r: Self)
        requires
            content@.len() < usize::MAX,
        ensures
            r.wf(),
            r.src() == content@,
            r.pos() == 0,
            r.line_no() == 1,
    {
        Scanner { line: 1, content, current: 0, start: 0 }
    }

    /// Build a token of the given kind covering the bytes from `start` to
    /// the read position.
    fn make_token(&self, kind: TokenType) -> (tok: Token)
        requires
            self.wf(),
        ensures
            tok@ == spec_make_token(self.src(), kind, self.start_pos(), self.pos(), self.line_no()),
    {
        let text = copy_bytes_range(&self.content, self.start, self.current);
        let mut token = Token::init_token(text);
        token.set_type(kind);
        token.set_start(self.start);
        token.set_len(self.current - self.start);
        token.set_line(self.line);
        token
    }

    /// Build an `ERROR` token carrying the given message.
    fn error_token(&self, message: &'static str) -> (tok: Token)
        requires
            self.wf(),
        ensures
            tok@ == spec_error_token(message@, self.line_no()),
    {
        let mut token = Token::init_token(Vec::new());
        token.set_line(self.line);
        let token = Token { message, ..token };
        proof {
            assert(token@.text =~= Seq::<u8>::empty());
        }
        token
    }

    /// Whether the read position has reached the end of the buffer.
    fn is_at_end(&self) -> (r: bool)
        ensures
            r == (self.pos() >= self.src().len()),
    {
        self.current >= self.content.len()
    }

    /// Consume and return one byte.
    fn advance(&mut self) -> (c: u8)
        requires
            old(self).wf(),
            old(self).pos() < old(self).src().len(),
        ensures
            final(self).wf(),
            final(self).src() == old(self).src(),
            final(self).start_pos() == old(self).start_pos(),
            final(self).line_no() == old(self).line_no(),
            final(self).pos() == old(self).pos() + 1,
            c == old(self).src()[old(self).pos()],
    {
        let val = self.content[self.current];
        self.current += 1;
        val
    }

    /// Consume the next byte only if it equals `expected`.
    fn match_(&mut self, expected: u8) -> (r: bool)
        requires
            old(self).wf(),
        ensures
            final(self).wf(),
            final(self).src() == old(self).src(),
            final(self).start_pos() == old(self).start_pos(),
            final(self).line_no() == old(self).line_no(),
            r == (old(self).pos() < old(self).src().len() && old(self).src()[old(self).pos()]
                == expected),
            final(self).pos() == if r {
                old(self).pos() + 1
            } else {
                old(self).pos()
            },
    {
        if self.is_at_end() {
            return false;
        }
        if self.content[self.current] != expected {
            return false;
        }
        self.current += 1;
        true
    }

    /// The byte at the read position, or zero at the end of the buffer.
    fn peek_(&self) -> (c: u8)
        requires
            self.wf(),
        ensures
            c == if self.pos() < self.src().len() {
                self.src()[self.pos()]
            } else {
                0u8
            },
    {
        if self.is_at_end() {
            return 0;
        }
        self.content[self.current]
    }

    /// The byte one past the read position, or zero past the end.
    fn peek_next_(&self) -> (c: u8)
        requires
            self.wf(),
        ensures
            c == if self.pos() + 1 < self.src().len() {
                self.src()[self.pos() + 1]
            } else {
                0u8
            },
    {
        if self.current + 1 >= self.content.len() {
            return 0;
        }
        self.content[self.current + 1]
    }

    /// Skip whitespace and line comments, counting newlines.
    fn skip_white_spaces(&mut self)
        requires
            old(self).wf(),
        ensures
            final(self).wf(),
            final(self).src() == old(self).src(),
            final(self).start_pos() == old(self).start_pos(),
            (final(self).pos(), final(self).line_no()) == spec_skip_ws(
                old(self).src(),
                old(self).pos(),
                old(self).line_no(),
            ),
    {
        let ghost src = self.src();
        let ghost pos0 = self.pos();
        let ghost line0 = self.line_no();
        loop
            invariant
                self.wf(),
                self.src() == src,
                self.start_pos() == old(self).start_pos(),
                spec_skip_ws(src, pos0, line0) == spec_skip_ws(src, self.pos(), self.line_no()),
            ensures
                self.wf(),
                self.src() == src,
                self.start_pos() == old(self).start_pos(),
                spec_skip_ws(src, pos0, line0) == (self.pos(), self.line_no()),
            decreases src.len() - self.pos(),
        {
            if self.current >= self.content.len() {
                break ;
            }
            let c = self.content[self.current];
            if c == ' ' as u8 || c == '\r' as u8 || c == '\t' as u8 {
                self.current += 1;
            } else if c == '\n' as u8 {
                self.current += 1;
                self.line += 1;
            } else if c == '/' as u8 && self.current + 1 < self.content.len()
                && self.content[self.current + 1] == '/' as u8 {
                let ghost cpos = self.pos();
                let ghost line_c = self.line_no();
                proof {
                    lemma_skip_comment_bounds(src, cpos);
                }
                while self.current < self.content.len() && self.content[self.current]
                    != '\n' as u8
                    invariant
                        self.wf(),
                        self.src() == src,
                        self.start_pos() == old(self).start_pos(),
                        self.line_no() == line_c,
                        spec_skip_comment(src, cpos) == spec_skip_comment(src, self.pos()),
                        cpos <= self.pos(),
                        line_c <= cpos + 1,
                        spec_skip_ws(src, pos0, line0) == spec_skip_ws(src, cpos, line_c),
                    decreases src.len() - self.pos(),
                {
                    self.current += 1;
                }
                proof {
                    assert(spec_skip_comment(src, self.pos()) == self.pos());
                    assert(spec_skip_ws(src, cpos, self.line_no()) == spec_skip_ws(
                        src,
                        self.pos(),
                        self.line_no(),
                    ));
                }
            } else {
                break ;
            }
        }
    }

    /// Scan the remainder of a string literal; the opening quote has been
    /// consumed.
    fn string(&mut self) -> (tok: Token)
        requires
            old(self).wf(),
            old(self).start_pos() < old(self).pos(),
        ensures
            final(self).wf(),
            final(self).src() == old(self).src(),
            ({
                let (e, l2) = spec_string_end(old(self).src(), old(self).pos(), old(
                    self,
                ).line_no());
                if e >= old(self).src().len() {
                    tok@ == spec_error_token("Unterminated string"@, l2) && final(self).pos() == e
                        && final(self).line_no() == l2
                } else {
                    tok@ == spec_make_token(
                        old(self).src(),
                        TokenType::STRING,
                        old(self).start_pos(),
                        e + 1,
                        l2,
                    ) && final(self).pos() == e + 1 && final(self).line_no() == l2
                }
            }),
    {
        let ghost src = self.src();
        let ghost pos0 = self.pos();
        let ghost line0 = self.line_no();
        while self.current < self.content.len() && self.content[self.current] != '"' as u8
            invariant
                self.wf(),
                self.src() == src,
                self.start_pos() == old(self).start_pos(),
                self.start_pos() < self.pos(),
                spec_string_end(src, pos0, line0) == spec_string_end(
                    src,
                    self.pos(),
                    self.line_no(),
                ),
            decreases src.len() - self.pos(),
        {
            let is_newline = self.content[self.current] == '\n' as u8;
            self.current += 1;
            if is_newline {
                self.line += 1;
            }
        }
        proof {
            assert(spec_string_end(src, self.pos(), self.line_no()) == (
                self.pos(),
                self.line_no(),
            ));
        }
        if self.is_at_end() {
            return self.error_token("Unterminated string");
        }
        self.current += 1;
        self.make_token(TokenType::STRING)
    }

    /// Scan the remainder of a numeric literal; the first digit has been
    /// consumed.
    fn number(&mut self) -> (tok: Token)
        requires
            old(self).wf(),
            old(self).pos() == old(self).start_pos() + 1,
            is_digit_byte(old(self).src()[old(self).start_pos()]),
        ensures
            final(self).wf(),
            final(self).src() == old(self).src(),
            final(self).line_no() == old(self).line_no(),
            ({
                let e = spec_number_end(old(self).src(), old(self).start_pos());
                tok@ == spec_make_token(
                    old(self).src(),
                    TokenType::NUMBER,
                    old(self).start_pos(),
                    e,
                    old(self).line_no(),
                ) && final(self).pos() == e
            }),
    {
        let ghost src = self.src();
        let ghost start0 = self.start_pos();
        proof {
            assert(spec_digits_end(src, start0) == spec_digits_end(src, start0 + 1));
        }
        self.digits();
        proof {
            assert(self.pos() == spec_digits_end(src, start0));
        }
        if self.peek_() == '.' as u8 && is_digit_exec(self.peek_next_()) {
            self.current += 1;
            self.current += 1;
            self.digits();
        }
        self.make_token(TokenType::NUMBER)
    }

    /// Consume a run of decimal digits.
    fn digits(&mut self)
        requires
            old(self).wf(),
        ensures
            final(self).wf(),
            final(self).src() == old(self).src(),
            final(self).start_pos() == old(self).start_pos(),
            final(self).line_no() == old(self).line_no(),
            final(self).pos() == spec_digits_end(old(self).src(), old(self).pos()),
    {
        let ghost src = self.src();
        let ghost pos0 = self.pos();
        while self.current < self.content.len() && is_digit_exec(self.content[self.current])
            invariant
                self.wf(),
                self.src() == src,
                self.start_pos() == old(self).start_pos(),
                self.line_no() == old(self).line_no(),
                spec_digits_end(src, pos0) == spec_digits_end(src, self.pos()),
            decreases src.len() - self.pos(),
        {
            self.current += 1;
        }
    }

    /// Scan the remainder of an identifier or keyword; the first letter has
    /// been consumed.
    fn identifier(&mut self) -> (tok: Token)
        requires
            old(self).wf(),
            old(self).pos() == old(self).start_pos() + 1,
            is_alpha_byte(old(self).src()[old(self).start_pos()]),
        ensures
            final(self).wf(),
            final(self).src() == old(self).src(),
            final(self).line_no() == old(self).line_no(),
            ({
                let e = spec_ident_end(old(self).src(), old(self).start_pos());
                tok@ == spec_make_token(
                    old(self).src(),
                    spec_keyword(old(self).src().subrange(old(self).start_pos(), e)),
                    old(self).start_pos(),
                    e,
                    old(self).line_no(),
                ) && final(self).pos() == e
            }),
    {
        let ghost src = self.src();
        let ghost start0 = self.start_pos();
        let ghost pos0 = self.pos();
        proof {
            assert(spec_ident_end(src, start0) == spec_ident_end(src, start0 + 1));
        }
        while self.current < self.content.len() && is_alnum_exec(self.content[self.current])
            invariant
                self.wf(),
                self.src() == src,
                self.start_pos() == start0,
                self.line_no() == old(self).line_no(),
                spec_ident_end(src, pos0) == spec_ident_end(src, self.pos()),
            decreases src.len() - self.pos(),
        {
            self.current += 1;
        }
        self.make_token(self.identifier_type())
    }

    /// Decide whether the lexeme being scanned is a keyword or an ordinary
    /// identifier.
    fn identifier_type(&self) -> (r: TokenType)
        requires
            self.wf(),
            self.start_pos() < self.pos(),
        ensures
            r == spec_keyword(self.src().subrange(self.start_pos(), self.pos())),
    {
        let b = &self.content;
        let s = self.start;
        let n = self.current - self.start;
        let ghost t = self.src().subrange(self.start_pos(), self.pos());
        proof {
            assert(t.len() == n);
            assert(forall|i: int| 0 <= i < t.len() ==> t[i] == self.src()[s + i]);
        }
        let c0 = b[s];
        if n == 2 {
            if c0 == 'i' as u8 && b[s + 1] == 'f' as u8 {
                TokenType::IF
            } else if c0 == 'o' as u8 && b[s + 1] == 'r' as u8 {
                TokenType::OR
            } else {
                TokenType::IDENTIFIER
            }
        } else if n == 3 {
            if c0 == 'a' as u8 && b[s + 1] == 'n' as u8 && b[s + 2] == 'd' as u8 {
                TokenType::AND
            } else if c0 == 'n' as u8 && b[s + 1] == 'i' as u8 && b[s + 2] == 'l' as u8 {
                TokenType::NIL
            } else if c0 == 'v' as u8 && b[s + 1] == 'a' as u8 && b[s + 2] == 'r' as u8 {
                TokenType::VAR
            } else if c0 == 'f' as u8 && b[s + 1] == 'o' as u8 && b[s + 2] == 'r' as u8 {
                TokenType::FOR
            } else if c0 == 'f' as u8 && b[s + 1] == 'u' as u8 && b[s + 2] == 'n' as u8 {
                TokenType::FUN
            } else {
                TokenType::IDENTIFIER
            }
        } else if n == 4 {
            if c0 == 'e' as u8 && b[s + 1] == 'l' as u8 && b[s + 2] == 's' as u8 && b[s + 3]
                == 'e' as u8 {
                TokenType::ELSE
            } else if c0 == 't' as u8 && b[s + 1] == 'h' as u8 && b[s + 2] == 'i' as u8 && b[s + 3]
                == 's' as u8 {
                TokenType::THIS
            } else if c0 == 't' as u8 && b[s + 1] == 'r' as u8 && b[s + 2] == 'u' as u8 && b[s + 3]
                == 'e' as u8 {
                TokenType::TRUE
            } else {
                TokenType::IDENTIFIER
            }
        } else if n == 5 {
            if c0 == 'c' as u8 && b[s + 1] == 'l' as u8 && b[s + 2] == 'a' as u8 && b[s + 3]
                == 's' as u8 && b[s + 4] == 's' as u8 {
                TokenType::CLASS
            } else if c0 == 's' as u8 && b[s + 1] == 'u' as u8 && b[s + 2] == 'p' as u8 && b[s + 3]
                == 'e' as u8 && b[s + 4] == 'r' as u8 {
                TokenType::SUPER
            } else if c0 == 'w' as u8 && b[s + 1] == 'h' as u8 && b[s + 2] == 'i' as u8 && b[s + 3]
                == 'l' as u8 && b[s + 4] == 'e' as u8 {
                TokenType::WHILE
            } else if c0 == 'f' as u8 && b[s + 1] == 'a' as u8 && b[s + 2] == 'l' as u8 && b[s + 3]
                == 's' as u8 && b[s + 4] == 'e' as u8 {
                TokenType::FALSE
            } else if c0 == 'p' as u8 && b[s + 1] == 'r' as u8 && b[s + 2] == 'i' as u8 && b[s + 3]
                == 'n' as u8 && b[s + 4] == 't' as u8 {
                TokenType::PRINT
            } else {
                TokenType::IDENTIFIER
            }
        } else if n == 6 {
            if c0 == 'r' as u8 && b[s + 1] == 'e' as u8 && b[s + 2] == 't' as u8 && b[s + 3]
                == 'u' as u8 && b[s + 4] == 'r' as u8 && b[s + 5] == 'n' as u8 {
                TokenType::RETURN
            } else {
                TokenType::IDENTIFIER
            }
        } else {
            TokenType::IDENTIFIER
        }
    }

    /// Produce the next token, advancing the scanner past it.
    pub fn scan_token(&mut self) -> (tok: Token)
        requires
            old(self).wf(),
        ensures
            final(self).wf(),
            final(self).src() == old(self).src(),
            ({
                let r = spec_scan_token(old(self).src(), old(self).pos(), old(self).line_no());
                tok@ == r.tok && final(self).pos() == r.pos && final(self).line_no() == r.line
            }),
    {
        let ghost src = self.src();
        let ghost pos0 = self.pos();
        let ghost line0 = self.line_no();
        self.skip_white_spaces();
        self.start = self.current;
        if self.is_at_end() {
            return self.make_token(TokenType::EOF);
        }
        let c = self.advance();
        if c == '(' as u8 {
            self.make_token(TokenType::LEFT_PAREN)
        } else if c == ')' as u8 {
            self.make_token(TokenType::RIGHT_PAREN)
        } else if c == '{' as u8 {
            self.make_token(TokenType::LEFT_BRACE)
        } else if c == '}' as u8 {
            self.make_token(TokenType::RIGHT_BRACE)
        } else if c == ',' as u8 {
            self.make_token(TokenType::COMMA)
        } else if c == '.' as u8 {
            self.make_token(TokenType::DOT)
        } else if c == '-' as u8 {
            self.make_token(TokenType::MINUS)
        } else if c == ';' as u8 {
            self.make_token(TokenType::SEMICOLON)
        } else if c == '*' as u8 {
            self.make_token(TokenType::STAR)
        } else if c == '+' as u8 {
            self.make_token(TokenType::PLUS)
        } else if c == '/' as u8 {
            self.make_token(TokenType::SLASH)
        } else if c == '!' as u8 {
            if self.match_('=' as u8) {
                self.make_token(TokenType::NOT_EQUAL)
            } else {
                self.make_token(TokenType::NOT)
            }
        } else if c == '=' as u8 {
            if self.match_('=' as u8) {
                self.make_token(TokenType::EQUAL_EQUAL)
            } else {
                self.make_token(TokenType::EQUAL)
            }
        } else if c == '<' as u8 {
            if self.match_('=' as u8) {
                self.make_token(TokenType::LESS_EQUAL)
            } else {
                self.make_token(TokenType::LESS)
            }
        } else if c == '>' as u8 {
            if self.match_('=' as u8) {
                self.make_token(TokenType::GREATER_EQUAL)
            } else {
                self.make_token(TokenType::GREATER)
            }
        } else if c == '"' as u8 {
            self.string()
        } else if is_digit_exec(c) {
            self.number()
        } else if is_alpha_exec(c) {
            self.identifier()
        } else {
            self.error_token("Unexpected Character")
        }
    }
}

/// Whether a byte is an ASCII decimal digit.
pub(crate) fn is_digit_exec(c: u8) -> (r: bool)
    ensures
        r == is_digit_byte(c),
{
    '0' as u8 <= c && c <= '9' as u8
}

/// Whether a byte starts an identifier.
fn is_alpha_exec(c: u8) -> (r: bool)
    ensures
        r == is_alpha_byte(c),
{
    ('a' as u8 <= c && c <= 'z' as u8) || ('A' as u8 <= c && c <= 'Z' as u8) || c == '_' as u8
}

/// Whether a byte may continue an identifier.
fn is_alnum_exec(c: u8) -> (r: bool)
    ensures
        r == is_alnum_byte(c),
{
    is_digit_exec(c) || is_alpha_exec(c)
}

} // verus!
