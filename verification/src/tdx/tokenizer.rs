//! Splits formula source into positioned tokens.
//!
//! Whitespace and comments (`{ ... }` up to the first closing brace, and
//! `// ...` up to the end of the line) separate tokens and are skipped.
//! Positions are 1-based; a line feed starts a new line at column 1.

use crate::text::{
    chars_of,
    has_prefix,
    position_prefix,
    push_position,
    push_text,
    same_chars,
    starts_with,
    string_from,
    uppercase,
};
use vstd::prelude::*;

verus! {

/// One token of the formula language.
#[derive(Debug, Clone, PartialEq)]
pub enum Token {
    /// A decimal literal, kept as written: digits with at most one `.`.
    Number(String),
    /// A variable or function name.
    Ident(String),
    /// The text between two single quotes.
    Str(String),
    Plus,
    Minus,
    Star,
    Slash,
    Gt,
    Lt,
    Ge,
    Le,
    Eq,
    And,
    Or,
    Not,
    LParen,
    RParen,
    Comma,
    Semicolon,
    Colon,
    ColonAssign,
    Eof,
}

/// The mathematical value of a [`Token`].
pub enum SpecToken {
    Number(Seq<char>),
    Ident(Seq<char>),
    Str(Seq<char>),
    Plus,
    Minus,
    Star,
    Slash,
    Gt,
    Lt,
    Ge,
    Le,
    Eq,
    And,
    Or,
    Not,
    LParen,
    RParen,
    Comma,
    Semicolon,
    Colon,
    ColonAssign,
    Eof,
}

impl View for Token {
    type V = SpecToken;

    open spec fn view(&self) -> SpecToken {
        match self {
            Token::Number(s) => SpecToken::Number(s@),
            Token::Ident(s) => SpecToken::Ident(s@),
            Token::Str(s) => SpecToken::Str(s@),
            Token::Plus => SpecToken::Plus,
            Token::Minus => SpecToken::Minus,
            Token::Star => SpecToken::Star,
            Token::Slash => SpecToken::Slash,
            Token::Gt => SpecToken::Gt,
            Token::Lt => SpecToken::Lt,
            Token::Ge => SpecToken::Ge,
            Token::Le => SpecToken::Le,
            Token::Eq => SpecToken::Eq,
            Token::And => SpecToken::And,
            Token::Or => SpecToken::Or,
            Token::Not => SpecToken::Not,
            Token::LParen => SpecToken::LParen,
            Token::RParen => SpecToken::RParen,
            Token::Comma => SpecToken::Comma,
            Token::Semicolon => SpecToken::Semicolon,
            Token::Colon => SpecToken::Colon,
            Token::ColonAssign => SpecToken::ColonAssign,
            Token::Eof => SpecToken::Eof,
        }
    }
}

impl Token {
    /// A copy of the token.
    pub fn duplicate(&self) -> (r: Token)
        ensures
            r@ == self@,
    {
        match self {
            Token::Number(s) => Token::Number(s.clone()),
            Token::Ident(s) => Token::Ident(s.clone()),
            Token::Str(s) => Token::Str(s.clone()),
            Token::Plus => Token::Plus,
            Token::Minus => Token::Minus,
            Token::Star => Token::Star,
            Token::Slash => Token::Slash,
            Token::Gt => Token::Gt,
            Token::Lt => Token::Lt,
            Token::Ge => Token::Ge,
            Token::Le => Token::Le,
            Token::Eq => Token::Eq,
            Token::And => Token::And,
            Token::Or => Token::Or,
            Token::Not => Token::Not,
            Token::LParen => Token::LParen,
            Token::RParen => Token::RParen,
            Token::Comma => Token::Comma,
            Token::Semicolon => Token::Semicolon,
            Token::Colon => Token::Colon,
            Token::ColonAssign => Token::ColonAssign,
            Token::Eof => Token::Eof,
        }
    }
}

/// A token with the position of its first character.
#[derive(Debug, Clone)]
pub struct TokenWithPos {
    pub token: Token,
    pub line: usize,
    pub col: usize,
}

/// The mathematical value of a [`TokenWithPos`].
pub struct SpecTokenWithPos {
    pub token: SpecToken,
    pub line: usize,
    pub col: usize,
}

impl View for TokenWithPos {
    type V = SpecTokenWithPos;

    open spec fn view(&self) -> SpecTokenWithPos {
        SpecTokenWithPos { token: self.token@, line: self.line, col: self.col }
    }
}

/// The values of a vector of positioned tokens.
pub open spec fn token_seq(v: Seq<TokenWithPos>) -> Seq<SpecTokenWithPos> {
    v.map_values(|t: TokenWithPos| t@)
}

/// Why tokenizing stopped.
#[derive(Debug, Clone, Copy, PartialEq, Eq, Structural)]
pub enum TokenizeErrorKind {
    /// A character that starts no token.
    UnknownCharacter,
    /// A single quote without a closing quote after it.
    UnterminatedString,
    /// A `.` with no digit beside it.
    InvalidNumber,
}

/// A tokenizing failure: where it happened and the character found there.
#[derive(Debug, Clone, Copy, PartialEq, Eq, Structural)]
pub struct TokenizeError {
    pub line: usize,
    pub col: usize,
    pub ch: char,
    pub kind: TokenizeErrorKind,
}

/// Unicode white space.
pub open spec fn space_char(c: char) -> bool {
    ('\u{9}' <= c && c <= '\u{d}') || c == ' ' || c == '\u{85}' || c == '\u{a0}' || c == '\u{1680}'
        || ('\u{2000}' <= c && c <= '\u{200a}') || c == '\u{2028}' || c == '\u{2029}' || c
        == '\u{202f}' || c == '\u{205f}' || c == '\u{3000}'
}

/// An ASCII decimal digit.
pub open spec fn ascii_digit(c: char) -> bool {
    '0' <= c && c <= '9'
}

/// A character that may start a name: an ASCII letter, `_`, or anything
/// above U+007F.
pub open spec fn ident_start_char(c: char) -> bool {
    ('a' <= c && c <= 'z') || ('A' <= c && c <= 'Z') || c == '_' || c > '\u{7f}'
}

/// A character that may continue a name: as for the start, or an ASCII digit.
pub open spec fn ident_char(c: char) -> bool {
    ident_start_char(c) || ascii_digit(c)
}

pub fn is_space(ch: char) -> (r: bool)
    ensures
        r == space_char(ch),
{
    ('\u{9}' <= ch && ch <= '\u{d}') || ch == ' ' || ch == '\u{85}' || ch == '\u{a0}' || ch
        == '\u{1680}' || ('\u{2000}' <= ch && ch <= '\u{200a}') || ch == '\u{2028}' || ch
        == '\u{2029}' || ch == '\u{202f}' || ch == '\u{205f}' || ch == '\u{3000}'
}

pub fn is_digit(ch: char) -> (r: bool)
    ensures
        r == ascii_digit(ch),
{
    '0' <= ch && ch <= '9'
}

pub fn is_ident_start(ch: char) -> (r: bool)
    ensures
        r == ident_start_char(ch),
{
    ('a' <= ch && ch <= 'z') || ('A' <= ch && ch <= 'Z') || ch == '_' || ch > '\u{7f}'
}

pub fn is_ident_char(ch: char) -> (r: bool)
    ensures
        r == ident_char(ch),
{
    is_ident_start(ch) || is_digit(ch)
}

/// The runs of characters that the tokenizer scans over.
#[derive(Debug, Clone, Copy, PartialEq, Eq, Structural)]
pub enum CharClass {
    Space,
    Digit,
    IdentChar,
    /// Anything but `}`.
    CommentBody,
    /// Anything but a line feed.
    LineBody,
    /// Anything but a single quote.
    StringBody,
}

impl CharClass {
    pub open spec fn contains(self, c: char) -> bool {
        match self {
            CharClass::Space => space_char(c),
            CharClass::Digit => ascii_digit(c),
            CharClass::IdentChar => ident_char(c),
            CharClass::CommentBody => c != '}',
            CharClass::LineBody => c != '\n',
            CharClass::StringBody => c != '\'',
        }
    }

    pub fn has(self, ch: char) -> (r: bool)
        ensures
            r == self.contains(ch),
    {
        match self {
            CharClass::Space => is_space(ch),
            CharClass::Digit => is_digit(ch),
            CharClass::IdentChar => is_ident_char(ch),
            CharClass::CommentBody => ch != '}',
            CharClass::LineBody => ch != '\n',
            CharClass::StringBody => ch != '\'',
        }
    }
}

/// The first position at or after `p` whose character is not in `class`
/// (the length of `s` if there is none).
pub open spec fn scan(s: Seq<char>, p: int, class: CharClass) -> int
    decreases s.len() - p,
{
    if 0 <= p < s.len() && class.contains(s[p]) {
        scan(s, p + 1, class)
    } else {
        p
    }
}

/// A scan stops inside the text, has passed only characters of the class,
/// and stands on a character outside it unless it reached the end.
pub proof fn lemma_scan_bounds(s: Seq<char>, p: int, class: CharClass)
    requires
        0 <= p <= s.len(),
    ensures
        p <= scan(s, p, class) <= s.len(),
        forall|k: int| p <= k < scan(s, p, class) ==> class.contains(#[trigger] s[k]),
        scan(s, p, class) < s.len() ==> !class.contains(s[scan(s, p, class)]),
    decreases s.len() - p,
{
    if p < s.len() && class.contains(s[p]) {
        lemma_scan_bounds(s, p + 1, class);
    }
}

/// A position counted from 1, cut off at the largest `usize`.
pub open spec fn clip(n: int) -> usize {
    if n > usize::MAX {
        usize::MAX
    } else if n < 0 {
        0
    } else {
        n as usize
    }
}

/// The line of position `p`: one more than the line feeds before it.
pub open spec fn line_of(s: Seq<char>, p: int) -> int
    decreases p,
{
    if p <= 0 {
        1
    } else {
        line_of(s, p - 1) + if s[p - 1] == '\n' {
            1int
        } else {
            0int
        }
    }
}

/// The column of position `p`: one more than the characters between the
/// last line feed before `p` and `p`.
pub open spec fn col_of(s: Seq<char>, p: int) -> int
    decreases p,
{
    if p <= 0 {
        1
    } else if s[p - 1] == '\n' {
        1
    } else {
        col_of(s, p - 1) + 1
    }
}

/// Positions are counted from 1, and neither the line nor the column of a
/// position exceeds the number of characters before it by more than one.
pub proof fn lemma_position_bounds(s: Seq<char>, p: int)
    requires
        0 <= p,
    ensures
        1 <= line_of(s, p) <= p + 1,
        1 <= col_of(s, p) <= p + 1,
    decreases p,
{
    if p > 0 {
        lemma_position_bounds(s, p - 1);
    }
}

/// Whether a `//` comment starts at `p`.
pub open spec fn line_comment_at(s: Seq<char>, p: int) -> bool {
    0 <= p && p + 1 < s.len() && s[p] == '/' && s[p + 1] == '/'
}

/// The end of the brace comment that starts at `p`: just behind the first
/// `}`, or the end of the text if the comment is never closed.
pub open spec fn brace_comment_end(s: Seq<char>, p: int) -> int {
    let e = scan(s, p, CharClass::CommentBody);
    if e < s.len() {
        e + 1
    } else {
        e
    }
}

/// The end of the comment that starts at `p`, or `p` itself if none starts
/// there.
pub open spec fn comment_end(s: Seq<char>, p: int) -> int {
    if !(0 <= p < s.len()) {
        p
    } else if s[p] == '{' {
        brace_comment_end(s, p)
    } else if line_comment_at(s, p) {
        scan(s, p, CharClass::LineBody)
    } else {
        p
    }
}

/// The end of the piece of white space or comment that starts at `p`, or
/// `p` itself if none starts there.
pub open spec fn trivia_end(s: Seq<char>, p: int) -> int {
    if 0 <= p < s.len() && space_char(s[p]) {
        p + 1
    } else {
        comment_end(s, p)
    }
}

/// A piece of trivia ends at or behind its start and inside the text.
pub proof fn lemma_trivia_end_bounds(s: Seq<char>, p: int)
    requires
        0 <= p <= s.len(),
    ensures
        p <= trivia_end(s, p) <= s.len(),
{
    lemma_scan_bounds(s, p, CharClass::CommentBody);
    lemma_scan_bounds(s, p, CharClass::LineBody);
}

/// The first position at or after `p` where neither white space nor a
/// comment starts.
pub open spec fn skip_trivia(s: Seq<char>, p: int) -> int
    decreases s.len() - p,
{
    if 0 <= p < s.len() && trivia_end(s, p) > p {
        proof {
            lemma_trivia_end_bounds(s, p);
        }
        skip_trivia(s, trivia_end(s, p))
    } else {
        p
    }
}

/// Skipping trivia ends inside the text, at a position where no trivia
/// starts; skipping again changes nothing.
pub proof fn lemma_skip_trivia(s: Seq<char>, p: int)
    requires
        0 <= p <= s.len(),
    ensures
        p <= skip_trivia(s, p) <= s.len(),
        skip_trivia(s, skip_trivia(s, p)) == skip_trivia(s, p),
        trivia_end(s, skip_trivia(s, p)) == skip_trivia(s, p),
    decreases s.len() - p,
{
    lemma_trivia_end_bounds(s, p);
    if p < s.len() && trivia_end(s, p) > p {
        lemma_skip_trivia(s, trivia_end(s, p));
    }
}

/// Skipping a run of white space first does not change where trivia ends.
pub proof fn lemma_skip_trivia_after_spaces(s: Seq<char>, p: int)
    requires
        0 <= p <= s.len(),
    ensures
        skip_trivia(s, scan(s, p, CharClass::Space)) == skip_trivia(s, p),
    decreases s.len() - p,
{
    if p < s.len() && space_char(s[p]) {
        lemma_skip_trivia_after_spaces(s, p + 1);
    }
}

/// What a name stands for once its case is folded.
pub enum Word {
    And,
    Or,
    Not,
    /// A visual attribute such as a colour or a line width: it yields no token.
    Attribute,
    Name,
}

/// Whether an upper-cased name is a visual attribute.
pub open spec fn visual_attribute(upper: Seq<char>) -> bool {
    starts_with(upper, "COLOR"@) || starts_with(upper, "LINETHICK"@) || starts_with(
        upper,
        "POINTDOT"@,
    ) || starts_with(upper, "DOTLINE"@) || starts_with(upper, "CIRCLEDOT"@) || starts_with(
        upper,
        "NODRAW"@,
    )
}

/// The meaning of a name whose upper-case form is `upper`.
pub open spec fn word_of_upper(upper: Seq<char>) -> Word {
    if upper == "AND"@ {
        Word::And
    } else if upper == "OR"@ {
        Word::Or
    } else if upper == "NOT"@ {
        Word::Not
    } else if visual_attribute(upper) {
        Word::Attribute
    } else {
        Word::Name
    }
}

/// The meaning of a name: reserved words and visual attributes are
/// recognised whatever their case.
pub open spec fn classify_word(name: Seq<char>) -> Word {
    word_of_upper(uppercase(name))
}

/// The end of the number that starts at `p`: digits, then at most one `.`
/// followed by digits.
pub open spec fn number_end(s: Seq<char>, p: int) -> int {
    let e = scan(s, p, CharClass::Digit);
    if e < s.len() && s[e] == '.' {
        scan(s, e + 1, CharClass::Digit)
    } else {
        e
    }
}

/// Whether `=` stands right behind position `p`.
pub open spec fn equals_follows(s: Seq<char>, p: int) -> bool {
    p + 1 < s.len() && s[p + 1] == '='
}

/// What stands at a position where a token must start.
pub enum Lexeme {
    /// A token, and the position behind it.
    Token(SpecToken, int),
    /// A visual attribute, and the position behind it.
    Dropped(int),
    Malformed(TokenizeErrorKind),
}

/// The token for a name.
pub open spec fn word_lexeme(name: Seq<char>, end: int) -> Lexeme {
    match classify_word(name) {
        Word::And => Lexeme::Token(SpecToken::And, end),
        Word::Or => Lexeme::Token(SpecToken::Or, end),
        Word::Not => Lexeme::Token(SpecToken::Not, end),
        Word::Attribute => Lexeme::Dropped(end),
        Word::Name => Lexeme::Token(SpecToken::Ident(name), end),
    }
}

/// The lexeme that starts at `p`, a position inside `s`.
pub open spec fn lexeme_at(s: Seq<char>, p: int) -> Lexeme {
    let c = s[p];
    if c == '+' {
        Lexeme::Token(SpecToken::Plus, p + 1)
    } else if c == '-' {
        Lexeme::Token(SpecToken::Minus, p + 1)
    } else if c == '*' {
        Lexeme::Token(SpecToken::Star, p + 1)
    } else if c == '/' {
        Lexeme::Token(SpecToken::Slash, p + 1)
    } else if c == '>' {
        if equals_follows(s, p) {
            Lexeme::Token(SpecToken::Ge, p + 2)
        } else {
            Lexeme::Token(SpecToken::Gt, p + 1)
        }
    } else if c == '<' {
        if equals_follows(s, p) {
            Lexeme::Token(SpecToken::Le, p + 2)
        } else {
            Lexeme::Token(SpecToken::Lt, p + 1)
        }
    } else if c == '=' {
        Lexeme::Token(SpecToken::Eq, p + 1)
    } else if c == '(' {
        Lexeme::Token(SpecToken::LParen, p + 1)
    } else if c == ')' {
        Lexeme::Token(SpecToken::RParen, p + 1)
    } else if c == ',' {
        Lexeme::Token(SpecToken::Comma, p + 1)
    } else if c == ';' {
        Lexeme::Token(SpecToken::Semicolon, p + 1)
    } else if c == ':' {
        if equals_follows(s, p) {
            Lexeme::Token(SpecToken::ColonAssign, p + 2)
        } else {
            Lexeme::Token(SpecToken::Colon, p + 1)
        }
    } else if c == '\'' {
        let e = scan(s, p + 1, CharClass::StringBody);
        if e >= s.len() {
            Lexeme::Malformed(TokenizeErrorKind::UnterminatedString)
        } else {
            Lexeme::Token(SpecToken::Str(s.subrange(p + 1, e)), e + 1)
        }
    } else if ascii_digit(c) || c == '.' {
        let e = number_end(s, p);
        if e == p + 1 && c == '.' {
            Lexeme::Malformed(TokenizeErrorKind::InvalidNumber)
        } else {
            Lexeme::Token(SpecToken::Number(s.subrange(p, e)), e)
        }
    } else if ident_start_char(c) {
        let e = scan(s, p, CharClass::IdentChar);
        word_lexeme(s.subrange(p, e), e)
    } else {
        Lexeme::Malformed(TokenizeErrorKind::UnknownCharacter)
    }
}

/// The position behind a lexeme, or its start where it is malformed.
pub open spec fn lexeme_end(s: Seq<char>, p: int) -> int {
    match lexeme_at(s, p) {
        Lexeme::Token(_, e) => e,
        Lexeme::Dropped(e) => e,
        Lexeme::Malformed(_) => p,
    }
}

/// A well-formed lexeme ends behind its start and inside the text.
pub proof fn lemma_lexeme_end(s: Seq<char>, p: int)
    requires
        0 <= p < s.len(),
    ensures
        !(lexeme_at(s, p) is Malformed) ==> p < lexeme_end(s, p) <= s.len(),
{
    lemma_scan_bounds(s, p + 1, CharClass::StringBody);
    lemma_scan_bounds(s, p, CharClass::Digit);
    let e = scan(s, p, CharClass::Digit);
    if e < s.len() {
        lemma_scan_bounds(s, e + 1, CharClass::Digit);
    }
    lemma_scan_bounds(s, p, CharClass::IdentChar);
}

/// The error reported for a malformed lexeme at `p`.
pub open spec fn error_at(s: Seq<char>, p: int, kind: TokenizeErrorKind) -> TokenizeError {
    TokenizeError { line: clip(line_of(s, p)), col: clip(col_of(s, p)), ch: s[p], kind }
}

/// A token placed at position `p`.
pub open spec fn token_at(s: Seq<char>, p: int, token: SpecToken) -> SpecTokenWithPos {
    SpecTokenWithPos { token, line: clip(line_of(s, p)), col: clip(col_of(s, p)) }
}

/// `first` put in front of the tokens of a later outcome.
pub open spec fn prepend(
    first: Seq<SpecTokenWithPos>,
    rest: Result<Seq<SpecTokenWithPos>, TokenizeError>,
) -> Result<Seq<SpecTokenWithPos>, TokenizeError> {
    match rest {
        Ok(tokens) => Ok(first + tokens),
        Err(e) => Err(e),
    }
}

/// The tokens of `s` from position `p` on, ending with `Eof`, or the first
/// error met.
pub open spec fn lex_from(s: Seq<char>, p: int) -> Result<Seq<SpecTokenWithPos>, TokenizeError>
    decreases s.len() - p,
{
    if !(0 <= p <= s.len()) {
        Ok(seq![token_at(s, p, SpecToken::Eof)])
    } else {
        let q = skip_trivia(s, p);
        if q >= s.len() {
            Ok(seq![token_at(s, q, SpecToken::Eof)])
        } else {
            proof {
                lemma_skip_trivia(s, p);
                lemma_lexeme_end(s, q);
            }
            match lexeme_at(s, q) {
                Lexeme::Token(t, e) => prepend(seq![token_at(s, q, t)], lex_from(s, e)),
                Lexeme::Dropped(e) => lex_from(s, e),
                Lexeme::Malformed(kind) => Err(error_at(s, q, kind)),
            }
        }
    }
}

/// Where tokenizing from `p` stops: at the end of the text, or at the start
/// of the first malformed lexeme.
pub open spec fn lex_stop(s: Seq<char>, p: int) -> int
    decreases s.len() - p,
{
    if !(0 <= p <= s.len()) {
        p
    } else {
        let q = skip_trivia(s, p);
        if q >= s.len() {
            q
        } else {
            proof {
                lemma_skip_trivia(s, p);
                lemma_lexeme_end(s, q);
            }
            match lexeme_at(s, q) {
                Lexeme::Token(_, e) => lex_stop(s, e),
                Lexeme::Dropped(e) => lex_stop(s, e),
                Lexeme::Malformed(_) => q,
            }
        }
    }
}

/// The tokens of a whole formula.
pub open spec fn lex(s: Seq<char>) -> Result<Seq<SpecTokenWithPos>, TokenizeError> {
    lex_from(s, 0)
}

/// Decides what a name stands for.
pub fn classify(name: &str) -> (w: Word)
    ensures
        w == classify_word(name@),
{
    let upper = name.to_uppercase();
    let u = chars_of(upper.as_str());
    if same_chars(&u, &chars_of("AND")) {
        Word::And
    } else if same_chars(&u, &chars_of("OR")) {
        Word::Or
    } else if same_chars(&u, &chars_of("NOT")) {
        Word::Not
    } else if has_prefix(&u, &chars_of("COLOR")) || has_prefix(&u, &chars_of("LINETHICK"))
        || has_prefix(&u, &chars_of("POINTDOT")) || has_prefix(&u, &chars_of("DOTLINE"))
        || has_prefix(&u, &chars_of("CIRCLEDOT")) || has_prefix(&u, &chars_of("NODRAW")) {
        Word::Attribute
    } else {
        Word::Name
    }
}

/// The first index at or after `start` whose character is not in `class`.
pub fn scan_from(chars: &Vec<char>, start: usize, class: CharClass) -> (end: usize)
    requires
        start <= chars.len(),
    ensures
        end == scan(chars@, start as int, class),
        start <= end <= chars.len(),
{
    let mut i: usize = start;
    while i < chars.len() && class.has(chars[i])
        invariant
            start <= i <= chars.len(),
            scan(chars@, i as int, class) == scan(chars@, start as int, class),
        decreases chars.len() - i,
    {
        i += 1;
    }
    i
}

/// A cursor over the characters of a formula.
pub struct Tokenizer {
    chars: Vec<char>,
    pos: usize,
    line: usize,
    col: usize,
}

impl Tokenizer {
    /// The text being tokenized.
    pub closed spec fn source(&self) -> Seq<char> {
        self.chars@
    }

    /// The index of the next character to read.
    pub closed spec fn position(&self) -> int {
        self.pos as int
    }

    /// The cursor is inside the text and its line and column are those of
    /// its position.
    pub closed spec fn wf(&self) -> bool {
        &&& self.pos <= self.chars.len()
        &&& self.line == clip(line_of(self.chars@, self.pos as int))
        &&& self.col == clip(col_of(self.chars@, self.pos as int))
    }

    /// A cursor at the start of `source`.
    pub fn new(source: &str) -> (t: Self)
        ensures
            t.wf(),
            t.source() == source@,
            t.position() == 0,
    {
        Tokenizer { chars: chars_of(source), pos: 0, line: 1, col: 1 }
    }

    /// Steps over one character, if any is left.
    fn advance(&mut self)
        requires
            old(self).wf(),
        ensures
            final(self).wf(),
            final(self).chars == old(self).chars,
            final(self).pos == if old(self).pos < old(self).chars.len() {
                old(self).pos + 1
            } else {
                old(self).pos as int
            },
    {
        if self.pos < self.chars.len() {
            proof {
                lemma_position_bounds(self.chars@, self.pos as int);
            }
            if self.chars[self.pos] == '\n' {
                if self.line < usize::MAX {
                    self.line += 1;
                }
                self.col = 1;
            } else {
                if self.col < usize::MAX {
                    self.col += 1;
                }
            }
            self.pos += 1;
        }
    }

    /// Steps over characters up to `target`.
    fn advance_to(&mut self, target: usize)
        requires
            old(self).wf(),
            old(self).pos <= target <= old(self).chars.len(),
        ensures
            final(self).wf(),
            final(self).chars == old(self).chars,
            final(self).pos == target,
    {
        while self.pos < target
            invariant
                self.wf(),
                self.chars == old(self).chars,
                self.pos <= target <= self.chars.len(),
            decreases target - self.pos,
        {
            self.advance();
        }
    }

    /// Steps over a run of white space.
    fn skip_whitespace(&mut self)
        requires
            old(self).wf(),
        ensures
            final(self).wf(),
            final(self).chars == old(self).chars,
            final(self).pos == scan(old(self).chars@, old(self).pos as int, CharClass::Space),
    {
        let end = scan_from(&self.chars, self.pos, CharClass::Space);
        self.advance_to(end);
    }

    /// Steps over the comment that starts at the cursor, if one does.
    fn skip_comment(&mut self)
        requires
            old(self).wf(),
        ensures
            final(self).wf(),
            final(self).chars == old(self).chars,
            final(self).pos == comment_end(old(self).chars@, old(self).pos as int),
    {
        if self.pos < self.chars.len() {
            if self.chars[self.pos] == '{' {
                let body_end = scan_from(&self.chars, self.pos, CharClass::CommentBody);
                let end = if body_end < self.chars.len() {
                    body_end + 1
                } else {
                    body_end
                };
                self.advance_to(end);
            } else if self.pos + 1 < self.chars.len() && self.chars[self.pos] == '/'
                && self.chars[self.pos + 1] == '/' {
                let end = scan_from(&self.chars, self.pos, CharClass::LineBody);
                self.advance_to(end);
            }
        }
    }

    /// Steps over all white space and comments at the cursor.
    fn skip_trivia(&mut self)
        requires
            old(self).wf(),
        ensures
            final(self).wf(),
            final(self).chars == old(self).chars,
            final(self).pos == skip_trivia(old(self).chars@, old(self).pos as int),
    {
        loop
            invariant
                self.wf(),
                self.chars == old(self).chars,
                skip_trivia(self.chars@, self.pos as int) == skip_trivia(
                    old(self).chars@,
                    old(self).pos as int,
                ),
            ensures
                self.wf(),
                self.chars == old(self).chars,
                self.pos == skip_trivia(old(self).chars@, old(self).pos as int),
            decreases self.chars.len() - self.pos,
        {
            proof {
                lemma_skip_trivia_after_spaces(self.chars@, self.pos as int);
                lemma_scan_bounds(self.chars@, self.pos as int, CharClass::Space);
            }
            self.skip_whitespace();
            let before = self.pos;
            proof {
                lemma_trivia_end_bounds(self.chars@, before as int);
            }
            self.skip_comment();
            if self.pos == before {
                break ;
            }
        }
    }

    /// Reads the name that starts at the cursor.
    fn read_ident(&mut self) -> (name: String)
        requires
            old(self).wf(),
        ensures
            final(self).wf(),
            final(self).chars == old(self).chars,
            final(self).pos == scan(old(self).chars@, old(self).pos as int, CharClass::IdentChar),
            name@ == old(self).chars@.subrange(old(self).pos as int, final(self).pos as int),
    {
        let start = self.pos;
        let end = scan_from(&self.chars, start, CharClass::IdentChar);
        self.advance_to(end);
        string_from(&self.chars, start, end)
    }

    /// Reads the quoted string that starts at the cursor. The cursor stays
    /// where it is if the string is never closed.
    fn read_string(&mut self) -> (r: Result<String, TokenizeError>)
        requires
            old(self).wf(),
            old(self).pos < old(self).chars.len(),
            old(self).chars@[old(self).pos as int] == '\'',
        ensures
            final(self).wf(),
            final(self).chars == old(self).chars,
            final(self).pos == lexeme_end(old(self).chars@, old(self).pos as int),
            match r {
                Ok(text) => lexeme_at(old(self).chars@, old(self).pos as int) == Lexeme::Token(
                    SpecToken::Str(text@),
                    final(self).pos as int,
                ),
                Err(e) => lexeme_at(old(self).chars@, old(self).pos as int) == Lexeme::Malformed(
                    e.kind,
                ) && e == error_at(old(self).chars@, old(self).pos as int, e.kind),
            },
    {
        let start = self.pos + 1;
        let end = scan_from(&self.chars, start, CharClass::StringBody);
        if end >= self.chars.len() {
            return Err(
                TokenizeError {
                    line: self.line,
                    col: self.col,
                    ch: '\'',
                    kind: TokenizeErrorKind::UnterminatedString,
                },
            );
        }
        self.advance_to(end + 1);
        Ok(string_from(&self.chars, start, end))
    }

    /// Reads the number that starts at the cursor. The cursor stays where
    /// it is if the number has no digit.
    fn read_number(&mut self) -> (r: Result<String, TokenizeError>)
        requires
            old(self).wf(),
            old(self).pos < old(self).chars.len(),
            ascii_digit(old(self).chars@[old(self).pos as int])
                || old(self).chars@[old(self).pos as int] == '.',
        ensures
            final(self).wf(),
            final(self).chars == old(self).chars,
            final(self).pos == lexeme_end(old(self).chars@, old(self).pos as int),
            match r {
                Ok(text) => lexeme_at(old(self).chars@, old(self).pos as int) == Lexeme::Token(
                    SpecToken::Number(text@),
                    final(self).pos as int,
                ),
                Err(e) => lexeme_at(old(self).chars@, old(self).pos as int) == Lexeme::Malformed(
                    e.kind,
                ) && e == error_at(old(self).chars@, old(self).pos as int, e.kind),
            },
    {
        let start = self.pos;
        let whole_end = scan_from(&self.chars, start, CharClass::Digit);
        let end = if whole_end < self.chars.len() && self.chars[whole_end] == '.' {
            scan_from(&self.chars, whole_end + 1, CharClass::Digit)
        } else {
            whole_end
        };
        if end == start + 1 && self.chars[start] == '.' {
            return Err(
                TokenizeError {
                    line: self.line,
                    col: self.col,
                    ch: '.',
                    kind: TokenizeErrorKind::InvalidNumber,
                },
            );
        }
        self.advance_to(end);
        Ok(string_from(&self.chars, start, end))
    }
    /// Reads the lexeme at the cursor, which stands on a character where a
    /// token must start. `None` is a visual attribute. The cursor stays
    /// where it is if the lexeme is malformed.
    fn next_lexeme(&mut self) -> (r: Result<Option<Token>, TokenizeError>)
        requires
            old(self).wf(),
            old(self).pos < old(self).chars.len(),
        ensures
            final(self).wf(),
            final(self).chars == old(self).chars,
            final(self).pos == lexeme_end(old(self).chars@, old(self).pos as int),
            match r {
                Ok(Some(token)) => lexeme_at(old(self).chars@, old(self).pos as int)
                    == Lexeme::Token(token@, final(self).pos as int),
                Ok(None) => lexeme_at(old(self).chars@, old(self).pos as int) == Lexeme::Dropped(
                    final(self).pos as int,
                ),
                Err(e) => lexeme_at(old(self).chars@, old(self).pos as int) == Lexeme::Malformed(
                    e.kind,
                ) && e == error_at(old(self).chars@, old(self).pos as int, e.kind),
            },
    {
        let ch = self.chars[self.pos];
        let followed = self.pos + 1 < self.chars.len() && self.chars[self.pos + 1] == '=';
        if ch == '+' {
            self.advance();
            Ok(Some(Token::Plus))
        } else if ch == '-' {
            self.advance();
            Ok(Some(Token::Minus))
        } else if ch == '*' {
            self.advance();
            Ok(Some(Token::Star))
        } else if ch == '/' {
            self.advance();
            Ok(Some(Token::Slash))
        } else if ch == '>' {
            self.advance();
            if followed {
                self.advance();
                Ok(Some(Token::Ge))
            } else {
                Ok(Some(Token::Gt))
            }
        } else if ch == '<' {
            self.advance();
            if followed {
                self.advance();
                Ok(Some(Token::Le))
            } else {
                Ok(Some(Token::Lt))
            }
        } else if ch == '=' {
            self.advance();
            Ok(Some(Token::Eq))
        } else if ch == '(' {
            self.advance();
            Ok(Some(Token::LParen))
        } else if ch == ')' {
            self.advance();
            Ok(Some(Token::RParen))
        } else if ch == ',' {
            self.advance();
            Ok(Some(Token::Comma))
        } else if ch == ';' {
            self.advance();
            Ok(Some(Token::Semicolon))
        } else if ch == ':' {
            self.advance();
            if followed {
                self.advance();
                Ok(Some(Token::ColonAssign))
            } else {
                Ok(Some(Token::Colon))
            }
        } else if ch == '\'' {
            match self.read_string() {
                Ok(text) => Ok(Some(Token::Str(text))),
                Err(e) => Err(e),
            }
        } else if is_digit(ch) || ch == '.' {
            match self.read_number() {
                Ok(text) => Ok(Some(Token::Number(text))),
                Err(e) => Err(e),
            }
        } else if is_ident_start(ch) {
            let name = self.read_ident();
            match classify(name.as_str()) {
                Word::And => Ok(Some(Token::And)),
                Word::Or => Ok(Some(Token::Or)),
                Word::Not => Ok(Some(Token::Not)),
                Word::Attribute => Ok(None),
                Word::Name => Ok(Some(Token::Ident(name))),
            }
        } else {
            Err(
                TokenizeError {
                    line: self.line,
                    col: self.col,
                    ch,
                    kind: TokenizeErrorKind::UnknownCharacter,
                },
            )
        }
    }

    /// Tokenizes the rest of the text. The result ends with an `Eof` token;
    /// on failure the cursor stands on the malformed lexeme.
    pub fn tokenize(&mut self) -> (r: Result<Vec<TokenWithPos>, TokenizeError>)
        requires
            old(self).wf(),
        ensures
            final(self).wf(),
            final(self).source() == old(self).source(),
            final(self).position() == lex_stop(old(self).source(), old(self).position()),
            match r {
                Ok(tokens) => lex_from(old(self).source(), old(self).position()) == Ok::<
                    Seq<SpecTokenWithPos>,
                    TokenizeError,
                >(token_seq(tokens@)),
                Err(e) => lex_from(old(self).source(), old(self).position()) == Err::<
                    Seq<SpecTokenWithPos>,
                    TokenizeError,
                >(e),
            },
    {
        let mut tokens: Vec<TokenWithPos> = Vec::new();
        let ghost s = self.chars@;
        let ghost start = self.pos as int;
        assert(token_seq(tokens@) + lex_from(s, start)->Ok_0 =~= lex_from(s, start)->Ok_0);
        loop
            invariant
                self.wf(),
                self.chars@ == s,
                s == old(self).chars@,
                start == old(self).pos,
                lex_from(s, start) == prepend(token_seq(tokens@), lex_from(s, self.pos as int)),
                lex_stop(s, start) == lex_stop(s, self.pos as int),
            decreases self.chars.len() - self.pos,
        {
            let ghost before = self.pos as int;
            let ghost sofar = token_seq(tokens@);
            proof {
                lemma_skip_trivia(s, before);
            }
            self.skip_trivia();
            let line = self.line;
            let col = self.col;
            let ghost q = self.pos as int;
            if self.pos >= self.chars.len() {
                tokens.push(TokenWithPos { token: Token::Eof, line, col });
                assert(token_seq(tokens@) =~= sofar + seq![token_at(s, q, SpecToken::Eof)]);
                return Ok(tokens);
            }
            proof {
                lemma_lexeme_end(s, q);
            }
            match self.next_lexeme() {
                Ok(Some(token)) => {
                    let ghost t = token@;
                    tokens.push(TokenWithPos { token, line, col });
                    proof {
                        let e = self.pos as int;
                        assert(token_seq(tokens@) =~= sofar + seq![token_at(s, q, t)]);
                        match lex_from(s, e) {
                            Ok(rest) => {
                                assert((sofar + seq![token_at(s, q, t)]) + rest =~= sofar + (
                                seq![token_at(s, q, t)] + rest));
                            },
                            Err(_) => {},
                        }
                    }
                },
                Ok(None) => {},
                Err(e) => {
                    return Err(e);
                },
            }
        }
    }
}

/// How a token reads in a message.
pub open spec fn token_text(t: SpecToken) -> Seq<char> {
    match t {
        SpecToken::Number(n) => "Number("@ + n + ")"@,
        SpecToken::Ident(name) => "Ident(\""@ + name + "\")"@,
        SpecToken::Str(s) => "Str(\""@ + s + "\")"@,
        SpecToken::Plus => "Plus"@,
        SpecToken::Minus => "Minus"@,
        SpecToken::Star => "Star"@,
        SpecToken::Slash => "Slash"@,
        SpecToken::Gt => "Gt"@,
        SpecToken::Lt => "Lt"@,
        SpecToken::Ge => "Ge"@,
        SpecToken::Le => "Le"@,
        SpecToken::Eq => "Eq"@,
        SpecToken::And => "And"@,
        SpecToken::Or => "Or"@,
        SpecToken::Not => "Not"@,
        SpecToken::LParen => "LParen"@,
        SpecToken::RParen => "RParen"@,
        SpecToken::Comma => "Comma"@,
        SpecToken::Semicolon => "Semicolon"@,
        SpecToken::Colon => "Colon"@,
        SpecToken::ColonAssign => "ColonAssign"@,
        SpecToken::Eof => "Eof"@,
    }
}

impl Token {
    /// Appends the token as it reads in a message.
    pub fn describe(&self, out: &mut String)
        ensures
            final(out)@ == old(out)@ + token_text(self@),
    {
        match self {
            Token::Number(n) => {
                push_text(out, "Number(");
                push_text(out, n.as_str());
                push_text(out, ")");
                assert(out@ =~= old(out)@ + token_text(self@));
            },
            Token::Ident(name) => {
                push_text(out, "Ident(\"");
                push_text(out, name.as_str());
                push_text(out, "\")");
                assert(out@ =~= old(out)@ + token_text(self@));
            },
            Token::Str(s) => {
                push_text(out, "Str(\"");
                push_text(out, s.as_str());
                push_text(out, "\")");
                assert(out@ =~= old(out)@ + token_text(self@));
            },
            Token::Plus => push_text(out, "Plus"),
            Token::Minus => push_text(out, "Minus"),
            Token::Star => push_text(out, "Star"),
            Token::Slash => push_text(out, "Slash"),
            Token::Gt => push_text(out, "Gt"),
            Token::Lt => push_text(out, "Lt"),
            Token::Ge => push_text(out, "Ge"),
            Token::Le => push_text(out, "Le"),
            Token::Eq => push_text(out, "Eq"),
            Token::And => push_text(out, "And"),
            Token::Or => push_text(out, "Or"),
            Token::Not => push_text(out, "Not"),
            Token::LParen => push_text(out, "LParen"),
            Token::RParen => push_text(out, "RParen"),
            Token::Comma => push_text(out, "Comma"),
            Token::Semicolon => push_text(out, "Semicolon"),
            Token::Colon => push_text(out, "Colon"),
            Token::ColonAssign => push_text(out, "ColonAssign"),
            Token::Eof => push_text(out, "Eof"),
        }
    }
}

/// The message of a tokenizing failure.
pub open spec fn tokenize_message(e: TokenizeError) -> Seq<char> {
    position_prefix(e.line, e.col) + match e.kind {
        TokenizeErrorKind::UnknownCharacter => "未知字符 '"@.push(e.ch) + "'"@,
        TokenizeErrorKind::UnterminatedString => "字符串未闭合"@,
        TokenizeErrorKind::InvalidNumber => "无效数字 '"@.push(e.ch) + "'"@,
    }
}

impl TokenizeError {
    /// The failure in words: the place, then what is wrong there.
    pub fn message(&self) -> (m: String)
        ensures
            m@ == tokenize_message(*self),
    {
        let mut m = String::new();
        push_position(&mut m, self.line, self.col);
        match self.kind {
            TokenizeErrorKind::UnknownCharacter => {
                push_text(&mut m, "未知字符 '");
                m.push(self.ch);
                push_text(&mut m, "'");
            },
            TokenizeErrorKind::UnterminatedString => {
                push_text(&mut m, "字符串未闭合");
            },
            TokenizeErrorKind::InvalidNumber => {
                push_text(&mut m, "无效数字 '");
                m.push(self.ch);
                push_text(&mut m, "'");
            },
        }
        assert(m@ =~= tokenize_message(*self));
        m
    }
}

/// The tokens of a text that tokenizes end with `Eof`, and `Eof` stands
/// nowhere else among them.
pub proof fn lemma_lex_ends_with_eof(s: Seq<char>, p: int)
    requires
        0 <= p <= s.len(),
    ensures
        lex_from(s, p) matches Ok(tokens) ==> {
            &&& tokens.len() >= 1
            &&& tokens[tokens.len() - 1].token is Eof
            &&& forall|i: int| 0 <= i < tokens.len() - 1 ==> !((#[trigger] tokens[i]).token is Eof)
        },
    decreases s.len() - p,
{
    lemma_skip_trivia(s, p);
    let q = skip_trivia(s, p);
    if q < s.len() {
        lemma_lexeme_end(s, q);
        match lexeme_at(s, q) {
            Lexeme::Token(t, e) => {
                lemma_lex_ends_with_eof(s, e);
                match lex_from(s, e) {
                    Ok(rest) => {
                        let tokens = seq![token_at(s, q, t)] + rest;
                        assert(!(t is Eof)) by {
                            lemma_no_eof_lexeme(s, q);
                        }
                        assert forall|i: int| 0 <= i < tokens.len() - 1 implies !((
                        #[trigger] tokens[i]).token is Eof) by {
                            if i > 0 {
                                assert(tokens[i] == rest[i - 1]);
                            }
                        }
                        assert(tokens[tokens.len() - 1] == rest[rest.len() - 1]);
                    },
                    Err(_) => {},
                }
            },
            Lexeme::Dropped(e) => {
                lemma_lex_ends_with_eof(s, e);
            },
            Lexeme::Malformed(_) => {},
        }
    }
}

/// No lexeme is an `Eof` token.
pub proof fn lemma_no_eof_lexeme(s: Seq<char>, p: int)
    ensures
        lexeme_at(s, p) matches Lexeme::Token(t, _) ==> !(t is Eof),
{
}

/// Whether a text is a decimal literal: digits with at most one `.` among
/// them, and at least one digit. Such a text reads as a number.
pub open spec fn decimal_literal(t: Seq<char>) -> bool {
    &&& t.len() > 0
    &&& number_end(t, 0) == t.len()
    &&& !(t.len() == 1 && t[0] == '.')
}

/// A scan of a part of a text ends where the scan of the whole text ends,
/// or at the end of the part.
proof fn lemma_scan_of_part(s: Seq<char>, from: int, to: int, k: int, class: CharClass)
    requires
        0 <= from <= to <= s.len(),
        0 <= k <= to - from,
    ensures
        scan(s.subrange(from, to), k, class) == if scan(s, from + k, class) <= to {
            scan(s, from + k, class) - from
        } else {
            to - from
        },
    decreases to - from - k,
{
    let part = s.subrange(from, to);
    lemma_scan_bounds(s, from + k, class);
    if k < to - from && class.contains(part[k]) {
        assert(part[k] == s[from + k]);
        lemma_scan_of_part(s, from, to, k + 1, class);
    } else if k < to - from {
        assert(part[k] == s[from + k]);
    }
}

/// Every number token holds a decimal literal.
pub proof fn lemma_number_token_is_decimal(s: Seq<char>, p: int)
    requires
        0 <= p < s.len(),
    ensures
        lexeme_at(s, p) matches Lexeme::Token(SpecToken::Number(text), _) ==> decimal_literal(
            text,
        ),
{
    let c = s[p];
    if ascii_digit(c) || c == '.' {
        lemma_lexeme_end(s, p);
        let whole = scan(s, p, CharClass::Digit);
        lemma_scan_bounds(s, p, CharClass::Digit);
        let end = number_end(s, p);
        if whole < s.len() {
            lemma_scan_bounds(s, whole + 1, CharClass::Digit);
        }
        if !(end == p + 1 && c == '.') {
            let text = s.subrange(p, end);
            lemma_scan_of_part(s, p, end, 0, CharClass::Digit);
            assert(scan(text, 0, CharClass::Digit) == whole - p);
            if whole < end {
                assert(text[whole - p] == s[whole]);
                lemma_scan_of_part(s, p, end, whole - p + 1, CharClass::Digit);
            }
            assert(text[0] == c);
        }
    }
}

} // verus!
