//! The lexer.
//!
//! What the lexer yields is given by the spec function [`lex_from`] on the
//! characters of the source; [`Lexer::new`] is proved to compute it.

use crate::text::{chars_of, string_of};
use crate::token::{token_views, Token, TokenView};
use vstd::prelude::*;

verus! {

/// White space: blank, tab, line feed and form feed.
pub open spec fn is_space(c: char) -> bool {
    c == ' ' || c == '\t' || c == '\n' || c == '\x0C'
}

/// A decimal digit.
pub open spec fn is_digit(c: char) -> bool {
    '0' <= c && c <= '9'
}

/// A character that can start an identifier: an ASCII letter or `_`.
pub open spec fn is_identifier_start(c: char) -> bool {
    ('a' <= c && c <= 'z') || ('A' <= c && c <= 'Z') || c == '_'
}

/// A character that can continue an identifier.
pub open spec fn is_identifier_part(c: char) -> bool {
    is_identifier_start(c) || is_digit(c)
}

/// The classes of characters that form runs.
#[derive(Clone, Copy, Debug)]
pub enum CharClass {
    Space,
    Digit,
    IdentifierPart,
}

/// Whether the character belongs to the class.
pub open spec fn in_class(class: CharClass, c: char) -> bool {
    match class {
        CharClass::Space => is_space(c),
        CharClass::Digit => is_digit(c),
        CharClass::IdentifierPart => is_identifier_part(c),
    }
}

/// Where the longest run of characters of the class that starts at `from`
/// ends.
pub open spec fn run_end(s: Seq<char>, from: int, class: CharClass) -> int
    decreases s.len() - from,
{
    if 0 <= from < s.len() && in_class(class, s[from]) {
        run_end(s, from + 1, class)
    } else {
        from
    }
}

/// The keyword that the text spells, if any.
pub open spec fn keyword(text: Seq<char>) -> Option<TokenView> {
    if text == "fn"@ {
        Some(TokenView::Fn)
    } else if text == "let"@ {
        Some(TokenView::Let)
    } else if text == "if"@ {
        Some(TokenView::If)
    } else if text == "else"@ {
        Some(TokenView::Else)
    } else if text == "elif"@ {
        Some(TokenView::Elif)
    } else if text == "for"@ {
        Some(TokenView::For)
    } else if text == "while"@ {
        Some(TokenView::While)
    } else if text == "break"@ {
        Some(TokenView::Break)
    } else if text == "continue"@ {
        Some(TokenView::Continue)
    } else if text == "in"@ {
        Some(TokenView::In)
    } else if text == "unsafe"@ {
        Some(TokenView::Unsafe)
    } else if text == "import"@ {
        Some(TokenView::Import)
    } else if text == "as"@ {
        Some(TokenView::As)
    } else {
        None
    }
}

/// The number that a decimal digit stands for.
pub open spec fn digit_value(c: char) -> nat {
    (c as int - '0' as int) as nat
}

/// The number that a sequence of decimal digits denotes.
pub open spec fn digits_value(digits: Seq<char>) -> nat
    decreases digits.len(),
{
    if digits.len() == 0 {
        0
    } else {
        digits_value(digits.drop_last()) * 10 + digit_value(digits.last())
    }
}

/// The value of an integer literal: the number that its digits denote, or
/// zero where that number does not fit in 64 bits.
pub open spec fn number_value(digits: Seq<char>) -> i64 {
    if digits_value(digits) <= i64::MAX {
        digits_value(digits) as i64
    } else {
        0
    }
}

/// How far the body of a string literal reaches from `from`, a position
/// behind its opening quote, and whether it ends there with a closing
/// quote. A backslash takes the character after it along, unless that is a
/// line feed or the text ends.
pub open spec fn string_end(s: Seq<char>, from: int) -> (bool, int)
    decreases s.len() - from,
{
    if from < 0 || from >= s.len() {
        (false, from)
    } else if s[from] == '"' {
        (true, from + 1)
    } else if s[from] == '\\' {
        if from + 1 < s.len() && s[from + 1] != '\n' {
            string_end(s, from + 2)
        } else {
            (false, from + 1)
        }
    } else {
        string_end(s, from + 1)
    }
}

/// What stands at a position of the source.
pub enum Lexeme {
    /// A token.
    Token(TokenView),
    /// White space, which is skipped.
    Skip,
    /// Characters that start no token: they are skipped and reported.
    Error,
}

/// The punctuation or operator at position `i`, with its length. Of two
/// that start at the same place the longer one is taken.
pub open spec fn operator_at(s: Seq<char>, i: int) -> Option<(TokenView, int)> {
    let c = s[i];
    let d = if i + 1 < s.len() {
        Some(s[i + 1])
    } else {
        None
    };
    if c == '=' {
        if d == Some('=') {
            Some((TokenView::Equal, 2))
        } else {
            Some((TokenView::Equals, 1))
        }
    } else if c == ':' {
        if d == Some(':') {
            Some((TokenView::DoubleColon, 2))
        } else {
            Some((TokenView::Colon, 1))
        }
    } else if c == '-' {
        if d == Some('>') {
            Some((TokenView::Arrow, 2))
        } else {
            Some((TokenView::Minus, 1))
        }
    } else if c == '>' {
        if d == Some('=') {
            Some((TokenView::GreaterEqual, 2))
        } else {
            Some((TokenView::Greater, 1))
        }
    } else if c == '<' {
        if d == Some('=') {
            Some((TokenView::LessEqual, 2))
        } else {
            Some((TokenView::Less, 1))
        }
    } else if c == '!' {
        if d == Some('=') {
            Some((TokenView::NotEqual, 2))
        } else {
            None
        }
    } else if c == '(' {
        Some((TokenView::LeftParen, 1))
    } else if c == ')' {
        Some((TokenView::RightParen, 1))
    } else if c == '{' {
        Some((TokenView::LeftBrace, 1))
    } else if c == '}' {
        Some((TokenView::RightBrace, 1))
    } else if c == '[' {
        Some((TokenView::LeftBracket, 1))
    } else if c == ']' {
        Some((TokenView::RightBracket, 1))
    } else if c == ';' {
        Some((TokenView::Semi, 1))
    } else if c == ',' {
        Some((TokenView::Comma, 1))
    } else if c == '+' {
        Some((TokenView::Plus, 1))
    } else if c == '*' {
        Some((TokenView::Star, 1))
    } else if c == '/' {
        Some((TokenView::Slash, 1))
    } else if c == '%' {
        Some((TokenView::Percent, 1))
    } else if c == '.' {
        Some((TokenView::Dot, 1))
    } else {
        None
    }
}

/// The lexeme that starts at position `i` of the source, which is within
/// it, and where it ends.
///
/// - White space is the longest run of white space.
/// - A word is the longest run of letters, digits and `_` that starts with
///   a letter or `_`: a keyword if it spells one, else an identifier.
/// - A number is the longest run of digits.
/// - A string literal reaches from its opening quote to its closing quote
///   and keeps both. Without a closing quote the characters that were read
///   for it are an error.
/// - Punctuation and operators: see [`operator_at`].
/// - Any other character is an error of its own.
pub open spec fn lexeme_at(s: Seq<char>, i: int) -> (Lexeme, int) {
    let c = s[i];
    if is_space(c) {
        (Lexeme::Skip, run_end(s, i, CharClass::Space))
    } else if is_identifier_start(c) {
        let end = run_end(s, i, CharClass::IdentifierPart);
        let text = s.subrange(i, end);
        match keyword(text) {
            Some(t) => (Lexeme::Token(t), end),
            None => (Lexeme::Token(TokenView::Identifier(text)), end),
        }
    } else if is_digit(c) {
        let end = run_end(s, i, CharClass::Digit);
        (Lexeme::Token(TokenView::Number(number_value(s.subrange(i, end)))), end)
    } else if c == '"' {
        let (closed, end) = string_end(s, i + 1);
        if closed {
            (Lexeme::Token(TokenView::String(s.subrange(i, end))), end)
        } else {
            (Lexeme::Error, end)
        }
    } else {
        match operator_at(s, i) {
            Some((t, length)) => (Lexeme::Token(t), i + length),
            None => (Lexeme::Error, i + 1),
        }
    }
}

/// A stretch of the source that starts no token, in characters from the
/// start of the source.
#[derive(Clone, Copy, Debug, PartialEq, Eq)]
pub struct LexError {
    pub start: usize,
    pub end: usize,
}

impl View for LexError {
    type V = (int, int);

    open spec fn view(&self) -> (int, int) {
        (self.start as int, self.end as int)
    }
}

/// The models of a sequence of errors, element by element.
pub open spec fn error_views(errors: Seq<LexError>) -> Seq<(int, int)> {
    errors.map_values(|e: LexError| e@)
}

/// What lexing yields: the tokens in source order, and the stretches that
/// were skipped as errors, each from its first character to behind its
/// last.
pub struct Lexed {
    pub tokens: Seq<TokenView>,
    pub errors: Seq<(int, int)>,
}

/// The tokens and errors of the source from position `i` on.
pub open spec fn lex_from(s: Seq<char>, i: int) -> Lexed
    decreases s.len() - i,
{
    if i < 0 || i >= s.len() {
        Lexed { tokens: Seq::empty(), errors: Seq::empty() }
    } else {
        let (lexeme, end) = lexeme_at(s, i);
        if end <= i || end > s.len() {
            Lexed { tokens: Seq::empty(), errors: Seq::empty() }
        } else {
            let rest = lex_from(s, end);
            match lexeme {
                Lexeme::Token(t) => Lexed { tokens: seq![t] + rest.tokens, errors: rest.errors },
                Lexeme::Skip => rest,
                Lexeme::Error => Lexed {
                    tokens: rest.tokens,
                    errors: seq![(i, end)] + rest.errors,
                },
            }
        }
    }
}

/// The tokens of a source text, in source order.
pub open spec fn tokens_of(s: Seq<char>) -> Seq<TokenView> {
    lex_from(s, 0).tokens
}

/// A run ends within the text and behind its start if its first character
/// is of the class.
pub proof fn lemma_run_end(s: Seq<char>, from: int, class: CharClass)
    requires
        0 <= from <= s.len(),
    ensures
        from <= run_end(s, from, class) <= s.len(),
        from < s.len() && in_class(class, s[from]) ==> run_end(s, from, class) > from,
        forall|k: int| from <= k < run_end(s, from, class) ==> in_class(class, #[trigger] s[k]),
        run_end(s, from, class) < s.len() ==> !in_class(class, s[run_end(s, from, class)]),
    decreases s.len() - from,
{
    if from < s.len() && in_class(class, s[from]) {
        lemma_run_end(s, from + 1, class);
    }
}

/// The body of a string literal ends within the text, behind where it
/// started unless the text ends there.
pub proof fn lemma_string_end(s: Seq<char>, from: int)
    requires
        0 <= from <= s.len(),
    ensures
        from <= string_end(s, from).1 <= s.len(),
        string_end(s, from).0 ==> string_end(s, from).1 > from,
    decreases s.len() - from,
{
    if from < s.len() && s[from] != '"' {
        if s[from] == '\\' {
            if from + 1 < s.len() && s[from + 1] != '\n' {
                lemma_string_end(s, from + 2);
            }
        } else {
            lemma_string_end(s, from + 1);
        }
    }
}

/// Every lexeme is at least one character long and ends within the text:
/// the lexer never stops before the end of the source.
pub proof fn lemma_lexeme_advances(s: Seq<char>, i: int)
    requires
        0 <= i < s.len(),
    ensures
        i < lexeme_at(s, i).1 <= s.len(),
{
    lemma_run_end(s, i, CharClass::Space);
    lemma_run_end(s, i, CharClass::IdentifierPart);
    lemma_run_end(s, i, CharClass::Digit);
    lemma_string_end(s, i + 1);
}

/// White space is skipped: the lexer never yields the token `Whitespace`.
pub proof fn lemma_no_whitespace_token(s: Seq<char>, i: int, k: int)
    requires
        0 <= k < lex_from(s, i).tokens.len(),
    ensures
        !(lex_from(s, i).tokens[k] is Whitespace),
    decreases s.len() - i,
{
    if 0 <= i < s.len() {
        let (lexeme, end) = lexeme_at(s, i);
        if i < end <= s.len() {
            match lexeme {
                Lexeme::Token(t) => {
                    if k > 0 {
                        lemma_no_whitespace_token(s, end, k - 1);
                    }
                },
                _ => {
                    lemma_no_whitespace_token(s, end, k);
                },
            }
        }
    }
}

/// Whether the character is white space.
fn space_char(c: char) -> (r: bool)
    ensures
        r == is_space(c),
{
    c == ' ' || c == '\t' || c == '\n' || c == '\x0C'
}

/// Whether the character is a decimal digit.
fn digit_char(c: char) -> (r: bool)
    ensures
        r == is_digit(c),
{
    '0' <= c && c <= '9'
}

/// Whether the character can start an identifier.
fn identifier_start_char(c: char) -> (r: bool)
    ensures
        r == is_identifier_start(c),
{
    ('a' <= c && c <= 'z') || ('A' <= c && c <= 'Z') || c == '_'
}

/// Whether the character belongs to the class.
fn class_holds(class: CharClass, c: char) -> (r: bool)
    ensures
        r == in_class(class, c),
{
    match class {
        CharClass::Space => space_char(c),
        CharClass::Digit => digit_char(c),
        CharClass::IdentifierPart => identifier_start_char(c) || digit_char(c),
    }
}

/// Where the longest run of characters of the class that starts at `from`
/// ends.
fn scan_run(chars: &Vec<char>, from: usize, class: CharClass) -> (end: usize)
    requires
        from <= chars.len(),
    ensures
        end == run_end(chars@, from as int, class),
        from <= end <= chars.len(),
{
    let mut end: usize = from;
    while end < chars.len() && class_holds(class, chars[end])
        invariant
            from <= end <= chars.len(),
            run_end(chars@, from as int, class) == run_end(chars@, end as int, class),
        decreases chars.len() - end,
    {
        end += 1;
    }
    end
}

/// The keyword that the text spells, if any.
fn keyword_of(text: &String) -> (found: Option<Token>)
    ensures
        match keyword(text@) {
            Some(t) => found is Some && found->Some_0@ == t,
            None => found is None,
        },
{
    if *text == String::from_str("fn") {
        Some(Token::Fn)
    } else if *text == String::from_str("let") {
        Some(Token::Let)
    } else if *text == String::from_str("if") {
        Some(Token::If)
    } else if *text == String::from_str("else") {
        Some(Token::Else)
    } else if *text == String::from_str("elif") {
        Some(Token::Elif)
    } else if *text == String::from_str("for") {
        Some(Token::For)
    } else if *text == String::from_str("while") {
        Some(Token::While)
    } else if *text == String::from_str("break") {
        Some(Token::Break)
    } else if *text == String::from_str("continue") {
        Some(Token::Continue)
    } else if *text == String::from_str("in") {
        Some(Token::In)
    } else if *text == String::from_str("unsafe") {
        Some(Token::Unsafe)
    } else if *text == String::from_str("import") {
        Some(Token::Import)
    } else if *text == String::from_str("as") {
        Some(Token::As)
    } else {
        None
    }
}

/// The value of the integer literal `chars[from..to]`.
fn parse_number(chars: &Vec<char>, from: usize, to: usize) -> (value: i64)
    requires
        from <= to <= chars.len(),
        forall|k: int| from <= k < to ==> is_digit(#[trigger] chars@[k]),
    ensures
        value == number_value(chars@.subrange(from as int, to as int)),
{
    let mut value: i64 = 0;
    let mut fits = true;
    let mut i: usize = from;
    while i < to
        invariant
            from <= i <= to <= chars.len(),
            forall|k: int| from <= k < to ==> is_digit(#[trigger] chars@[k]),
            fits ==> 0 <= value && value == digits_value(chars@.subrange(from as int, i as int)),
            !fits ==> digits_value(chars@.subrange(from as int, i as int)) > i64::MAX,
        decreases to - i,
    {
        let ghost before = chars@.subrange(from as int, i as int);
        let ghost after = chars@.subrange(from as int, i as int + 1);
        proof {
            assert(after.drop_last() == before);
        }
        if fits {
            let d: i64 = (chars[i] as u32 - '0' as u32) as i64;
            match value.checked_mul(10) {
                Some(scaled) => {
                    match scaled.checked_add(d) {
                        Some(next) => {
                            value = next;
                        },
                        None => {
                            fits = false;
                        },
                    }
                },
                None => {
                    fits = false;
                },
            }
        }
        i += 1;
    }
    if fits {
        value
    } else {
        0
    }
}

/// How far the body of a string literal reaches from `from`, and whether
/// it ends there with a closing quote.
fn scan_string(chars: &Vec<char>, from: usize) -> (found: (bool, usize))
    requires
        from <= chars.len(),
    ensures
        found.0 == string_end(chars@, from as int).0,
        found.1 == string_end(chars@, from as int).1,
        from <= found.1 <= chars.len(),
{
    let n = chars.len();
    let mut at: usize = from;
    while at < n
        invariant
            n == chars.len(),
            from <= at <= n,
            string_end(chars@, from as int) == string_end(chars@, at as int),
        decreases n - at,
    {
        let c = chars[at];
        if c == '"' {
            return (true, at + 1);
        } else if c == '\\' {
            if at + 1 < n && chars[at + 1] != '\n' {
                at += 2;
            } else {
                return (false, at + 1);
            }
        } else {
            at += 1;
        }
    }
    (false, at)
}

/// The punctuation or operator at position `i`, with its length.
fn operator_token(chars: &Vec<char>, i: usize) -> (found: Option<(Token, usize)>)
    requires
        i < chars.len(),
    ensures
        match operator_at(chars@, i as int) {
            Some((t, length)) => found is Some && found->Some_0.0@ == t && found->Some_0.1
                == length,
            None => found is None,
        },
{
    let c = chars[i];
    let paired = i + 1 < chars.len();
    if c == '=' {
        if paired && chars[i + 1] == '=' {
            Some((Token::Equal, 2))
        } else {
            Some((Token::Equals, 1))
        }
    } else if c == ':' {
        if paired && chars[i + 1] == ':' {
            Some((Token::DoubleColon, 2))
        } else {
            Some((Token::Colon, 1))
        }
    } else if c == '-' {
        if paired && chars[i + 1] == '>' {
            Some((Token::Arrow, 2))
        } else {
            Some((Token::Minus, 1))
        }
    } else if c == '>' {
        if paired && chars[i + 1] == '=' {
            Some((Token::GreaterEqual, 2))
        } else {
            Some((Token::Greater, 1))
        }
    } else if c == '<' {
        if paired && chars[i + 1] == '=' {
            Some((Token::LessEqual, 2))
        } else {
            Some((Token::Less, 1))
        }
    } else if c == '!' {
        if paired && chars[i + 1] == '=' {
            Some((Token::NotEqual, 2))
        } else {
            None
        }
    } else if c == '(' {
        Some((Token::LeftParen, 1))
    } else if c == ')' {
        Some((Token::RightParen, 1))
    } else if c == '{' {
        Some((Token::LeftBrace, 1))
    } else if c == '}' {
        Some((Token::RightBrace, 1))
    } else if c == '[' {
        Some((Token::LeftBracket, 1))
    } else if c == ']' {
        Some((Token::RightBracket, 1))
    } else if c == ';' {
        Some((Token::Semi, 1))
    } else if c == ',' {
        Some((Token::Comma, 1))
    } else if c == '+' {
        Some((Token::Plus, 1))
    } else if c == '*' {
        Some((Token::Star, 1))
    } else if c == '/' {
        Some((Token::Slash, 1))
    } else if c == '%' {
        Some((Token::Percent, 1))
    } else if c == '.' {
        Some((Token::Dot, 1))
    } else {
        None
    }
}

/// The token at position `i`, if a token starts there, and where the
/// lexeme ends.
fn next_lexeme(chars: &Vec<char>, i: usize) -> (found: (Option<Token>, bool, usize))
    requires
        i < chars.len(),
    ensures
        i < found.2 <= chars.len(),
        found.2 == lexeme_at(chars@, i as int).1,
        match lexeme_at(chars@, i as int).0 {
            Lexeme::Token(t) => found.0 is Some && found.0->Some_0@ == t && !found.1,
            Lexeme::Skip => found.0 is None && !found.1,
            Lexeme::Error => found.0 is None && found.1,
        },
{
    proof {
        lemma_lexeme_advances(chars@, i as int);
    }
    let c = chars[i];
    if space_char(c) {
        (None, false, scan_run(chars, i, CharClass::Space))
    } else if identifier_start_char(c) {
        let end = scan_run(chars, i, CharClass::IdentifierPart);
        let text = string_of(chars, i, end);
        match keyword_of(&text) {
            Some(t) => (Some(t), false, end),
            None => (Some(Token::Identifier(text)), false, end),
        }
    } else if digit_char(c) {
        let end = scan_run(chars, i, CharClass::Digit);
        proof {
            lemma_run_end(chars@, i as int, CharClass::Digit);
        }
        (Some(Token::Number(parse_number(chars, i, end))), false, end)
    } else if c == '"' {
        let (closed, end) = scan_string(chars, i + 1);
        if closed {
            (Some(Token::String(string_of(chars, i, end))), false, end)
        } else {
            (None, true, end)
        }
    } else {
        match operator_token(chars, i) {
            Some((t, length)) => (Some(t), false, i + length),
            None => (None, true, i + 1),
        }
    }
}

/// The lexer: it holds a source text, the tokens that the text consists of
/// and the stretches that it skipped as errors.
#[derive(Debug)]
pub struct Lexer {
    source: String,
    tokens: Vec<Token>,
    errors: Vec<LexError>,
}

impl Lexer {
    /// What the lexer holds is what lexing its source yields.
    #[verifier::type_invariant]
    spec fn consistent(self) -> bool {
        &&& token_views(self.tokens@) == lex_from(self.source@, 0).tokens
        &&& error_views(self.errors@) == lex_from(self.source@, 0).errors
    }

    /// The characters of the source text.
    pub closed spec fn text(self) -> Seq<char> {
        self.source@
    }

    /// Lexes the source text, in full. Lexing never fails: what starts no
    /// token is skipped and recorded as an error.
    pub fn new(source: String) -> (lexer: Lexer)
        ensures
            lexer.text() == source@,
    {
        let chars = chars_of(source.as_str());
        let mut tokens: Vec<Token> = Vec::new();
        let mut errors: Vec<LexError> = Vec::new();
        let mut i: usize = 0;
        while i < chars.len()
            invariant
                i <= chars.len(),
                token_views(tokens@) + lex_from(chars@, i as int).tokens == lex_from(
                    chars@,
                    0,
                ).tokens,
                error_views(errors@) + lex_from(chars@, i as int).errors == lex_from(
                    chars@,
                    0,
                ).errors,
            decreases chars.len() - i,
        {
            let (token, error, end) = next_lexeme(&chars, i);
            match token {
                Some(t) => {
                    tokens.push(t);
                },
                None => {},
            }
            if error {
                errors.push(LexError { start: i, end });
            }
            i = end;
        }
        Lexer { source, tokens, errors }
    }

    /// The tokens of the source text, in source order.
    pub fn tokenize(&self) -> (tokens: &[Token])
        ensures
            token_views(tokens@) == tokens_of(self.text()),
    {
        proof {
            use_type_invariant(self);
        }
        self.tokens.as_slice()
    }

    /// The stretches of the source that were skipped because no token
    /// starts there, in source order.
    pub fn errors(&self) -> (errors: &[LexError])
        ensures
            error_views(errors@) == lex_from(self.text(), 0).errors,
    {
        proof {
            use_type_invariant(self);
        }
        self.errors.as_slice()
    }

    /// The source text.
    pub fn source(&self) -> (source: &str)
        ensures
            source@ == self.text(),
    {
        self.source.as_str()
    }
}

/// The tokens of a source text, in source order.
pub fn tokenize(source: &str) -> (tokens: Vec<Token>)
    ensures
        token_views(tokens@) == tokens_of(source@),
{
    let lexer = Lexer::new(String::from_str(source));
    proof {
        use_type_invariant(&lexer);
    }
    let Lexer { source: _, tokens, errors: _ } = lexer;
    tokens
}

} // verus!
