//! The scanner: from source text to tokens.
//!
//! [`scan`] says what the tokens and errors of a source text are;
//! [`Scanner::scan_tokens`] computes them.
use vstd::prelude::*;
use vstd::string::StringExecFns;
use crate::text::{alphabetic, char_is_alphabetic, chars_of, slice_text};
use crate::token::{token_views, Token, TokenType, TokenView};

pub mod error;
pub mod keyword;

pub use error::{ScanError, ScanErrorView};
pub use keyword::{get_keywords, keyword, keyword_type};

verus! {

/// Whether `c` is one of the ten decimal digits.
pub open spec fn is_digit_spec(c: char) -> bool {
    '0' <= c && c <= '9'
}

/// Whether `c` may start a name: a letter or an underscore.
pub open spec fn is_alpha_spec(c: char) -> bool {
    alphabetic(c) || c == '_'
}

/// Whether `c` may continue a name: a letter, an underscore or a digit.
pub open spec fn is_alpha_numeric_spec(c: char) -> bool {
    is_alpha_spec(c) || is_digit_spec(c)
}

/// Whether `ch` is one of the ten decimal digits.
pub fn is_digit(ch: char) -> (r: bool)
    ensures
        r == is_digit_spec(ch),
{
    '0' <= ch && ch <= '9'
}

/// Whether `ch` is a letter or an underscore.
pub fn is_alpha(ch: char) -> (r: bool)
    ensures
        r == is_alpha_spec(ch),
{
    char_is_alphabetic(ch) || ch == '_'
}

/// Whether `ch` is a letter, an underscore or a digit.
pub fn is_alpha_numeric(ch: char) -> (r: bool)
    ensures
        r == is_alpha_numeric_spec(ch),
{
    is_alpha(ch) || is_digit(ch)
}

/// The stretches of characters that a lexeme can run over.
pub enum Run {
    /// Decimal digits.
    Digits,
    /// Letters, underscores and digits.
    Word,
    /// Anything up to the end of the line.
    Comment,
    /// Anything up to a double quote.
    Text,
}

/// Whether `c` belongs to a stretch of kind `run`.
pub open spec fn in_run(run: Run, c: char) -> bool {
    match run {
        Run::Digits => is_digit_spec(c),
        Run::Word => is_alpha_numeric_spec(c),
        Run::Comment => c != '\n',
        Run::Text => c != '"',
    }
}

/// The first position at or after `pos` whose character does not belong to
/// `run`, or the end of `src` if there is none.
pub open spec fn run_end(src: Seq<char>, pos: int, run: Run) -> int
    decreases src.len() - pos,
{
    if 0 <= pos < src.len() && in_run(run, src[pos]) {
        run_end(src, pos + 1, run)
    } else {
        pos
    }
}

/// The line after `line`. Line numbers stop at the largest `usize`.
pub open spec fn next_line(line: usize) -> usize {
    if line < usize::MAX {
        (line + 1) as usize
    } else {
        line
    }
}

/// The line reached from `line` after the characters `from..to` of `src`:
/// every newline among them starts a new line.
pub open spec fn line_after(src: Seq<char>, from: int, to: int, line: usize) -> usize
    decreases to - from,
{
    if 0 <= from < to && from < src.len() {
        line_after(
            src,
            from + 1,
            to,
            if src[from] == '\n' {
                next_line(line)
            } else {
                line
            },
        )
    } else {
        line
    }
}

/// What one step of the scanner found.
pub enum Outcome {
    /// A token of this kind.
    Token(TokenType),
    /// Blank space or a comment.
    Skip,
    /// An error with this message.
    Fault(Seq<char>),
}

/// One step of the scanner: where the next lexeme starts, the line reached,
/// and what was found.
pub struct Step {
    pub end: int,
    pub line: usize,
    pub outcome: Outcome,
}

/// Whether the character at `pos` is `c`.
pub open spec fn char_at(src: Seq<char>, pos: int, c: char) -> bool {
    0 <= pos < src.len() && src[pos] == c
}

/// A token of one character.
pub open spec fn single(start: int, line: usize, typ: TokenType) -> Step {
    Step { end: start + 1, line, outcome: Outcome::Token(typ) }
}

/// A token of two characters if `second` follows, else the token of one.
pub open spec fn pair(
    src: Seq<char>,
    start: int,
    line: usize,
    second: char,
    two: TokenType,
    one: TokenType,
) -> Step {
    if char_at(src, start + 1, second) {
        Step { end: start + 2, line, outcome: Outcome::Token(two) }
    } else {
        single(start, line, one)
    }
}

/// Where the number that starts at `start` ends: after its digits, and
/// after a dot and more digits if they follow at once.
pub open spec fn number_end(src: Seq<char>, start: int) -> int {
    let whole = run_end(src, start, Run::Digits);
    if char_at(src, whole, '.') && whole + 1 < src.len() && is_digit_spec(src[whole + 1]) {
        run_end(src, whole + 1, Run::Digits)
    } else {
        whole
    }
}

/// The kind of the word `word`: that of the reserved word, or an identifier.
pub open spec fn word_type(word: Seq<char>) -> TokenType {
    match keyword_type(word) {
        Some(typ) => typ,
        None => TokenType::Identifier,
    }
}

/// What the scanner finds at `start`, where a lexeme begins on line `line`.
pub open spec fn scan_step(src: Seq<char>, start: int, line: usize) -> Step
    recommends
        0 <= start < src.len(),
{
    let c = src[start];
    if c == '(' {
        single(start, line, TokenType::LeftParen)
    } else if c == ')' {
        single(start, line, TokenType::RightParen)
    } else if c == '{' {
        single(start, line, TokenType::LeftBrace)
    } else if c == '}' {
        single(start, line, TokenType::RightBrace)
    } else if c == ',' {
        single(start, line, TokenType::Comma)
    } else if c == '.' {
        single(start, line, TokenType::Dot)
    } else if c == '-' {
        single(start, line, TokenType::Minus)
    } else if c == '+' {
        single(start, line, TokenType::Plus)
    } else if c == ';' {
        single(start, line, TokenType::SemiColon)
    } else if c == '*' {
        single(start, line, TokenType::Star)
    } else if c == '!' {
        pair(src, start, line, '=', TokenType::BangEqual, TokenType::Bang)
    } else if c == '=' {
        pair(src, start, line, '=', TokenType::EqualEqual, TokenType::Equal)
    } else if c == '<' {
        pair(src, start, line, '=', TokenType::LessEqual, TokenType::Less)
    } else if c == '>' {
        pair(src, start, line, '=', TokenType::GreaterEqual, TokenType::Greater)
    } else if c == '/' {
        if char_at(src, start + 1, '/') {
            Step { end: run_end(src, start + 2, Run::Comment), line, outcome: Outcome::Skip }
        } else {
            single(start, line, TokenType::Slash)
        }
    } else if c == '"' {
        let close = run_end(src, start + 1, Run::Text);
        let reached = line_after(src, start + 1, close, line);
        if close < src.len() {
            Step { end: close + 1, line: reached, outcome: Outcome::Token(TokenType::String) }
        } else {
            Step { end: close, line: reached, outcome: Outcome::Fault("Unterminated String"@) }
        }
    } else if c == '\n' {
        Step { end: start + 1, line: next_line(line), outcome: Outcome::Skip }
    } else if c == ' ' || c == '\r' || c == '\t' {
        Step { end: start + 1, line, outcome: Outcome::Skip }
    } else if is_digit_spec(c) {
        Step { end: number_end(src, start), line, outcome: Outcome::Token(TokenType::Number) }
    } else if is_alpha_spec(c) {
        let end = run_end(src, start + 1, Run::Word);
        Step { end, line, outcome: Outcome::Token(word_type(src.subrange(start, end))) }
    } else {
        Step { end: start + 1, line, outcome: Outcome::Fault("Unexpected Character"@) }
    }
}

/// The identity after `id`. Identities start over after the largest `u64`.
pub open spec fn next_id(id: u64) -> u64 {
    if id < u64::MAX {
        (id + 1) as u64
    } else {
        0
    }
}

/// The tokens and the errors of a source text.
pub struct Scan {
    pub tokens: Seq<TokenView>,
    pub errors: Seq<ScanErrorView>,
}

/// The result of scanning `src` from `pos` on, on line `line`, where the next
/// token gets identity `id` and `tokens` and `errors` were found before.
/// The last token marks the end of the input.
pub open spec fn scan_from(
    src: Seq<char>,
    pos: int,
    line: usize,
    id: u64,
    tokens: Seq<TokenView>,
    errors: Seq<ScanErrorView>,
) -> Scan
    decreases src.len() - pos,
{
    if 0 <= pos < src.len() {
        let step = scan_step(src, pos, line);
        proof {
            lemma_step_advances(src, pos, line);
        }
        match step.outcome {
            Outcome::Token(typ) => scan_from(
                src,
                step.end,
                step.line,
                next_id(id),
                tokens.push(
                    TokenView { id, typ, lexeme: src.subrange(pos, step.end), line: step.line },
                ),
                errors,
            ),
            Outcome::Skip => scan_from(src, step.end, step.line, id, tokens, errors),
            Outcome::Fault(message) => scan_from(
                src,
                step.end,
                step.line,
                id,
                tokens,
                errors.push(ScanErrorView { line: step.line, message, pos: None }),
            ),
        }
    } else {
        Scan {
            tokens: tokens.push(
                TokenView { id, typ: TokenType::Eof, lexeme: Seq::empty(), line },
            ),
            errors,
        }
    }
}

/// The tokens and errors of the source text `src`, where the first token
/// gets identity `first_id`. Lines count from 1.
pub open spec fn scan(src: Seq<char>, first_id: u64) -> Scan {
    scan_from(src, 0, 1, first_id, Seq::empty(), Seq::empty())
}

/// A stretch ends at or after where it starts, inside the text.
pub proof fn lemma_run_end(src: Seq<char>, pos: int, run: Run)
    requires
        0 <= pos <= src.len(),
    ensures
        pos <= run_end(src, pos, run) <= src.len(),
        forall|i: int| pos <= i < run_end(src, pos, run) ==> in_run(run, #[trigger] src[i]),
        run_end(src, pos, run) < src.len() ==> !in_run(run, src[run_end(src, pos, run)]),
    decreases src.len() - pos,
{
    if pos < src.len() && in_run(run, src[pos]) {
        lemma_run_end(src, pos + 1, run);
    }
}

/// Every step of the scanner consumes at least one character and stays
/// inside the text.
pub proof fn lemma_step_advances(src: Seq<char>, start: int, line: usize)
    requires
        0 <= start < src.len(),
    ensures
        start < scan_step(src, start, line).end <= src.len(),
{
    lemma_run_end(src, start + 1, Run::Text);
    lemma_run_end(src, start + 1, Run::Word);
    lemma_run_end(src, start, Run::Digits);
    if start + 2 <= src.len() {
        lemma_run_end(src, start + 2, Run::Comment);
    }
    let whole = run_end(src, start, Run::Digits);
    if whole + 1 <= src.len() {
        lemma_run_end(src, whole + 1, Run::Digits);
    }
}

/// The tokens of a text end with the end of the input, whatever the text
/// holds.
pub proof fn lemma_scan_ends(
    src: Seq<char>,
    pos: int,
    line: usize,
    id: u64,
    tokens: Seq<TokenView>,
    errors: Seq<ScanErrorView>,
)
    ensures
        scan_from(src, pos, line, id, tokens, errors).tokens.len() > tokens.len(),
        scan_from(src, pos, line, id, tokens, errors).tokens.last().typ == TokenType::Eof,
        scan_from(src, pos, line, id, tokens, errors).errors.len() >= errors.len(),
    decreases src.len() - pos,
{
    if 0 <= pos < src.len() {
        let step = scan_step(src, pos, line);
        lemma_step_advances(src, pos, line);
        match step.outcome {
            Outcome::Token(typ) => {
                lemma_scan_ends(
                    src,
                    step.end,
                    step.line,
                    next_id(id),
                    tokens.push(
                        TokenView { id, typ, lexeme: src.subrange(pos, step.end), line: step.line },
                    ),
                    errors,
                );
            },
            Outcome::Skip => {
                lemma_scan_ends(src, step.end, step.line, id, tokens, errors);
            },
            Outcome::Fault(message) => {
                lemma_scan_ends(
                    src,
                    step.end,
                    step.line,
                    id,
                    tokens,
                    errors.push(ScanErrorView { line: step.line, message, pos: None }),
                );
            },
        }
    }
}

/// Where a stretch ends is decided by its characters: it ends at `end` if
/// all characters from `pos` to `end` belong to it and the one at `end`, if
/// there is one, does not.
pub proof fn lemma_run_end_is(src: Seq<char>, pos: int, run: Run, end: int)
    requires
        0 <= pos <= end <= src.len(),
        forall|i: int| pos <= i < end ==> in_run(run, #[trigger] src[i]),
        end < src.len() ==> !in_run(run, src[end]),
    ensures
        run_end(src, pos, run) == end,
    decreases end - pos,
{
    if pos < end {
        lemma_run_end_is(src, pos + 1, run, end);
    }
}

/// Whether the characters `from..to` of `text` are all digits.
pub open spec fn all_digits(text: Seq<char>, from: int, to: int) -> bool {
    forall|i: int| from <= i < to ==> is_digit_spec(#[trigger] text[i])
}

/// Whether `text` is digits up to `dot`, and from there on either nothing
/// or a dot and more digits.
pub open spec fn number_with_dot_at(text: Seq<char>, dot: int) -> bool {
    0 < dot <= text.len() && all_digits(text, 0, dot) && (dot == text.len() || (text[dot] == '.'
        && dot + 1 < text.len() && all_digits(text, dot + 1, text.len() as int)))
}

/// Whether `text` is a number as the language writes it: digits, and
/// after them, if anything, a dot and more digits.
pub open spec fn is_number_literal(text: Seq<char>) -> bool {
    exists|dot: int| number_with_dot_at(text, dot)
}

/// A number scans to itself: the tokens of a number literal are one number,
/// whose lexeme is the literal as written, and the end of the input. There
/// are no errors.
pub proof fn lemma_number_round_trip(text: Seq<char>, first_id: u64)
    requires
        is_number_literal(text),
    ensures
        scan(text, first_id).errors == Seq::<ScanErrorView>::empty(),
        scan(text, first_id).tokens == seq![
            TokenView { id: first_id, typ: TokenType::Number, lexeme: text, line: 1 },
            TokenView {
                id: next_id(first_id),
                typ: TokenType::Eof,
                lexeme: Seq::empty(),
                line: 1,
            },
        ],
{
    let dot = choose|dot: int| number_with_dot_at(text, dot);
    let end = text.len() as int;
    lemma_run_end_is(text, 0, Run::Digits, dot);
    if dot < end {
        lemma_run_end_is(text, dot + 1, Run::Digits, end);
    }
    assert(number_end(text, 0) == end);
    assert(is_digit_spec(text[0]));
    let step = scan_step(text, 0, 1);
    assert(step.end == end);
    assert(step.outcome == Outcome::Token(TokenType::Number));
    assert(text.subrange(0, end) =~= text);
    let first = TokenView { id: first_id, typ: TokenType::Number, lexeme: text, line: 1 };
    let found = Seq::<TokenView>::empty().push(first);
    assert(scan(text, first_id) == scan_from(text, end, 1, next_id(first_id), found, Seq::empty()));
    assert(scan(text, first_id).tokens =~= seq![
        first,
        TokenView { id: next_id(first_id), typ: TokenType::Eof, lexeme: Seq::empty(), line: 1 },
    ]);
}

/// The errors of `errors` as mathematical values.
pub open spec fn error_views(errors: Seq<ScanError>) -> Seq<ScanErrorView> {
    Seq::new(errors.len(), |i: int| errors[i]@)
}

/// The scanner's state: the text, the tokens found so far, where the current
/// lexeme starts, the next character to read, and the current line.
#[derive(Debug)]
pub struct Scanner {
    pub source: Vec<char>,
    pub tokens: Vec<Token>,
    pub start: usize,
    pub current: usize,
    pub line: usize,
    pub next_id: u64,
}

/// What scanning a text gives: its tokens, the errors found on the way, and
/// the identity that the next token to be made should get.
#[derive(Debug)]
pub struct ScanResults {
    pub tokens: Vec<Token>,
    pub errors: Vec<ScanError>,
    pub next_id: u64,
}

impl Scanner {
    /// The positions are inside the text.
    pub open spec fn wf(&self) -> bool {
        self.start <= self.current <= self.source.len()
    }

    /// What `self` has left to do: the result of scanning on from its state
    /// with no errors so far.
    pub open spec fn remaining(&self, errors: Seq<ScanErrorView>) -> Scan {
        scan_from(
            self.source@,
            self.current as int,
            self.line,
            self.next_id,
            token_views(self.tokens@),
            errors,
        )
    }

    /// A scanner at the start of `source`, whose tokens get identities from 0.
    pub fn new(source: String) -> (scanner: Scanner)
        ensures
            scanner.wf(),
            scanner.remaining(Seq::empty()) == scan(source@, 0),
    {
        Scanner::starting_at(source, 0)
    }

    /// A scanner at the start of `source`, whose tokens get identities from
    /// `first_id`.
    pub fn starting_at(source: String, first_id: u64) -> (scanner: Scanner)
        ensures
            scanner.wf(),
            scanner.remaining(Seq::empty()) == scan(source@, first_id),
    {
        let scanner = Scanner {
            source: chars_of(source.as_str()),
            tokens: Vec::new(),
            start: 0,
            current: 0,
            line: 1,
            next_id: first_id,
        };
        assert(token_views(scanner.tokens@) =~= Seq::empty());
        scanner
    }

    /// Scans the whole text: all its tokens, the last of which marks the end
    /// of the input, and all the errors met on the way.
    pub fn scan_tokens(self) -> (results: ScanResults)
        requires
            self.wf(),
        ensures
            token_views(results.tokens@) == self.remaining(Seq::empty()).tokens,
            error_views(results.errors@) == self.remaining(Seq::empty()).errors,
            results.next_id == next_id(
                results.tokens@[results.tokens@.len() - 1].id,
            ),
            results.tokens@.len() > 0,
            results.tokens@.last().typ == TokenType::Eof,
    {
        let mut scanner = self;
        let ghost goal = scanner.remaining(Seq::empty());
        let mut errors: Vec<ScanError> = Vec::new();
        assert(error_views(errors@) =~= Seq::empty());
        while !scanner.is_at_end()
            invariant
                scanner.wf(),
                goal == scanner.remaining(error_views(errors@)),
            decreases scanner.source.len() - scanner.current,
        {
            // We are at the beginning of the next lexeme.
            scanner.start = scanner.current;
            proof {
                lemma_step_advances(scanner.source@, scanner.current as int, scanner.line);
            }
            let ghost before = error_views(errors@);
            match scanner.scan_intern() {
                Ok(()) => {},
                Err(err) => {
                    errors.push(err);
                    assert(error_views(errors@) =~= before.push(err@));
                },
            }
        }
        let ghost before = token_views(scanner.tokens@);
        let end = Token::new(scanner.next_id, TokenType::Eof, String::new(), scanner.line);
        scanner.tokens.push(end);
        assert(token_views(scanner.tokens@) =~= before.push(end@));
        let next_id = if scanner.next_id < u64::MAX {
            scanner.next_id + 1
        } else {
            0
        };
        ScanResults { tokens: scanner.tokens, errors, next_id }
    }

    /// Scans one lexeme: adds its token, skips it, or reports what is wrong
    /// with it.
    fn scan_intern(&mut self) -> (result: Result<(), ScanError>)
        requires
            old(self).start == old(self).current,
            old(self).current < old(self).source.len(),
        ensures
            final(self).wf(),
            final(self).source == old(self).source,
            final(self).current == scan_step(
                old(self).source@,
                old(self).current as int,
                old(self).line,
            ).end,
            final(self).line == scan_step(
                old(self).source@,
                old(self).current as int,
                old(self).line,
            ).line,
            match scan_step(old(self).source@, old(self).current as int, old(self).line).outcome {
                Outcome::Token(typ) => {
                    &&& result is Ok
                    &&& final(self).next_id == next_id(old(self).next_id)
                    &&& token_views(final(self).tokens@) == token_views(old(self).tokens@).push(
                        TokenView {
                            id: old(self).next_id,
                            typ,
                            lexeme: old(self).source@.subrange(
                                old(self).current as int,
                                final(self).current as int,
                            ),
                            line: final(self).line,
                        },
                    )
                },
                Outcome::Skip => {
                    &&& result is Ok
                    &&& final(self).next_id == old(self).next_id
                    &&& final(self).tokens == old(self).tokens
                },
                Outcome::Fault(message) => {
                    &&& result matches Err(e)
                    &&& e@ == (ScanErrorView { line: final(self).line, message, pos: None })
                    &&& final(self).next_id == old(self).next_id
                    &&& final(self).tokens == old(self).tokens
                },
            },
    {
        proof {
            lemma_step_advances(self.source@, self.current as int, self.line);
        }
        let c = self.advance();
        if c == '(' {
            self.add_token(TokenType::LeftParen);
        } else if c == ')' {
            self.add_token(TokenType::RightParen);
        } else if c == '{' {
            self.add_token(TokenType::LeftBrace);
        } else if c == '}' {
            self.add_token(TokenType::RightBrace);
        } else if c == ',' {
            self.add_token(TokenType::Comma);
        } else if c == '.' {
            self.add_token(TokenType::Dot);
        } else if c == '-' {
            self.add_token(TokenType::Minus);
        } else if c == '+' {
            self.add_token(TokenType::Plus);
        } else if c == ';' {
            self.add_token(TokenType::SemiColon);
        } else if c == '*' {
            self.add_token(TokenType::Star);
        } else if c == '!' {
            if self.match_then_advance('=') {
                self.add_token(TokenType::BangEqual);
            } else {
                self.add_token(TokenType::Bang);
            }
        } else if c == '=' {
            if self.match_then_advance('=') {
                self.add_token(TokenType::EqualEqual);
            } else {
                self.add_token(TokenType::Equal);
            }
        } else if c == '<' {
            if self.match_then_advance('=') {
                self.add_token(TokenType::LessEqual);
            } else {
                self.add_token(TokenType::Less);
            }
        } else if c == '>' {
            if self.match_then_advance('=') {
                self.add_token(TokenType::GreaterEqual);
            } else {
                self.add_token(TokenType::Greater);
            }
        } else if c == '/' {
            if self.match_then_advance('/') {
                // A comment goes until the end of the line.
                self.skip_run(Run::Comment);
            } else {
                self.add_token(TokenType::Slash);
            }
        } else if c == '"' {
            let token = self.parse_string()?;
            self.add_token(token);
        } else if c == '\n' {
            if self.line < usize::MAX {
                self.line += 1;
            }
        } else if c == ' ' || c == '\r' || c == '\t' {
            // Blank space is skipped.
        } else if is_digit(c) {
            let token = self.parse_number();
            self.add_token(token);
        } else if is_alpha(c) {
            let token = self.parse_identifier();
            self.add_token(token);
        } else {
            return Err(ScanError::new(self.line, String::from_str("Unexpected Character"), None));
        }
        Ok(())
    }

    /// Whether the whole text has been read.
    fn is_at_end(&self) -> (r: bool)
        ensures
            r == (self.current >= self.source.len()),
    {
        self.current >= self.source.len()
    }

    /// Reads the next character and moves past it.
    fn advance(&mut self) -> (ch: char)
        requires
            old(self).current < old(self).source.len(),
        ensures
            ch == old(self).source[old(self).current as int],
            *final(self) == (Scanner { current: (old(self).current + 1) as usize, ..*old(self) }),
    {
        let ch = self.source[self.current];
        self.current += 1;
        ch
    }

    /// The next character, or NUL at the end of the text.
    fn peek(&self) -> (ch: char)
        ensures
            ch == if self.current < self.source.len() {
                self.source[self.current as int]
            } else {
                '\0'
            },
    {
        if self.current < self.source.len() {
            self.source[self.current]
        } else {
            '\0'
        }
    }

    /// The character after the next, or NUL if the text ends before it.
    fn peek_next(&self) -> (ch: char)
        ensures
            ch == if self.current + 1 < self.source.len() {
                self.source[self.current + 1]
            } else {
                '\0'
            },
    {
        if self.current < self.source.len() && self.current + 1 < self.source.len() {
            self.source[self.current + 1]
        } else {
            '\0'
        }
    }

    /// Adds a token of kind `token_t` for the current lexeme.
    fn add_token(&mut self, token_t: TokenType)
        requires
            old(self).wf(),
        ensures
            final(self).tokens@ == old(self).tokens@.push(
                Token {
                    id: old(self).next_id,
                    typ: token_t,
                    lexeme: final(self).tokens@[old(self).tokens@.len() as int].lexeme,
                    line: old(self).line,
                },
            ),
            token_views(final(self).tokens@) == token_views(old(self).tokens@).push(
                TokenView {
                    id: old(self).next_id,
                    typ: token_t,
                    lexeme: old(self).source@.subrange(
                        old(self).start as int,
                        old(self).current as int,
                    ),
                    line: old(self).line,
                },
            ),
            *final(self) == (Scanner {
                tokens: final(self).tokens,
                next_id: next_id(old(self).next_id),
                ..*old(self)
            }),
    {
        let text = self.sub_string(self.start, self.current);
        let token = Token::new(self.next_id, token_t, text, self.line);
        let ghost before = token_views(self.tokens@);
        self.tokens.push(token);
        assert(token_views(self.tokens@) =~= before.push(token@));
        self.next_id = if self.next_id < u64::MAX {
            self.next_id + 1
        } else {
            0
        };
    }

    /// The characters `start..end` of the text.
    fn sub_string(&self, start: usize, end: usize) -> (text: String)
        requires
            start <= end <= self.source.len(),
        ensures
            text@ == self.source@.subrange(start as int, end as int),
    {
        slice_text(&self.source, start, end)
    }

    /// Moves past the next character if it is `match_ch`.
    fn match_then_advance(&mut self, match_ch: char) -> (matched: bool)
        requires
            old(self).wf(),
        ensures
            matched == char_at(old(self).source@, old(self).current as int, match_ch),
            *final(self) == (Scanner {
                current: if matched {
                    (old(self).current + 1) as usize
                } else {
                    old(self).current
                },
                ..*old(self)
            }),
    {
        if self.current < self.source.len() && self.source[self.current] == match_ch {
            self.current += 1;
            true
        } else {
            false
        }
    }

    /// Whether `ch` belongs to a stretch of kind `run`.
    fn belongs(run: &Run, ch: char) -> (r: bool)
        ensures
            r == in_run(*run, ch),
    {
        match run {
            Run::Digits => is_digit(ch),
            Run::Word => is_alpha_numeric(ch),
            Run::Comment => ch != '\n',
            Run::Text => ch != '"',
        }
    }

    /// Moves to the end of the stretch of kind `run` that starts at the next
    /// character, and counts the lines that it spans.
    fn skip_run(&mut self, run: Run)
        requires
            old(self).wf(),
        ensures
            final(self).current == run_end(old(self).source@, old(self).current as int, run),
            run is Text ==> final(self).line == line_after(
                old(self).source@,
                old(self).current as int,
                final(self).current as int,
                old(self).line,
            ),
            !(run is Text) ==> final(self).line == old(self).line,
            *final(self) == (Scanner {
                current: final(self).current,
                line: final(self).line,
                ..*old(self)
            }),
            final(self).wf(),
    {
        let ghost end = run_end(self.source@, self.current as int, run);
        proof {
            lemma_run_end(self.source@, self.current as int, run);
        }
        while self.current < self.source.len() && Self::belongs(&run, self.source[self.current])
            invariant
                self.wf(),
                self.current <= end <= self.source.len(),
                end == run_end(self.source@, self.current as int, run),
                *self == (Scanner { current: self.current, line: self.line, ..*old(self) }),
                run is Text ==> line_after(
                    self.source@,
                    old(self).current as int,
                    end,
                    old(self).line,
                ) == line_after(self.source@, self.current as int, end, self.line),
                !(run is Text) ==> self.line == old(self).line,
            decreases self.source.len() - self.current,
        {
            proof {
                lemma_run_end(self.source@, self.current as int + 1, run);
            }
            match run {
                Run::Text => {
                    if self.source[self.current] == '\n' && self.line < usize::MAX {
                        self.line += 1;
                    }
                },
                _ => {},
            }
            self.current += 1;
        }
    }

    /// Reads a string literal up to its closing quote. The opening quote has
    /// been read.
    fn parse_string(&mut self) -> (result: Result<TokenType, ScanError>)
        requires
            old(self).wf(),
        ensures
            final(self).wf(),
            final(self).line == line_after(
                old(self).source@,
                old(self).current as int,
                run_end(old(self).source@, old(self).current as int, Run::Text),
                old(self).line,
            ),
            *final(self) == (Scanner {
                current: final(self).current,
                line: final(self).line,
                ..*old(self)
            }),
            run_end(old(self).source@, old(self).current as int, Run::Text) < old(self).source.len() ==> {
                &&& result == Ok::<TokenType, ScanError>(TokenType::String)
                &&& final(self).current == run_end(
                    old(self).source@,
                    old(self).current as int,
                    Run::Text,
                ) + 1
            },
            run_end(old(self).source@, old(self).current as int, Run::Text) >= old(self).source.len() ==> {
                &&& result matches Err(e)
                &&& e@ == (ScanErrorView {
                    line: final(self).line,
                    message: "Unterminated String"@,
                    pos: None,
                })
                &&& final(self).current == old(self).source.len()
            },
    {
        proof {
            lemma_run_end(self.source@, self.current as int, Run::Text);
        }
        self.skip_run(Run::Text);
        if self.is_at_end() {
            return Err(ScanError::new(self.line, String::from_str("Unterminated String"), None));
        }
        // The closing quote.
        self.current += 1;
        Ok(TokenType::String)
    }

    /// Reads a number to its end. Its first digit has been read.
    fn parse_number(&mut self) -> (typ: TokenType)
        requires
            old(self).wf(),
            old(self).current == old(self).start + 1,
            is_digit_spec(old(self).source[old(self).start as int]),
        ensures
            typ == TokenType::Number,
            final(self).wf(),
            final(self).current == number_end(old(self).source@, old(self).start as int),
            *final(self) == (Scanner { current: final(self).current, ..*old(self) }),
    {
        proof {
            lemma_run_end(self.source@, self.current as int, Run::Digits);
        }
        self.skip_run(Run::Digits);
        if self.peek() == '.' && is_digit(self.peek_next()) {
            // The dot.
            self.current += 1;
            self.skip_run(Run::Digits);
        }
        TokenType::Number
    }

    /// Reads a word to its end and says whether it is reserved. Its first
    /// character has been read.
    fn parse_identifier(&mut self) -> (typ: TokenType)
        requires
            old(self).wf(),
        ensures
            final(self).wf(),
            final(self).current == run_end(old(self).source@, old(self).current as int, Run::Word),
            typ == word_type(
                old(self).source@.subrange(old(self).start as int, final(self).current as int),
            ),
            *final(self) == (Scanner { current: final(self).current, ..*old(self) }),
    {
        self.skip_run(Run::Word);
        let ident = self.sub_string(self.start, self.current);
        match keyword(ident.as_str()) {
            Some(typ) => typ,
            None => TokenType::Identifier,
        }
    }
}

} // verus!
