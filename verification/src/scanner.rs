use vstd::prelude::*;

use crate::entities::{eof_view, tokens_view, LiteralValue, LiteralView, Token, TokenType, TokenView};
use crate::errors::{results_view, LoxResult, LoxResultView};
use crate::text::{char_is_alphabetic, chars_of, is_alphabetic, is_ascii_alpha, is_digit, str_eq, string_of_range};

verus! {

// ---------------------------------------------------------------------------
// The lexical grammar of Lox, over the characters of the source.
// ---------------------------------------------------------------------------

/// A character that may continue an identifier.
pub open spec fn is_ident_char(c: char) -> bool {
    is_ascii_alpha(c) || c == '_'
}

/// Whether the character after `pos` exists and is `c`.
pub open spec fn next_is(src: Seq<char>, pos: int, c: char) -> bool {
    0 <= pos + 1 < src.len() && src[pos + 1] == c
}

/// The end of the run of identifier characters that starts at `pos`.
pub open spec fn ident_end(src: Seq<char>, pos: int) -> int
    decreases src.len() - pos,
{
    if 0 <= pos < src.len() && is_ident_char(src[pos]) {
        ident_end(src, pos + 1)
    } else {
        pos
    }
}

/// The end of the run of digits that starts at `pos`.
pub open spec fn digits_end(src: Seq<char>, pos: int) -> int
    decreases src.len() - pos,
{
    if 0 <= pos < src.len() && is_digit(src[pos]) {
        digits_end(src, pos + 1)
    } else {
        pos
    }
}

/// The end of a number literal whose first digit is at `start`: digits,
/// then a fraction only where a `.` is followed by a digit.
pub open spec fn number_end(src: Seq<char>, start: int) -> int {
    let e = digits_end(src, start + 1);
    if 0 <= e && e + 1 < src.len() && src[e] == '.' && is_digit(src[e + 1]) {
        digits_end(src, e + 1)
    } else {
        e
    }
}

/// The position of the first line break at or after `pos` (or the end).
pub open spec fn line_end(src: Seq<char>, pos: int) -> int
    decreases src.len() - pos,
{
    if 0 <= pos < src.len() && src[pos] != '\n' {
        line_end(src, pos + 1)
    } else {
        pos
    }
}

/// The position of the first `"` at or after `pos` (or the end).
pub open spec fn quote_index(src: Seq<char>, pos: int) -> int
    decreases src.len() - pos,
{
    if 0 <= pos < src.len() && src[pos] != '"' {
        quote_index(src, pos + 1)
    } else {
        pos
    }
}

/// The number of line breaks in `s`.
pub open spec fn count_newlines(s: Seq<char>) -> nat
    decreases s.len(),
{
    if s.len() == 0 {
        0
    } else {
        count_newlines(s.drop_last()) + if s.last() == '\n' {
            1nat
        } else {
            0nat
        }
    }
}

/// Where a block comment ends, and the line reached there.
pub struct CommentEnd {
    pub pos: int,
    pub line: int,
    pub closed: bool,
}

/// Skips the body of a block comment from `pos`, where `depth` comments are
/// open (comments nest): it ends just after the `*/` that closes the
/// outermost one, or fails at the end of the source.
pub open spec fn block_comment(src: Seq<char>, pos: int, line: int, depth: nat) -> CommentEnd
    decreases src.len() - pos,
{
    if pos < 0 || pos >= src.len() {
        CommentEnd { pos, line, closed: false }
    } else if src[pos] == '*' {
        if next_is(src, pos, '/') {
            if depth <= 1 {
                CommentEnd { pos: pos + 2, line, closed: true }
            } else {
                block_comment(src, pos + 2, line, (depth - 1) as nat)
            }
        } else {
            block_comment(src, pos + 1, line, depth)
        }
    } else if src[pos] == '/' {
        if next_is(src, pos, '*') {
            block_comment(src, pos + 2, line, depth + 1)
        } else {
            block_comment(src, pos + 1, line, depth)
        }
    } else if src[pos] == '\n' {
        block_comment(src, pos + 1, line + 1, depth)
    } else {
        block_comment(src, pos + 1, line, depth)
    }
}

/// The token type of a keyword, if `s` is one.
pub open spec fn keyword_type(s: Seq<char>) -> Option<TokenType> {
    if s == "and"@ {
        Some(TokenType::AND)
    } else if s == "class"@ {
        Some(TokenType::CLASS)
    } else if s == "else"@ {
        Some(TokenType::ELSE)
    } else if s == "false"@ {
        Some(TokenType::FALSE)
    } else if s == "for"@ {
        Some(TokenType::FOR)
    } else if s == "fun"@ {
        Some(TokenType::FUN)
    } else if s == "if"@ {
        Some(TokenType::IF)
    } else if s == "nil"@ {
        Some(TokenType::NIL)
    } else if s == "or"@ {
        Some(TokenType::OR)
    } else if s == "print"@ {
        Some(TokenType::PRINT)
    } else if s == "return"@ {
        Some(TokenType::RETURN)
    } else if s == "super"@ {
        Some(TokenType::SUPER)
    } else if s == "this"@ {
        Some(TokenType::THIS)
    } else if s == "true"@ {
        Some(TokenType::TRUE)
    } else if s == "var"@ {
        Some(TokenType::VAR)
    } else if s == "while"@ {
        Some(TokenType::WHILE)
    } else if s == "break"@ {
        Some(TokenType::Break)
    } else {
        None
    }
}

/// The token type of the word `s`: its keyword, or an identifier.
pub open spec fn word_type(s: Seq<char>) -> TokenType {
    match keyword_type(s) {
        Some(t) => t,
        None => TokenType::IDENTIFIER,
    }
}

/// One step of scanning: how far it reads, the line reached, the token it
/// produces (if any) and the error it reports (if any); `fatal` marks the
/// errors that make the whole scan fail.
pub struct ScanStep {
    pub end: int,
    pub line: int,
    pub token: Option<TokenType>,
    pub literal: Option<LiteralView>,
    pub error: Option<Seq<char>>,
    pub fatal: bool,
}

pub open spec fn step_token(end: int, line: int, t: TokenType) -> ScanStep {
    ScanStep { end, line, token: Some(t), literal: None, error: None, fatal: false }
}

pub open spec fn step_literal(end: int, line: int, t: TokenType, lit: LiteralView) -> ScanStep {
    ScanStep { end, line, token: Some(t), literal: Some(lit), error: None, fatal: false }
}

pub open spec fn step_skip(end: int, line: int) -> ScanStep {
    ScanStep { end, line, token: None, literal: None, error: None, fatal: false }
}

pub open spec fn step_error(end: int, line: int, message: Seq<char>, fatal: bool) -> ScanStep {
    ScanStep { end, line, token: None, literal: None, error: Some(message), fatal }
}

/// A one-character token, or its two-character form where `=` follows.
pub open spec fn step_pair(src: Seq<char>, start: int, line: int, one: TokenType, two: TokenType) -> ScanStep {
    if next_is(src, start, '=') {
        step_token(start + 2, line, two)
    } else {
        step_token(start + 1, line, one)
    }
}

/// The step of scanning that starts at `start` on line `line`.
pub open spec fn scan_step(src: Seq<char>, start: int, line: int) -> ScanStep {
    let c = src[start];
    if c == '(' {
        step_token(start + 1, line, TokenType::LEFT_PAREN)
    } else if c == ')' {
        step_token(start + 1, line, TokenType::RIGHT_PAREN)
    } else if c == '{' {
        step_token(start + 1, line, TokenType::LEFT_BRACE)
    } else if c == '}' {
        step_token(start + 1, line, TokenType::RIGHT_BRACE)
    } else if c == ',' {
        step_token(start + 1, line, TokenType::COMMA)
    } else if c == '.' {
        step_token(start + 1, line, TokenType::DOT)
    } else if c == '-' {
        step_token(start + 1, line, TokenType::MINUS)
    } else if c == '+' {
        step_token(start + 1, line, TokenType::PLUS)
    } else if c == ';' {
        step_token(start + 1, line, TokenType::SEMICOLON)
    } else if c == '*' {
        step_token(start + 1, line, TokenType::STAR)
    } else if c == '!' {
        step_pair(src, start, line, TokenType::BANG, TokenType::BANG_EQUAL)
    } else if c == '=' {
        step_pair(src, start, line, TokenType::EQUAL, TokenType::EQUAL_EQUAL)
    } else if c == '<' {
        step_pair(src, start, line, TokenType::LESS, TokenType::LESS_EQUAL)
    } else if c == '>' {
        step_pair(src, start, line, TokenType::GREATER, TokenType::GREATER_EQUAL)
    } else if c == '/' {
        if next_is(src, start, '/') {
            step_skip(line_end(src, start + 2), line)
        } else if next_is(src, start, '*') {
            let r = block_comment(src, start + 2, line, 1);
            if r.closed {
                step_skip(r.pos, r.line)
            } else {
                step_error(r.pos, r.line, "Unterminated comment"@, true)
            }
        } else {
            step_token(start + 1, line, TokenType::SLASH)
        }
    } else if c == ' ' || c == '\r' || c == '\t' {
        step_skip(start + 1, line)
    } else if c == '\n' {
        step_skip(start + 1, line + 1)
    } else if c == '"' {
        let q = quote_index(src, start + 1);
        let l = line + count_newlines(src.subrange(start + 1, q));
        if q >= src.len() {
            step_error(q, l, "Unterminated String."@, true)
        } else {
            step_literal(q + 1, l, TokenType::STRING, LiteralView::Str(src.subrange(start + 1, q)))
        }
    } else if is_digit(c) {
        let e = number_end(src, start);
        step_literal(e, line, TokenType::NUMBER, LiteralView::Num(src.subrange(start, e)))
    } else if char_is_alphabetic(c) || c == '_' {
        let e = ident_end(src, start + 1);
        step_token(e, line, word_type(src.subrange(start, e)))
    } else {
        step_error(start + 1, line, "Unexpected character."@, false)
    }
}

/// The tokens a step adds.
pub open spec fn step_tokens(src: Seq<char>, start: int, s: ScanStep) -> Seq<TokenView> {
    match s.token {
        Some(t) => seq![
            TokenView {
                token_type: t,
                lexeme: src.subrange(start, s.end),
                line: s.line as usize,
                literal: s.literal,
            },
        ],
        None => Seq::empty(),
    }
}

/// The error a step reports, as it is reported.
pub open spec fn step_error_view(s: ScanStep) -> LoxResultView {
    LoxResultView::Error { line: s.line as usize, message: s.error.unwrap() }
}

/// The errors a step reports.
pub open spec fn step_reports(s: ScanStep) -> Seq<LoxResultView> {
    match s.error {
        Some(m) => seq![step_error_view(s)],
        None => Seq::empty(),
    }
}

/// What scanning from a position produces: the tokens (without the final
/// end-of-file token), the errors reported, the line reached, and the error
/// with which the scan fails, if any (the last fatal one).
pub struct ScanOutcome {
    pub tokens: Seq<TokenView>,
    pub reports: Seq<LoxResultView>,
    pub line: int,
    pub failure: Option<LoxResultView>,
}

/// Scans the source from `pos` on line `line` to its end.
pub open spec fn scan_from(src: Seq<char>, pos: int, line: int) -> ScanOutcome
    decreases src.len() - pos,
{
    if pos < 0 || pos >= src.len() {
        ScanOutcome { tokens: Seq::empty(), reports: Seq::empty(), line, failure: None }
    } else {
        let s = scan_step(src, pos, line);
        if s.end <= pos || s.end > src.len() {
            // never taken: every step reads at least one character, within the source
            ScanOutcome { tokens: Seq::empty(), reports: Seq::empty(), line, failure: None }
        } else {
            let rest = scan_from(src, s.end, s.line);
            ScanOutcome {
                tokens: step_tokens(src, pos, s) + rest.tokens,
                reports: step_reports(s) + rest.reports,
                line: rest.line,
                failure: if rest.failure is Some {
                    rest.failure
                } else if s.fatal {
                    Some(step_error_view(s))
                } else {
                    None
                },
            }
        }
    }
}

/// The tokens of a whole source text, ending with the end-of-file token.
pub open spec fn source_tokens(src: Seq<char>) -> Seq<TokenView> {
    let o = scan_from(src, 0, 1);
    o.tokens.push(eof_view(o.line as usize))
}

// ---------------------------------------------------------------------------
// Facts about the grammar.
// ---------------------------------------------------------------------------

proof fn lemma_ident_end(src: Seq<char>, pos: int)
    requires
        0 <= pos <= src.len(),
    ensures
        pos <= ident_end(src, pos) <= src.len(),
    decreases src.len() - pos,
{
    if pos < src.len() && is_ident_char(src[pos]) {
        lemma_ident_end(src, pos + 1);
    }
}

proof fn lemma_digits_end(src: Seq<char>, pos: int)
    requires
        0 <= pos <= src.len(),
    ensures
        pos <= digits_end(src, pos) <= src.len(),
    decreases src.len() - pos,
{
    if pos < src.len() && is_digit(src[pos]) {
        lemma_digits_end(src, pos + 1);
    }
}

proof fn lemma_line_end(src: Seq<char>, pos: int)
    requires
        0 <= pos <= src.len(),
    ensures
        pos <= line_end(src, pos) <= src.len(),
    decreases src.len() - pos,
{
    if pos < src.len() && src[pos] != '\n' {
        lemma_line_end(src, pos + 1);
    }
}

pub proof fn lemma_quote_index(src: Seq<char>, pos: int)
    requires
        0 <= pos <= src.len(),
    ensures
        pos <= quote_index(src, pos) <= src.len(),
        quote_index(src, pos) < src.len() ==> src[quote_index(src, pos)] == '"',
    decreases src.len() - pos,
{
    if pos < src.len() && src[pos] != '"' {
        lemma_quote_index(src, pos + 1);
    }
}

proof fn lemma_block_comment(src: Seq<char>, pos: int, line: int, depth: nat)
    requires
        0 <= pos <= src.len(),
    ensures
        pos <= block_comment(src, pos, line, depth).pos <= src.len(),
        !block_comment(src, pos, line, depth).closed ==> block_comment(src, pos, line, depth).pos
            == src.len(),
        block_comment(src, pos, line, depth).line >= line,
        block_comment(src, pos, line, depth).line - line <= block_comment(src, pos, line, depth).pos
            - pos,
    decreases src.len() - pos,
{
    if pos < src.len() {
        if src[pos] == '*' {
            if next_is(src, pos, '/') {
                if depth > 1 {
                    lemma_block_comment(src, pos + 2, line, (depth - 1) as nat);
                }
            } else {
                lemma_block_comment(src, pos + 1, line, depth);
            }
        } else if src[pos] == '/' {
            if next_is(src, pos, '*') {
                lemma_block_comment(src, pos + 2, line, depth + 1);
            } else {
                lemma_block_comment(src, pos + 1, line, depth);
            }
        } else if src[pos] == '\n' {
            lemma_block_comment(src, pos + 1, line + 1, depth);
        } else {
            lemma_block_comment(src, pos + 1, line, depth);
        }
    }
}

proof fn lemma_count_newlines_bound(s: Seq<char>)
    ensures
        count_newlines(s) <= s.len(),
    decreases s.len(),
{
    if s.len() > 0 {
        lemma_count_newlines_bound(s.drop_last());
    }
}

/// Every step of scanning reads at least one character and stays within the
/// source, and the line grows by at most the number of characters read.
pub proof fn lemma_scan_step(src: Seq<char>, start: int, line: int)
    requires
        0 <= start < src.len(),
    ensures
        start < scan_step(src, start, line).end <= src.len(),
        line <= scan_step(src, start, line).line,
        scan_step(src, start, line).line - line <= scan_step(src, start, line).end - start,
{
    lemma_ident_end(src, start + 1);
    lemma_digits_end(src, start + 1);
    let e = digits_end(src, start + 1);
    if 0 <= e && e + 1 < src.len() {
        lemma_digits_end(src, e + 1);
    }
    if start + 2 <= src.len() {
        lemma_line_end(src, start + 2);
        lemma_block_comment(src, start + 2, line, 1);
    }
    lemma_quote_index(src, start + 1);
    let q = quote_index(src, start + 1);
    lemma_count_newlines_bound(src.subrange(start + 1, q));
}

// ---------------------------------------------------------------------------
// The scanner.
// ---------------------------------------------------------------------------

/// Reads the characters of a Lox source into tokens.
pub struct Scanner {
    source: Vec<char>,
    tokens: Vec<Token>,
    start: usize,
    current: usize,
    line: usize,
    reports: Vec<LoxResult>,
}

/// The model of a [`Scanner`]: the source, the tokens read so far, the
/// start of the token being read, the read position, the current line, and
/// the errors reported so far.
pub struct ScannerView {
    pub source: Seq<char>,
    pub tokens: Seq<TokenView>,
    pub start: int,
    pub current: int,
    pub line: int,
    pub reports: Seq<LoxResultView>,
}

impl View for Scanner {
    type V = ScannerView;

    closed spec fn view(&self) -> ScannerView {
        ScannerView {
            source: self.source@,
            tokens: tokens_view(self.tokens@),
            start: self.start as int,
            current: self.current as int,
            line: self.line as int,
            reports: results_view(self.reports@),
        }
    }
}

impl Scanner {
    /// The scanner's invariant.
    pub closed spec fn wf(&self) -> bool {
        &&& self.source@.len() < usize::MAX
        &&& self.start <= self.current <= self.source@.len()
        &&& 1 <= self.line <= self.current + 1
    }

    /// A scanner at the start of `src`.
    pub fn new(src: String) -> (r: Scanner)
        requires
            src@.len() < usize::MAX,
        ensures
            r.wf(),
            r@ == (ScannerView {
                source: src@,
                tokens: Seq::empty(),
                start: 0,
                current: 0,
                line: 1,
                reports: Seq::empty(),
            }),
    {
        let r = Scanner {
            source: chars_of(src.as_str()),
            tokens: Vec::new(),
            start: 0,
            current: 0,
            line: 1,
            reports: Vec::new(),
        };
        assert(tokens_view(r.tokens@) =~= Seq::empty());
        assert(results_view(r.reports@) =~= Seq::empty());
        r
    }

    /// The errors reported so far, in the order they were reported.
    pub fn reports(&self) -> (r: &Vec<LoxResult>)
        ensures
            results_view(r@) == self@.reports,
    {
        &self.reports
    }

    /// Scans the rest of the source. The tokens read are followed by the
    /// end-of-file token; the scan fails with the last unterminated string
    /// or comment, if any, and otherwise gives back all tokens read.
    pub fn scan(&mut self) -> (r: Result<&Vec<Token>, LoxResult>)
        requires
            old(self).wf(),
        ensures
            final(self).wf(),
            ({
                let o = scan_from(old(self)@.source, old(self)@.current, old(self)@.line);
                &&& final(self)@.source == old(self)@.source
                &&& final(self)@.tokens == old(self)@.tokens + o.tokens.push(
                    eof_view(o.line as usize),
                )
                &&& final(self)@.reports == old(self)@.reports + o.reports
                &&& final(self)@.line == o.line
                &&& match r {
                    Ok(toks) => o.failure is None && tokens_view(toks@) == final(self)@.tokens,
                    Err(e) => o.failure == Some(e@),
                }
            }),
    {
        let mut had_error: Option<LoxResult> = None;
        let ghost src = self.source@;
        let ghost toks0 = tokens_view(self.tokens@);
        let ghost reps0 = results_view(self.reports@);
        let ghost total = scan_from(src, self.current as int, self.line as int);
        let ghost mut failed: Option<LoxResultView> = None;
        while !self.is_at_end()
            invariant
                self.wf(),
                self.source@ == src,
                ({
                    let rest = scan_from(src, self.current as int, self.line as int);
                    &&& toks0 + total.tokens == tokens_view(self.tokens@) + rest.tokens
                    &&& reps0 + total.reports == results_view(self.reports@) + rest.reports
                    &&& total.line == rest.line
                    &&& total.failure == if rest.failure is Some {
                        rest.failure
                    } else {
                        failed
                    }
                }),
                match had_error {
                    Some(e) => failed == Some(e@),
                    None => failed is None,
                },
            decreases self.source@.len() - self.current,
        {
            self.start = self.current;
            let ghost cur = self.current as int;
            let ghost ln = self.line as int;
            let ghost toks = tokens_view(self.tokens@);
            let ghost reps = results_view(self.reports@);
            proof {
                lemma_scan_step(src, cur, ln);
            }
            let step = self.scans();
            let ghost s = scan_step(src, cur, ln);
            let ghost rest = scan_from(src, s.end, s.line);
            assert(toks + (step_tokens(src, cur, s) + rest.tokens) == (toks + step_tokens(
                src,
                cur,
                s,
            )) + rest.tokens);
            assert(reps + (step_reports(s) + rest.reports) == (reps + step_reports(s))
                + rest.reports);
            match step {
                Ok(_) => {},
                Err(e) => {
                    proof {
                        failed = Some(e@);
                    }
                    had_error = Some(e);
                },
            }
        }
        let ghost before = tokens_view(self.tokens@);
        self.tokens.push(Token::eof(self.line));
        assert(tokens_view(self.tokens@) =~= before.push(eof_view(self.line)));
        assert(toks0 + total.tokens.push(eof_view(total.line as usize)) =~= (toks0
            + total.tokens).push(eof_view(total.line as usize)));
        assert(toks0 + total.tokens =~= before);
        assert(reps0 + total.reports =~= results_view(self.reports@));
        if let Some(e) = had_error {
            Err(e)
        } else {
            Ok(&self.tokens)
        }
    }

    fn is_at_end(&self) -> (r: bool)
        ensures
            r == (self.current >= self.source@.len()),
    {
        self.current >= self.source.len()
    }

    /// Reports an error on a line: it joins the reported errors and is
    /// returned.
    fn error(&mut self, line: usize, message: &str) -> (r: LoxResult)
        ensures
            r@ == (LoxResultView::Error { line, message: message@ }),
            final(self).source == old(self).source,
            final(self).tokens == old(self).tokens,
            final(self).start == old(self).start,
            final(self).current == old(self).current,
            final(self).line == old(self).line,
            results_view(final(self).reports@) == results_view(old(self).reports@).push(r@),
    {
        let e = LoxResult::error(line, message);
        let ghost before = results_view(self.reports@);
        self.reports.push(e.dup());
        assert(results_view(self.reports@) =~= before.push(e@));
        e
    }

    /// Scans one token (or skips one stretch of blanks or a comment) that
    /// starts at `start`.
    #[verifier::rlimit(40)]
    fn scans(&mut self) -> (r: Result<(), LoxResult>)
        requires
            old(self).wf(),
            old(self).start == old(self).current,
            old(self).current < old(self).source@.len(),
        ensures
            final(self).wf(),
            ({
                let src = old(self)@.source;
                let s = scan_step(src, old(self)@.current, old(self)@.line);
                &&& final(self)@.source == src
                &&& final(self)@.current == s.end
                &&& final(self)@.line == s.line
                &&& final(self)@.start == old(self)@.start
                &&& final(self)@.tokens == old(self)@.tokens + step_tokens(src, old(self)@.current, s)
                &&& final(self)@.reports == old(self)@.reports + step_reports(s)
                &&& match r {
                    Ok(_) => !s.fatal,
                    Err(e) => s.fatal && e@ == step_error_view(s),
                }
            }),
    {
        let ghost src = self.source@;
        let ghost start = self.start as int;
        let ghost line = self.line as int;
        let ghost toks = tokens_view(self.tokens@);
        let ghost reps = results_view(self.reports@);
        proof {
            lemma_scan_step(src, start, line);
        }
        let c = self.advance();
        assert(reps + Seq::empty() =~= reps);
        assert(toks + Seq::empty() =~= toks);
        if c == '(' {
            self.add_token(TokenType::LEFT_PAREN);
        } else if c == ')' {
            self.add_token(TokenType::RIGHT_PAREN);
        } else if c == '{' {
            self.add_token(TokenType::LEFT_BRACE);
        } else if c == '}' {
            self.add_token(TokenType::RIGHT_BRACE);
        } else if c == ',' {
            self.add_token(TokenType::COMMA);
        } else if c == '.' {
            self.add_token(TokenType::DOT);
        } else if c == '-' {
            self.add_token(TokenType::MINUS);
        } else if c == '+' {
            self.add_token(TokenType::PLUS);
        } else if c == ';' {
            self.add_token(TokenType::SEMICOLON);
        } else if c == '*' {
            self.add_token(TokenType::STAR);
        } else if c == '!' {
            let tk = if self.equal_differentiator('=') {
                TokenType::BANG_EQUAL
            } else {
                TokenType::BANG
            };
            self.add_token(tk);
        } else if c == '=' {
            let tk = if self.equal_differentiator('=') {
                TokenType::EQUAL_EQUAL
            } else {
                TokenType::EQUAL
            };
            self.add_token(tk);
        } else if c == '<' {
            let tk = if self.equal_differentiator('=') {
                TokenType::LESS_EQUAL
            } else {
                TokenType::LESS
            };
            self.add_token(tk);
        } else if c == '>' {
            let tk = if self.equal_differentiator('=') {
                TokenType::GREATER_EQUAL
            } else {
                TokenType::GREATER
            };
            self.add_token(tk);
        } else if c == '/' {
            if self.equal_differentiator('/') {
                self.line_comment();
            } else if self.equal_differentiator('*') {
                self.scan_comment()?;
            } else {
                self.add_token(TokenType::SLASH);
            }
        } else if c == ' ' || c == '\r' || c == '\t' {
        } else if c == '\n' {
            self.line = self.line + 1;
        } else if c == '"' {
            self.string()?;
        } else if c >= '0' && c <= '9' {
            self.number();
        } else if is_alphabetic(c) || c == '_' {
            self.identifier();
        } else {
            let _ = self.error(self.line, "Unexpected character.");
        }
        Ok(())
    }

    /// Skips the rest of a line comment, up to (not including) the line break.
    fn line_comment(&mut self)
        requires
            old(self).wf(),
        ensures
            final(self).wf(),
            final(self).source == old(self).source,
            final(self).tokens == old(self).tokens,
            final(self).reports == old(self).reports,
            final(self).start == old(self).start,
            final(self).line == old(self).line,
            final(self).current == line_end(old(self).source@, old(self).current as int),
    {
        let ghost src = self.source@;
        let ghost from = self.current as int;
        loop
            invariant_except_break
                self.wf(),
                self.source == old(self).source,
                self.source@ == src,
                self.tokens == old(self).tokens,
                self.reports == old(self).reports,
                self.start == old(self).start,
                self.line == old(self).line,
                line_end(src, from) == line_end(src, self.current as int),
            ensures
                self.wf(),
                self.source == old(self).source,
                self.source@ == src,
                self.tokens == old(self).tokens,
                self.reports == old(self).reports,
                self.start == old(self).start,
                self.line == old(self).line,
                line_end(src, from) == self.current,
            decreases src.len() - self.current,
        {
            match self.peak() {
                Some(ch) => {
                    if ch != '\n' {
                        self.advance();
                    } else {
                        break;
                    }
                },
                None => {
                    break;
                },
            }
        }
    }

    /// Skips the body of a block comment; comments nest.
    fn scan_comment(&mut self) -> (r: Result<(), LoxResult>)
        requires
            old(self).wf(),
        ensures
            final(self).wf(),
            ({
                let c = block_comment(
                    old(self)@.source,
                    old(self)@.current,
                    old(self)@.line,
                    1,
                );
                &&& final(self)@.source == old(self)@.source
                &&& final(self)@.tokens == old(self)@.tokens
                &&& final(self)@.start == old(self)@.start
                &&& final(self)@.current == c.pos
                &&& final(self)@.line == c.line
                &&& match r {
                    Ok(_) => c.closed && final(self)@.reports == old(self)@.reports,
                    Err(e) => !c.closed && e@ == (LoxResultView::Error {
                        line: c.line as usize,
                        message: "Unterminated comment"@,
                    }) && final(self)@.reports == old(self)@.reports.push(e@),
                }
            }),
    {
        let ghost src = self.source@;
        let ghost goal = block_comment(src, self.current as int, self.line as int, 1);
        let mut depth: usize = 1;
        loop
            invariant
                self.wf(),
                self.source == old(self).source,
                self.source@ == src,
                self.tokens == old(self).tokens,
                self.reports == old(self).reports,
                self.start == old(self).start,
                1 <= depth <= self.current + 1,
                goal == block_comment(src, self.current as int, self.line as int, depth as nat),
                goal == block_comment(
                    old(self).source@,
                    old(self).current as int,
                    old(self).line as int,
                    1,
                ),
            decreases src.len() - self.current,
        {
            match self.peak() {
                Some('*') => {
                    self.advance();
                    if self.equal_differentiator('/') {
                        if depth == 1 {
                            return Ok(());
                        }
                        depth = depth - 1;
                    }
                },
                Some('/') => {
                    self.advance();
                    if self.equal_differentiator('*') {
                        depth = depth + 1;
                    }
                },
                Some('\n') => {
                    self.advance();
                    self.line = self.line + 1;
                },
                None => {
                    let e = self.error(self.line, "Unterminated comment");
                    return Err(e);
                },
                _ => {
                    self.advance();
                },
            }
        }
    }

    fn identifier(&mut self)
        requires
            old(self).wf(),
            old(self).start < old(self).current,
        ensures
            final(self).wf(),
            ({
                let src = old(self)@.source;
                let e = ident_end(src, old(self)@.current);
                &&& final(self)@.source == src
                &&& final(self)@.current == e
                &&& final(self)@.line == old(self)@.line
                &&& final(self)@.start == old(self)@.start
                &&& final(self)@.reports == old(self)@.reports
                &&& final(self)@.tokens == old(self)@.tokens.push(
                    TokenView {
                        token_type: word_type(src.subrange(old(self)@.start, e)),
                        lexeme: src.subrange(old(self)@.start, e),
                        line: old(self).line,
                        literal: None,
                    },
                )
            }),
    {
        let ghost src = self.source@;
        let ghost from = self.current as int;
        while Scanner::is_alpha_numeric(self.peak())
            invariant
                self.wf(),
                self.source == old(self).source,
                self.source@ == src,
                self.tokens == old(self).tokens,
                self.reports == old(self).reports,
                self.start == old(self).start,
                self.line == old(self).line,
                ident_end(src, from) == ident_end(src, self.current as int),
            decreases src.len() - self.current,
        {
            self.advance();
        }
        let text = string_of_range(&self.source, self.start, self.current);
        if let Some(token_type) = Scanner::keywords(text.as_str()) {
            self.add_token(token_type);
        } else {
            self.add_token(TokenType::IDENTIFIER);
        }
    }

    fn number(&mut self)
        requires
            old(self).wf(),
            old(self).start + 1 == old(self).current,
        ensures
            final(self).wf(),
            ({
                let src = old(self)@.source;
                let e = number_end(src, old(self)@.start);
                &&& final(self)@.source == src
                &&& final(self)@.current == e
                &&& final(self)@.line == old(self)@.line
                &&& final(self)@.start == old(self)@.start
                &&& final(self)@.reports == old(self)@.reports
                &&& final(self)@.tokens == old(self)@.tokens.push(
                    TokenView {
                        token_type: TokenType::NUMBER,
                        lexeme: src.subrange(old(self)@.start, e),
                        line: old(self).line,
                        literal: Some(LiteralView::Num(src.subrange(old(self)@.start, e))),
                    },
                )
            }),
    {
        let ghost src = self.source@;
        let ghost from = self.current as int;
        while Scanner::is_digit(self.peak())
            invariant
                self.wf(),
                self.source == old(self).source,
                self.source@ == src,
                self.tokens == old(self).tokens,
                self.reports == old(self).reports,
                self.start == old(self).start,
                self.line == old(self).line,
                digits_end(src, from) == digits_end(src, self.current as int),
            decreases src.len() - self.current,
        {
            self.advance();
        }
        let ghost e = self.current as int;
        if let Some(ch) = self.peak() {
            if ch == '.' {
                if Scanner::is_digit(self.peak_next()) {
                    self.advance();
                    while Scanner::is_digit(self.peak())
                        invariant
                            self.wf(),
                            self.source == old(self).source,
                            self.source@ == src,
                            self.tokens == old(self).tokens,
                            self.reports == old(self).reports,
                            self.start == old(self).start,
                            self.line == old(self).line,
                            digits_end(src, e + 1) == digits_end(src, self.current as int),
                        decreases src.len() - self.current,
                    {
                        self.advance();
                    }
                }
            }
        }
        let value = string_of_range(&self.source, self.start, self.current);
        self.add_token_object(TokenType::NUMBER, Some(LiteralValue::Num(value)));
    }

    fn peak_next(&self) -> (r: Option<char>)
        requires
            self.current < usize::MAX,
        ensures
            r == (if self.current + 1 < self.source@.len() {
                Some(self.source@[self.current + 1])
            } else {
                None
            }),
    {
        if self.current + 1 < self.source.len() {
            Some(self.source[self.current + 1])
        } else {
            None
        }
    }

    fn is_digit(ch: Option<char>) -> (r: bool)
        ensures
            r == (ch matches Some(c) && is_digit(c)),
    {
        if let Some(ch) = ch {
            ch >= '0' && ch <= '9'
        } else {
            false
        }
    }

    fn is_alpha_numeric(ch: Option<char>) -> (r: bool)
        ensures
            r == (ch matches Some(c) && is_ident_char(c)),
    {
        if let Some(ch) = ch {
            (ch >= 'a' && ch <= 'z') || (ch >= 'A' && ch <= 'Z') || ch == '_'
        } else {
            false
        }
    }

    fn string(&mut self) -> (r: Result<(), LoxResult>)
        requires
            old(self).wf(),
            old(self).start + 1 == old(self).current,
        ensures
            final(self).wf(),
            ({
                let src = old(self)@.source;
                let start = old(self)@.start;
                let q = quote_index(src, start + 1);
                let l = old(self)@.line + count_newlines(src.subrange(start + 1, q));
                &&& final(self)@.source == src
                &&& final(self)@.start == start
                &&& final(self)@.line == l
                &&& match r {
                    Ok(_) => q < src.len() && final(self)@.current == q + 1
                        && final(self)@.reports == old(self)@.reports
                        && final(self)@.tokens == old(self)@.tokens.push(
                        TokenView {
                            token_type: TokenType::STRING,
                            lexeme: src.subrange(start, q + 1),
                            line: l as usize,
                            literal: Some(LiteralView::Str(src.subrange(start + 1, q))),
                        },
                    ),
                    Err(e) => q >= src.len() && final(self)@.current == q && e@ == (
                    LoxResultView::Error { line: l as usize, message: "Unterminated String."@ })
                        && final(self)@.tokens == old(self)@.tokens
                        && final(self)@.reports == old(self)@.reports.push(e@),
                }
            }),
    {
        let ghost src = self.source@;
        let ghost from = self.current as int;
        let ghost line0 = self.line as int;
        proof {
            lemma_quote_index(src, from);
        }
        loop
            invariant_except_break
                self.wf(),
                self.source == old(self).source,
                self.source@ == src,
                self.tokens == old(self).tokens,
                self.reports == old(self).reports,
                self.start == old(self).start,
                0 <= from <= self.current,
                quote_index(src, from) == quote_index(src, self.current as int),
                self.line == line0 + count_newlines(src.subrange(from, self.current as int)),
            ensures
                self.wf(),
                self.source == old(self).source,
                self.source@ == src,
                self.tokens == old(self).tokens,
                self.reports == old(self).reports,
                self.start == old(self).start,
                0 <= from <= self.current,
                quote_index(src, from) == self.current,
                self.line == line0 + count_newlines(src.subrange(from, self.current as int)),
            decreases src.len() - self.current,
        {
            match self.peak() {
                None => {
                    break;
                },
                Some(ch) => {
                    if ch == '"' {
                        break;
                    }
                    let ghost cur = self.current as int;
                    assert(src.subrange(from, cur + 1).drop_last() =~= src.subrange(from, cur));
                    self.advance();
                    if ch == '\n' {
                        self.line = self.line + 1;
                    }
                },
            }
        }
        if self.is_at_end() {
            let e = self.error(self.line, "Unterminated String.");
            return Err(e);
        }
        self.advance();
        let value = string_of_range(&self.source, self.start + 1, self.current - 1);
        self.add_token_object(TokenType::STRING, Some(LiteralValue::Str(value)));
        Ok(())
    }

    fn advance(&mut self) -> (r: char)
        requires
            old(self).wf(),
            old(self).current < old(self).source@.len(),
        ensures
            final(self).wf(),
            r == old(self).source@[old(self).current as int],
            final(self).current == old(self).current + 1,
            final(self).source == old(self).source,
            final(self).tokens == old(self).tokens,
            final(self).reports == old(self).reports,
            final(self).start == old(self).start,
            final(self).line == old(self).line,
    {
        let result = self.source[self.current];
        self.current = self.current + 1;
        result
    }

    fn add_token(&mut self, token_type: TokenType)
        requires
            old(self).wf(),
        ensures
            final(self).wf(),
            final(self).source == old(self).source,
            final(self).reports == old(self).reports,
            final(self).start == old(self).start,
            final(self).current == old(self).current,
            final(self).line == old(self).line,
            tokens_view(final(self).tokens@) == tokens_view(old(self).tokens@).push(
                TokenView {
                    token_type,
                    lexeme: old(self).source@.subrange(
                        old(self).start as int,
                        old(self).current as int,
                    ),
                    line: old(self).line,
                    literal: None,
                },
            ),
    {
        self.add_token_object(token_type, None);
    }

    fn add_token_object(&mut self, token_type: TokenType, literal: Option<LiteralValue>)
        requires
            old(self).wf(),
        ensures
            final(self).wf(),
            final(self).source == old(self).source,
            final(self).reports == old(self).reports,
            final(self).start == old(self).start,
            final(self).current == old(self).current,
            final(self).line == old(self).line,
            tokens_view(final(self).tokens@) == tokens_view(old(self).tokens@).push(
                TokenView {
                    token_type,
                    lexeme: old(self).source@.subrange(
                        old(self).start as int,
                        old(self).current as int,
                    ),
                    line: old(self).line,
                    literal: crate::entities::opt_literal_view(literal),
                },
            ),
    {
        let lexeme = string_of_range(&self.source, self.start, self.current);
        let ghost before = tokens_view(self.tokens@);
        self.tokens.push(Token::new(token_type, lexeme, literal, self.line));
        assert(tokens_view(self.tokens@) =~= before.push(
            TokenView {
                token_type,
                lexeme: old(self).source@.subrange(old(self).start as int, old(self).current as int),
                line: old(self).line,
                literal: crate::entities::opt_literal_view(literal),
            },
        ));
    }

    fn equal_differentiator(&mut self, expected: char) -> (r: bool)
        requires
            old(self).wf(),
        ensures
            final(self).wf(),
            r == (old(self).current < old(self).source@.len() && old(self).source@[old(self).current as int] == expected),
            final(self).current == if r {
                old(self).current + 1
            } else {
                old(self).current as int
            },
            final(self).source == old(self).source,
            final(self).tokens == old(self).tokens,
            final(self).reports == old(self).reports,
            final(self).start == old(self).start,
            final(self).line == old(self).line,
    {
        if self.current < self.source.len() && self.source[self.current] == expected {
            self.current = self.current + 1;
            true
        } else {
            false
        }
    }

    fn peak(&self) -> (r: Option<char>)
        ensures
            r == (if self.current < self.source@.len() {
                Some(self.source@[self.current as int])
            } else {
                None
            }),
    {
        if self.current < self.source.len() {
            Some(self.source[self.current])
        } else {
            None
        }
    }

    /// The token type of a keyword, if `check` is one.
    pub fn keywords(check: &str) -> (r: Option<TokenType>)
        ensures
            r == keyword_type(check@),
    {
        if str_eq(check, "and") {
            Some(TokenType::AND)
        } else if str_eq(check, "class") {
            Some(TokenType::CLASS)
        } else if str_eq(check, "else") {
            Some(TokenType::ELSE)
        } else if str_eq(check, "false") {
            Some(TokenType::FALSE)
        } else if str_eq(check, "for") {
            Some(TokenType::FOR)
        } else if str_eq(check, "fun") {
            Some(TokenType::FUN)
        } else if str_eq(check, "if") {
            Some(TokenType::IF)
        } else if str_eq(check, "nil") {
            Some(TokenType::NIL)
        } else if str_eq(check, "or") {
            Some(TokenType::OR)
        } else if str_eq(check, "print") {
            Some(TokenType::PRINT)
        } else if str_eq(check, "return") {
            Some(TokenType::RETURN)
        } else if str_eq(check, "super") {
            Some(TokenType::SUPER)
        } else if str_eq(check, "this") {
            Some(TokenType::THIS)
        } else if str_eq(check, "true") {
            Some(TokenType::TRUE)
        } else if str_eq(check, "var") {
            Some(TokenType::VAR)
        } else if str_eq(check, "while") {
            Some(TokenType::WHILE)
        } else if str_eq(check, "break") {
            Some(TokenType::Break)
        } else {
            None
        }
    }
}

} // verus!
