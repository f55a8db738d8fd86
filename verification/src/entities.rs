use vstd::prelude::*;

use crate::errors::{LoxResult, LoxResultView};
use crate::text::{decimal, decimal_string};

verus! {

/// The kinds of lexical tokens of Lox.
#[derive(Clone, Copy, Debug, PartialEq, Eq, Structural)]
pub enum TokenType {
    // Single-character tokens.
    Break,
    LEFT_PAREN,
    RIGHT_PAREN,
    LEFT_BRACE,
    RIGHT_BRACE,
    COMMA,
    DOT,
    MINUS,
    PLUS,
    SEMICOLON,
    SLASH,
    STAR,
    // One or two character tokens.
    BANG,
    BANG_EQUAL,
    EQUAL,
    EQUAL_EQUAL,
    GREATER,
    GREATER_EQUAL,
    LESS,
    LESS_EQUAL,
    // Literals.
    IDENTIFIER,
    STRING,
    NUMBER,
    // Keywords.
    AND,
    CLASS,
    ELSE,
    FALSE,
    FUN,
    FOR,
    IF,
    NIL,
    OR,
    PRINT,
    RETURN,
    SUPER,
    THIS,
    TRUE,
    VAR,
    WHILE,
    EOF,
}

/// A Lox value, as carried by literal tokens and produced by evaluation.
///
/// A number is held as the decimal text that denotes it (the source text of
/// a number literal, or the shortest text that reads back as the computed
/// number); functions, classes, instances and native functions are held by
/// the handle under which the interpreter stores them, so that two such values
/// are the same object exactly when their handles are equal.
#[derive(Clone, Debug)]
pub enum LiteralValue {
    Num(String),
    Str(String),
    Bool(bool),
    Func(usize),
    Class(usize),
    Instance(usize),
    Native(usize),
    Nil,
    ArithmeticError,
    NumsOrStringsError,
}

/// The mathematical model of a [`LiteralValue`].
pub enum LiteralView {
    Num(Seq<char>),
    Str(Seq<char>),
    Bool(bool),
    Func(usize),
    Class(usize),
    Instance(usize),
    Native(usize),
    Nil,
    ArithmeticError,
    NumsOrStringsError,
}

impl View for LiteralValue {
    type V = LiteralView;

    open spec fn view(&self) -> LiteralView {
        match self {
            LiteralValue::Num(s) => LiteralView::Num(s@),
            LiteralValue::Str(s) => LiteralView::Str(s@),
            LiteralValue::Bool(b) => LiteralView::Bool(*b),
            LiteralValue::Func(h) => LiteralView::Func(*h),
            LiteralValue::Class(h) => LiteralView::Class(*h),
            LiteralValue::Instance(h) => LiteralView::Instance(*h),
            LiteralValue::Native(h) => LiteralView::Native(*h),
            LiteralValue::Nil => LiteralView::Nil,
            LiteralValue::ArithmeticError => LiteralView::ArithmeticError,
            LiteralValue::NumsOrStringsError => LiteralView::NumsOrStringsError,
        }
    }
}

/// The model of an optional literal.
pub open spec fn opt_literal_view(o: Option<LiteralValue>) -> Option<LiteralView> {
    match o {
        Some(v) => Some(v@),
        None => None,
    }
}

impl LiteralValue {
    /// A copy of this value.
    pub fn dup(&self) -> (r: LiteralValue)
        ensures
            r@ == self@,
    {
        match self {
            LiteralValue::Num(s) => LiteralValue::Num(s.clone()),
            LiteralValue::Str(s) => LiteralValue::Str(s.clone()),
            LiteralValue::Bool(b) => LiteralValue::Bool(*b),
            LiteralValue::Func(h) => LiteralValue::Func(*h),
            LiteralValue::Class(h) => LiteralValue::Class(*h),
            LiteralValue::Instance(h) => LiteralValue::Instance(*h),
            LiteralValue::Native(h) => LiteralValue::Native(*h),
            LiteralValue::Nil => LiteralValue::Nil,
            LiteralValue::ArithmeticError => LiteralValue::ArithmeticError,
            LiteralValue::NumsOrStringsError => LiteralValue::NumsOrStringsError,
        }
    }
}

/// A copy of an optional literal.
pub fn dup_literal(o: &Option<LiteralValue>) -> (r: Option<LiteralValue>)
    ensures
        opt_literal_view(r) == opt_literal_view(*o),
{
    match o {
        Some(v) => Some(v.dup()),
        None => None,
    }
}

/// A lexical token: its kind, the source text it was read from, the line on
/// which it ends, and the literal value it denotes, if any.
#[derive(Clone, Debug)]
pub struct Token {
    pub token_type: TokenType,
    pub lexeme: String,
    pub line: usize,
    pub literal: Option<LiteralValue>,
}

/// The mathematical model of a [`Token`].
pub struct TokenView {
    pub token_type: TokenType,
    pub lexeme: Seq<char>,
    pub line: usize,
    pub literal: Option<LiteralView>,
}

impl View for Token {
    type V = TokenView;

    open spec fn view(&self) -> TokenView {
        TokenView {
            token_type: self.token_type,
            lexeme: self.lexeme@,
            line: self.line,
            literal: opt_literal_view(self.literal),
        }
    }
}

/// The models of a sequence of tokens.
pub open spec fn tokens_view(s: Seq<Token>) -> Seq<TokenView> {
    s.map_values(|t: Token| t@)
}

/// The model of the end-of-file token on the given line.
pub open spec fn eof_view(line: usize) -> TokenView {
    TokenView { token_type: TokenType::EOF, lexeme: Seq::empty(), line, literal: None }
}

impl Token {
    pub fn new(token_type: TokenType, lexeme: String, literal: Option<LiteralValue>, line: usize) -> (r: Token)
        ensures
            r.token_type == token_type,
            r.lexeme@ == lexeme@,
            r.line == line,
            opt_literal_view(r.literal) == opt_literal_view(literal),
    {
        Token { token_type, lexeme, literal, line }
    }

    pub fn is(&self, ttype: TokenType) -> (r: bool)
        ensures
            r == (self.token_type == ttype),
    {
        self.token_type == ttype
    }

    pub fn token_type(&self) -> (r: TokenType)
        ensures
            r == self.token_type,
    {
        self.token_type
    }

    pub fn as_string(&self) -> (r: String)
        ensures
            r@ == self.lexeme@,
    {
        self.lexeme.clone()
    }

    pub fn dup(&self) -> (r: Token)
        ensures
            r@ == self@,
    {
        Token {
            token_type: self.token_type,
            lexeme: self.lexeme.clone(),
            literal: dup_literal(&self.literal),
            line: self.line,
        }
    }

    pub fn eof(line: usize) -> (r: Token)
        ensures
            r@ == eof_view(line),
    {
        Token { token_type: TokenType::EOF, lexeme: String::new(), literal: None, line }
    }
}

/// The system clock's reading, an outside type.
#[verifier::external_type_specification]
#[verifier::external_body]
pub struct ExSystemTime(std::time::SystemTime);

/// The error of a reading before the epoch, an outside type.
#[verifier::external_type_specification]
#[verifier::external_body]
pub struct ExSystemTimeError(std::time::SystemTimeError);

/// `SystemTime::now`: the current reading of the system clock. It depends
/// on the time, so nothing is stated of it.
#[verifier::external_body]
fn system_now() -> (r: std::time::SystemTime) {
    std::time::SystemTime::now()
}

/// `SystemTime::duration_since` the epoch: how long after the epoch the
/// reading is, or an error where it is before. Nothing is stated of it, as
/// neither value has a model here.
#[verifier::external_body]
fn since_epoch(t: &std::time::SystemTime) -> (r: Result<std::time::Duration, std::time::SystemTimeError>) {
    t.duration_since(std::time::SystemTime::UNIX_EPOCH)
}

/// `Duration::as_millis`: the whole milliseconds of a duration, which has
/// no model here, so nothing is stated of it.
#[verifier::external_body]
fn whole_millis(d: &std::time::Duration) -> (r: u128) {
    d.as_millis()
}

/// `SystemTimeError::duration`: how far the reading stands before the
/// epoch; nothing is stated of it.
#[verifier::external_body]
fn error_duration(e: &std::time::SystemTimeError) -> (r: std::time::Duration) {
    e.duration()
}

/// `<Duration as Debug>::fmt` (through `format!("{:?}")`): the text of a
/// duration; nothing is stated of it, as a duration has no model here.
#[verifier::external_body]
fn duration_text(d: &std::time::Duration) -> (r: String) {
    format!("{:?}", d)
}

/// The native function `clock`: the milliseconds since the epoch.
pub struct NativeClock;

/// The value `clock` gives for a reading of the system clock: the number of
/// milliseconds, or a system error.
pub open spec fn clock_outcome(reading: Result<u128, Seq<char>>) -> Result<LiteralView, LoxResultView> {
    match reading {
        Ok(ms) => Ok(LiteralView::Num(decimal(ms as nat))),
        Err(d) => Err(
            LoxResultView::SystemError { message: "Clock returned invalid duration: "@ + d },
        ),
    }
}

/// A value `clock` can give: the decimal numeral of a whole number of
/// milliseconds.
pub open spec fn clock_value(v: LiteralView) -> bool {
    exists|ms: nat| v == LiteralView::Num(#[trigger] decimal(ms))
}

/// An error `clock` can give: a system error about a reading before the
/// epoch.
pub open spec fn clock_error(e: LoxResultView) -> bool {
    exists|d: Seq<char>|
        e == LoxResultView::SystemError { message: #[trigger] ("Clock returned invalid duration: "@ + d) }
}

impl NativeClock {
    /// `clock` takes no arguments.
    pub fn arity(&self) -> (r: usize)
        ensures
            r == 0,
    {
        0
    }

    /// The value `clock` gives for a reading of the system clock.
    pub fn value_of(reading: Result<u128, String>) -> (r: Result<LiteralValue, LoxResult>)
        ensures
            match r {
                Ok(v) => clock_outcome(
                    match reading {
                        Ok(ms) => Ok(ms),
                        Err(d) => Err(d@),
                    },
                ) == Ok::<LiteralView, LoxResultView>(v@),
                Err(e) => clock_outcome(
                    match reading {
                        Ok(ms) => Ok(ms),
                        Err(d) => Err(d@),
                    },
                ) == Err::<LiteralView, LoxResultView>(e@),
            },
    {
        match reading {
            Ok(ms) => Ok(LiteralValue::Num(decimal_string(ms))),
            Err(d) => {
                let mut m = String::from_str("Clock returned invalid duration: ");
                m.append(d.as_str());
                Err(LoxResult::system_error(m.as_str()))
            },
        }
    }

    /// Calls `clock`: reads the system clock and gives the milliseconds
    /// since the epoch as a number. The result depends on the time: it is
    /// the numeral of a whole number of milliseconds, or the system error
    /// for a reading before the epoch, as `value_of` says for the reading.
    pub fn call(&self) -> (r: Result<LiteralValue, LoxResult>)
        ensures
            r matches Ok(v) ==> clock_value(v@),
            r matches Err(e) ==> clock_error(e@),
    {
        let now = system_now();
        let reading = match since_epoch(&now) {
            Ok(d) => Ok(whole_millis(&d)),
            Err(e) => Err(duration_text(&error_duration(&e))),
        };
        let ghost g: Result<u128, Seq<char>> = match &reading {
            Ok(ms) => Ok(*ms),
            Err(d) => Err(d@),
        };
        let r = Self::value_of(reading);
        proof {
            match g {
                Ok(ms) => {
                    assert(r matches Ok(v) && v@ == LiteralView::Num(decimal(ms as nat)));
                    assert(r matches Ok(v) && clock_value(v@));
                },
                Err(dv) => {
                    assert(r matches Err(e) && e@ == (LoxResultView::SystemError {
                        message: "Clock returned invalid duration: "@ + dv,
                    }));
                    assert(r matches Err(e) && clock_error(e@));
                },
            }
        }
        r
    }
}

/// A copy of a sequence of tokens.
pub(crate) fn copy_tokens(tokens: &Vec<Token>) -> (r: Vec<Token>)
    ensures
        tokens_view(r@) == tokens_view(tokens@),
{
    let mut r: Vec<Token> = Vec::new();
    let mut i: usize = 0;
    while i < tokens.len()
        invariant
            i <= tokens@.len(),
            tokens_view(r@) == tokens_view(tokens@).take(i as int),
        decreases tokens@.len() - i,
    {
        let ghost before = tokens_view(r@);
        r.push(tokens[i].dup());
        assert(tokens_view(r@) =~= before.push(tokens@[i as int]@));
        assert(tokens_view(tokens@).take(i + 1) =~= before.push(tokens@[i as int]@));
        i = i + 1;
    }
    assert(tokens_view(tokens@).take(tokens@.len() as int) =~= tokens_view(tokens@));
    r
}

} // verus!
