use vstd::prelude::*;

use crate::entities::{LiteralValue, LiteralView, Token, TokenType, TokenView};
use crate::text::{decimal, decimal_string};

verus! {

/// A runtime error raised at a token.
pub struct RuntimeError<'a> {
    pub token: &'a Token,
    pub message: &'a str,
}

/// A parse error raised at a token.
pub struct ParseError<'a> {
    pub token: &'a Token,
    pub message: &'a str,
}

/// The outcomes other than plain success that scanning, parsing and
/// evaluation pass upwards: the errors, and the two non-local exits of
/// evaluation (a `return` carrying its value, and a `break`).
#[derive(Clone, Debug)]
pub enum LoxResult {
    ParseError { token: Token, message: String },
    RuntimeError { token: Token, message: String },
    Error { line: usize, message: String },
    SystemError { message: String },
    ReturnValue { value: LiteralValue },
    Break,
    Fail,
}

/// The mathematical model of a [`LoxResult`].
pub enum LoxResultView {
    ParseError { token: TokenView, message: Seq<char> },
    RuntimeError { token: TokenView, message: Seq<char> },
    Error { line: usize, message: Seq<char> },
    SystemError { message: Seq<char> },
    ReturnValue { value: LiteralView },
    Break,
    Fail,
}

impl View for LoxResult {
    type V = LoxResultView;

    open spec fn view(&self) -> LoxResultView {
        match self {
            LoxResult::ParseError { token, message } => LoxResultView::ParseError {
                token: token@,
                message: message@,
            },
            LoxResult::RuntimeError { token, message } => LoxResultView::RuntimeError {
                token: token@,
                message: message@,
            },
            LoxResult::Error { line, message } => LoxResultView::Error {
                line: *line,
                message: message@,
            },
            LoxResult::SystemError { message } => LoxResultView::SystemError { message: message@ },
            LoxResult::ReturnValue { value } => LoxResultView::ReturnValue { value: value@ },
            LoxResult::Break => LoxResultView::Break,
            LoxResult::Fail => LoxResultView::Fail,
        }
    }
}

/// The models of a sequence of results.
pub open spec fn results_view(s: Seq<LoxResult>) -> Seq<LoxResultView> {
    s.map_values(|r: LoxResult| r@)
}

/// What reporting a result writes to the error stream, if anything: a
/// parse or runtime error gives its line and where it stands (at the end,
/// or at the token's text), then its message; a plain error gives its line,
/// the location `loc` and its message; a system error its message, with no
/// line break; a `break` nothing.
pub open spec fn report_text(r: LoxResultView, loc: Seq<char>) -> Option<Seq<char>> {
    match r {
        LoxResultView::ParseError { token, message } | LoxResultView::RuntimeError {
            token,
            message,
        } => if token.token_type == TokenType::EOF {
            Some(decimal(token.line as nat) + " at end "@ + message + seq!['\n'])
        } else {
            Some(
                decimal(token.line as nat) + " at '"@ + token.lexeme + "' "@ + message + seq![
                    '\n',
                ],
            )
        },
        LoxResultView::Error { line, message } => Some(
            "[line "@ + decimal(line as nat) + "] Error"@ + loc + ": "@ + message + seq!['\n'],
        ),
        LoxResultView::SystemError { message } => Some("System Error: "@ + message),
        _ => None,
    }
}

impl LoxResult {
    /// What reporting this result writes to the error stream (see
    /// [`report_text`]); a return value is never reported.
    pub fn report(&self, loc: &str) -> (r: Option<String>)
        requires
            !(self@ is ReturnValue),
        ensures
            match r {
                Some(s) => report_text(self@, loc@) == Some(s@),
                None => report_text(self@, loc@) is None,
            },
    {
        match self {
            LoxResult::ParseError { token, message } | LoxResult::RuntimeError { token, message } => {
                let mut s = decimal_string(token.line as u128);
                if token.is(TokenType::EOF) {
                    s.append(" at end ");
                } else {
                    s.append(" at '");
                    s.append(token.lexeme.as_str());
                    s.append("' ");
                }
                s.append(message.as_str());
                s.append("\n");
                proof {
                    reveal_strlit("\n");
                }
                Some(s)
            },
            LoxResult::Error { line, message } => {
                let mut s = String::from_str("[line ");
                s.append(decimal_string(*line as u128).as_str());
                s.append("] Error");
                s.append(loc);
                s.append(": ");
                s.append(message.as_str());
                s.append("\n");
                proof {
                    reveal_strlit("\n");
                }
                Some(s)
            },
            LoxResult::SystemError { message } => {
                let mut s = String::from_str("System Error: ");
                s.append(message.as_str());
                Some(s)
            },
            _ => None,
        }
    }

    pub fn return_value(value: LiteralValue) -> (r: LoxResult)
        ensures
            r@ == (LoxResultView::ReturnValue { value: value@ }),
    {
        LoxResult::ReturnValue { value }
    }

    /// An error on a source line.
    pub fn error(line: usize, message: &str) -> (r: LoxResult)
        ensures
            r@ == (LoxResultView::Error { line, message: message@ }),
    {
        LoxResult::Error { line, message: String::from_str(message) }
    }

    /// A parse error at a token.
    pub fn parse_error(token: &Token, message: &str) -> (r: LoxResult)
        ensures
            r@ == (LoxResultView::ParseError { token: token@, message: message@ }),
    {
        LoxResult::ParseError { token: token.dup(), message: String::from_str(message) }
    }

    /// A runtime error at a token.
    pub fn runtime_error(token: &Token, message: &str) -> (r: LoxResult)
        ensures
            r@ == (LoxResultView::RuntimeError { token: token@, message: message@ }),
    {
        LoxResult::RuntimeError { token: token.dup(), message: String::from_str(message) }
    }

    /// A system error.
    pub fn system_error(message: &str) -> (r: LoxResult)
        ensures
            r@ == (LoxResultView::SystemError { message: message@ }),
    {
        LoxResult::SystemError { message: String::from_str(message) }
    }

    /// The failure of a whole parse, after its errors have been reported.
    pub fn fail() -> (r: LoxResult)
        ensures
            r@ == LoxResultView::Fail,
    {
        LoxResult::Fail
    }

    /// A copy of this result.
    pub fn dup(&self) -> (r: LoxResult)
        ensures
            r@ == self@,
    {
        match self {
            LoxResult::ParseError { token, message } => LoxResult::ParseError {
                token: token.dup(),
                message: message.clone(),
            },
            LoxResult::RuntimeError { token, message } => LoxResult::RuntimeError {
                token: token.dup(),
                message: message.clone(),
            },
            LoxResult::Error { line, message } => LoxResult::Error {
                line: *line,
                message: message.clone(),
            },
            LoxResult::SystemError { message } => LoxResult::SystemError { message: message.clone() },
            LoxResult::ReturnValue { value } => LoxResult::ReturnValue { value: value.dup() },
            LoxResult::Break => LoxResult::Break,
            LoxResult::Fail => LoxResult::Fail,
        }
    }
}

} // verus!
