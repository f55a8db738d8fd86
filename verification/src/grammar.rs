use vstd::prelude::*;

use crate::ast::{ExprV, StmtV};
use crate::entities::{LiteralView, TokenType, TokenView};
use crate::errors::LoxResultView;

verus! {

// The syntactic grammar of Lox, as a recursive-descent parse over the
// models of the tokens. A parse step takes the parser state (position,
// whether an error was reported, and the errors reported so far) to a new
// state and a result. Some branches are marked "never taken": there a
// sub-parse would have moved backwards or past the tokens, which no parse
// does; they only keep the definitions well founded.

/// The state of a parse.
pub struct PState {
    pub pos: int,
    pub had_error: bool,
    pub reports: Seq<LoxResultView>,
}

/// What a parse step yields: the new state and its result.
pub struct POut<T> {
    pub st: PState,
    pub res: Result<T, LoxResultView>,
}

/// Tokens that a parse can run over: they end with the end-of-file token.
pub open spec fn wf_tokens(t: Seq<TokenView>) -> bool {
    t.len() > 0 && t.last().token_type == TokenType::EOF
}

/// The parse stands at the end: at an end-of-file token (or outside the tokens).
pub open spec fn at_end(t: Seq<TokenView>, st: PState) -> bool {
    !(0 <= st.pos < t.len() - 1) || t[st.pos].token_type == TokenType::EOF
}

/// The current token has the given type (never at the end).
pub open spec fn check(t: Seq<TokenView>, st: PState, ty: TokenType) -> bool {
    !at_end(t, st) && t[st.pos].token_type == ty
}

/// The current token has one of the given types (never at the end).
pub open spec fn matches_any(t: Seq<TokenView>, st: PState, tys: Seq<TokenType>) -> bool {
    !at_end(t, st) && tys.contains(t[st.pos].token_type)
}

/// The state after moving past the current token (no move at the end).
pub open spec fn adv(t: Seq<TokenView>, st: PState) -> PState {
    if at_end(t, st) {
        st
    } else {
        PState { pos: st.pos + 1, had_error: st.had_error, reports: st.reports }
    }
}

/// A parse error at a token.
pub open spec fn perr(tok: TokenView, msg: Seq<char>) -> LoxResultView {
    LoxResultView::ParseError { token: tok, message: msg }
}

/// The state after reporting a parse error at a token.
pub open spec fn report(st: PState, tok: TokenView, msg: Seq<char>) -> PState {
    PState { pos: st.pos, had_error: true, reports: st.reports.push(perr(tok, msg)) }
}

/// A failed step.
pub open spec fn fail_out<T>(st: PState, e: LoxResultView) -> POut<T> {
    POut { st, res: Err(e) }
}

/// A successful step.
pub open spec fn ok_out<T>(st: PState, v: T) -> POut<T> {
    POut { st, res: Ok(v) }
}

/// The outcome of a step that is never taken.
pub open spec fn never<T>(st: PState) -> POut<T> {
    POut { st, res: Err(LoxResultView::Fail) }
}

/// The error of a failed result.
pub open spec fn err_of<T>(r: Result<T, LoxResultView>) -> LoxResultView {
    match r {
        Err(e) => e,
        Ok(_) => LoxResultView::Fail,
    }
}

/// State `b` is at or after state `a`, within the tokens.
pub open spec fn advanced(t: Seq<TokenView>, a: PState, b: PState) -> bool {
    a.pos <= b.pos < t.len()
}

/// State `b` is after state `a`, within the tokens.
pub open spec fn progressed(t: Seq<TokenView>, a: PState, b: PState) -> bool {
    a.pos < b.pos < t.len()
}

/// Expects a token of type `ty`: takes it, or reports `msg` at the current
/// token.
pub open spec fn p_consume(t: Seq<TokenView>, st: PState, ty: TokenType, msg: Seq<char>) -> POut<
    TokenView,
> {
    if check(t, st, ty) {
        ok_out(adv(t, st), t[st.pos])
    } else {
        fail_out(report(st, t[st.pos], msg), perr(t[st.pos], msg))
    }
}

/// The operators of the binary precedence levels: 0 factor, 1 term,
/// 2 comparison, 3 equality, 4 `and`, 5 `or`.
pub open spec fn level_ops(k: nat) -> Seq<TokenType> {
    if k == 0 {
        seq![TokenType::SLASH, TokenType::STAR]
    } else if k == 1 {
        seq![TokenType::MINUS, TokenType::PLUS]
    } else if k == 2 {
        seq![TokenType::GREATER, TokenType::GREATER_EQUAL, TokenType::LESS, TokenType::LESS_EQUAL]
    } else if k == 3 {
        seq![TokenType::BANG_EQUAL, TokenType::EQUAL_EQUAL]
    } else if k == 4 {
        seq![TokenType::AND]
    } else {
        seq![TokenType::OR]
    }
}

/// Joins two operands at level `k`: the two top levels are logical.
pub open spec fn join(k: nat, left: ExprV, op: TokenView, right: ExprV) -> ExprV {
    if k >= 4 {
        ExprV::Logical { left: Box::new(left), operator: op, right: Box::new(right) }
    } else {
        ExprV::Binary { left: Box::new(left), operator: op, right: Box::new(right) }
    }
}

/// expression → assignment
pub open spec fn p_expression(t: Seq<TokenView>, st: PState) -> POut<ExprV>
    decreases t.len() - st.pos, 18nat,
{
    p_assignment(t, st)
}

/// assignment → ( call "." )? IDENTIFIER "=" assignment | logic_or
pub open spec fn p_assignment(t: Seq<TokenView>, st: PState) -> POut<ExprV>
    decreases t.len() - st.pos, 17nat,
{
    let o = p_level(t, st, 5);
    if o.res is Err {
        o
    } else if !advanced(t, st, o.st) {
        never(o.st)  // never taken

    } else if check(t, o.st, TokenType::EQUAL) {
        let target = o.res->Ok_0;
        let equals = t[o.st.pos];
        let v = p_assignment(t, adv(t, o.st));
        if v.res is Err {
            fail_out(v.st, err_of(v.res))
        } else {
            let value = v.res->Ok_0;
            match target {
                ExprV::Variable { name } => ok_out(
                    v.st,
                    ExprV::Assign { name, value: Box::new(value) },
                ),
                ExprV::Get { object, name } => ok_out(
                    v.st,
                    ExprV::SetField { object, name, value: Box::new(value) },
                ),
                _ => ok_out(report(v.st, equals, "Invalid assignment target."@), target),
            }
        }
    } else {
        o
    }
}

/// A binary level: an operand, then any number of (operator operand).
pub open spec fn p_level(t: Seq<TokenView>, st: PState, k: nat) -> POut<ExprV>
    decreases t.len() - st.pos, 6 + 2 * k,
{
    let o = p_operand(t, st, k);
    if o.res is Err {
        o
    } else if !advanced(t, st, o.st) {
        never(o.st)  // never taken

    } else {
        p_level_loop(t, o.st, k, o.res->Ok_0)
    }
}

/// The operand of level `k`: the next level down, or a unary expression.
pub open spec fn p_operand(t: Seq<TokenView>, st: PState, k: nat) -> POut<ExprV>
    decreases t.len() - st.pos, 5 + 2 * k,
{
    if k == 0 {
        p_unary(t, st)
    } else {
        p_level(t, st, (k - 1) as nat)
    }
}

/// The repetition of level `k`, with the operand read so far.
pub open spec fn p_level_loop(t: Seq<TokenView>, st: PState, k: nat, left: ExprV) -> POut<ExprV>
    decreases t.len() - st.pos, 5 + 2 * k,
{
    if matches_any(t, st, level_ops(k)) {
        let op = t[st.pos];
        let s1 = adv(t, st);
        let r = p_operand(t, s1, k);
        if r.res is Err {
            fail_out(r.st, err_of(r.res))
        } else if !advanced(t, s1, r.st) {
            never(r.st)  // never taken

        } else {
            p_level_loop(t, r.st, k, join(k, left, op, r.res->Ok_0))
        }
    } else {
        ok_out(st, left)
    }
}

/// unary → ( "!" | "-" ) unary | call
pub open spec fn p_unary(t: Seq<TokenView>, st: PState) -> POut<ExprV>
    decreases t.len() - st.pos, 4nat,
{
    if (check(t, st, TokenType::BANG) || check(t, st, TokenType::MINUS)) {
        let op = t[st.pos];
        let r = p_unary(t, adv(t, st));
        if r.res is Err {
            r
        } else {
            ok_out(r.st, ExprV::Unary { operator: op, right: Box::new(r.res->Ok_0) })
        }
    } else {
        p_call(t, st)
    }
}

/// call → primary ( "(" arguments? ")" | "." IDENTIFIER )*
pub open spec fn p_call(t: Seq<TokenView>, st: PState) -> POut<ExprV>
    decreases t.len() - st.pos, 3nat,
{
    let o = p_primary(t, st);
    if o.res is Err {
        o
    } else if !advanced(t, st, o.st) {
        never(o.st)  // never taken

    } else {
        p_call_loop(t, o.st, o.res->Ok_0)
    }
}

/// The repetition of calls and property accesses after a primary.
pub open spec fn p_call_loop(t: Seq<TokenView>, st: PState, e: ExprV) -> POut<ExprV>
    decreases t.len() - st.pos, 2nat,
{
    if check(t, st, TokenType::LEFT_PAREN) {
        let s1 = adv(t, st);
        let r = p_finish_call(t, s1, e);
        if r.res is Err {
            r
        } else if !advanced(t, s1, r.st) {
            never(r.st)  // never taken

        } else {
            p_call_loop(t, r.st, r.res->Ok_0)
        }
    } else if check(t, st, TokenType::DOT) {
        let n = p_consume(
            t,
            adv(t, st),
            TokenType::IDENTIFIER,
            "Expect property name after  '.' ."@,
        );
        if n.res is Err {
            fail_out(n.st, err_of(n.res))
        } else if !advanced(t, adv(t, st), n.st) {
            never(n.st)  // never taken

        } else {
            p_call_loop(t, n.st, ExprV::Get { object: Box::new(e), name: n.res->Ok_0 })
        }
    } else {
        ok_out(st, e)
    }
}

/// The arguments of a call and its closing parenthesis.
pub open spec fn p_finish_call(t: Seq<TokenView>, st: PState, callee: ExprV) -> POut<ExprV>
    decreases t.len() - st.pos, 19nat,
{
    let args = if !check(t, st, TokenType::RIGHT_PAREN) {
        let a = p_expression(t, st);
        if a.res is Err {
            fail_out(a.st, err_of(a.res))
        } else if !advanced(t, st, a.st) {
            never(a.st)  // never taken

        } else {
            p_args_loop(t, a.st, seq![a.res->Ok_0])
        }
    } else {
        ok_out(st, Seq::<ExprV>::empty())
    };
    if args.res is Err {
        fail_out(args.st, err_of(args.res))
    } else {
        let c = p_consume(t, args.st, TokenType::RIGHT_PAREN, "Expect ')' after arguments."@);
        if c.res is Err {
            fail_out(c.st, err_of(c.res))
        } else {
            ok_out(
                c.st,
                ExprV::Call { callee: Box::new(callee), paren: c.res->Ok_0, arguments: args.res->Ok_0 },
            )
        }
    }
}

/// The arguments after the first, each after a comma; past 255 arguments an
/// error is reported (once) and the rest are skipped.
pub open spec fn p_args_loop(t: Seq<TokenView>, st: PState, args: Seq<ExprV>) -> POut<Seq<ExprV>>
    decreases t.len() - st.pos, 0nat,
{
    if check(t, st, TokenType::COMMA) {
        let s1 = adv(t, st);
        if args.len() >= 255 {
            if !s1.had_error {
                let msg = "Can't have more than 255 arguments."@;
                fail_out(report(s1, t[s1.pos], msg), perr(t[s1.pos], msg))
            } else {
                p_args_loop(t, s1, args)
            }
        } else {
            let a = p_expression(t, s1);
            if a.res is Err {
                fail_out(a.st, err_of(a.res))
            } else if !advanced(t, s1, a.st) {
                never(a.st)  // never taken

            } else {
                p_args_loop(t, a.st, args.push(a.res->Ok_0))
            }
        }
    } else {
        ok_out(st, args)
    }
}

/// A literal expression.
pub open spec fn lit(v: Option<LiteralView>) -> ExprV {
    ExprV::Literal { value: v }
}

/// primary → "true" | "false" | "nil" | NUMBER | STRING | "super" "." IDENTIFIER
///         | "this" | IDENTIFIER | "(" expression ")"
pub open spec fn p_primary(t: Seq<TokenView>, st: PState) -> POut<ExprV>
    decreases t.len() - st.pos, 1nat,
{
    let tok = t[st.pos];
    let s1 = adv(t, st);
    if check(t, st, TokenType::FALSE) {
        ok_out(s1, lit(Some(LiteralView::Bool(false))))
    } else if check(t, st, TokenType::TRUE) {
        ok_out(s1, lit(Some(LiteralView::Bool(true))))
    } else if check(t, st, TokenType::NIL) {
        ok_out(s1, lit(Some(LiteralView::Nil)))
    } else if (check(t, st, TokenType::NUMBER) || check(t, st, TokenType::STRING)) {
        ok_out(s1, lit(tok.literal))
    } else if check(t, st, TokenType::SUPER) {
        let d = p_consume(t, s1, TokenType::DOT, "Expect '.' after 'super'."@);
        if d.res is Err {
            fail_out(d.st, err_of(d.res))
        } else {
            let m = p_consume(t, d.st, TokenType::IDENTIFIER, "Expect superclass method name"@);
            if m.res is Err {
                fail_out(m.st, err_of(m.res))
            } else {
                ok_out(m.st, ExprV::Super { keyword: tok, method: m.res->Ok_0 })
            }
        }
    } else if check(t, st, TokenType::THIS) {
        ok_out(s1, ExprV::This { keyword: tok })
    } else if check(t, st, TokenType::IDENTIFIER) {
        ok_out(s1, ExprV::Variable { name: tok })
    } else if check(t, st, TokenType::LEFT_PAREN) {
        let e = p_expression(t, s1);
        if e.res is Err {
            e
        } else {
            let c = p_consume(t, e.st, TokenType::RIGHT_PAREN, "Expect ')' after expression"@);
            if c.res is Err {
                fail_out(c.st, err_of(c.res))
            } else {
                ok_out(c.st, ExprV::Grouping { expression: Box::new(e.res->Ok_0) })
            }
        }
    } else {
        let msg = "Expect expression."@;
        fail_out(report(st, tok, msg), perr(tok, msg))
    }
}

/// The token types at which error recovery resumes.
pub open spec fn sync_types() -> Seq<TokenType> {
    seq![
        TokenType::CLASS,
        TokenType::FUN,
        TokenType::VAR,
        TokenType::FOR,
        TokenType::IF,
        TokenType::WHILE,
        TokenType::PRINT,
        TokenType::RETURN,
    ]
}

/// Error recovery after the first move: skips tokens until just after a
/// `;`, or before a token that starts a declaration or statement.
pub open spec fn sync_loop(t: Seq<TokenView>, st: PState) -> PState
    decreases t.len() - st.pos,
{
    if at_end(t, st) {
        st
    } else if t[st.pos - 1].token_type == TokenType::SEMICOLON {
        st
    } else if sync_types().contains(t[st.pos].token_type) {
        st
    } else {
        sync_loop(t, adv(t, st))
    }
}

/// Error recovery: moves past the current token, then as `sync_loop`.
pub open spec fn synchronized(t: Seq<TokenView>, st: PState) -> PState {
    sync_loop(t, adv(t, st))
}

/// declaration → classDecl | funDecl | varDecl | statement; a failed
/// declaration is followed by error recovery.
pub open spec fn p_declaration(t: Seq<TokenView>, st: PState) -> POut<StmtV>
    decreases t.len() - st.pos, 23nat,
{
    let o = if check(t, st, TokenType::CLASS) {
        p_class(t, adv(t, st))
    } else if check(t, st, TokenType::FUN) {
        p_function(t, adv(t, st), "function"@)
    } else if check(t, st, TokenType::VAR) {
        p_var(t, adv(t, st))
    } else {
        p_statement(t, st)
    };
    if o.res is Err {
        fail_out(synchronized(t, o.st), err_of(o.res))
    } else {
        o
    }
}

/// classDecl → "class" IDENTIFIER ( "<" IDENTIFIER )? "{" function* "}"
pub open spec fn p_class(t: Seq<TokenView>, st: PState) -> POut<StmtV>
    decreases t.len() - st.pos, 20nat,
{
    let n = p_consume(t, st, TokenType::IDENTIFIER, "Expect class name"@);
    if n.res is Err {
        fail_out(n.st, err_of(n.res))
    } else {
        let sc = if check(t, n.st, TokenType::LESS) {
            let c = p_consume(t, adv(t, n.st), TokenType::IDENTIFIER, "Expect superclass name."@);
            if c.res is Err {
                fail_out(c.st, err_of(c.res))
            } else {
                ok_out(c.st, Some(ExprV::Variable { name: c.res->Ok_0 }))
            }
        } else {
            ok_out(n.st, None)
        };
        if sc.res is Err {
            fail_out(sc.st, err_of(sc.res))
        } else {
            let b = p_consume(t, sc.st, TokenType::LEFT_BRACE, "Expect '{' before class body"@);
            if b.res is Err {
                fail_out(b.st, err_of(b.res))
            } else if !progressed(t, st, b.st) {
                never(b.st)  // never taken

            } else {
                let m = p_methods(t, b.st, Seq::empty());
                if m.res is Err {
                    fail_out(m.st, err_of(m.res))
                } else {
                    let r = p_consume(
                        t,
                        m.st,
                        TokenType::RIGHT_BRACE,
                        "Expect '}' after class body"@,
                    );
                    if r.res is Err {
                        fail_out(r.st, err_of(r.res))
                    } else {
                        ok_out(
                            r.st,
                            StmtV::Class {
                                name: n.res->Ok_0,
                                superclass: sc.res->Ok_0,
                                methods: m.res->Ok_0,
                            },
                        )
                    }
                }
            }
        }
    }
}

/// The methods of a class body, up to its closing brace.
pub open spec fn p_methods(t: Seq<TokenView>, st: PState, acc: Seq<StmtV>) -> POut<Seq<StmtV>>
    decreases t.len() - st.pos, 21nat,
{
    if !check(t, st, TokenType::RIGHT_BRACE) && !at_end(t, st) {
        let f = p_function(t, st, "method"@);
        if f.res is Err {
            fail_out(f.st, err_of(f.res))
        } else if !progressed(t, st, f.st) {
            never(f.st)  // never taken

        } else {
            p_methods(t, f.st, acc.push(f.res->Ok_0))
        }
    } else {
        ok_out(st, acc)
    }
}

/// function → IDENTIFIER "(" parameters? ")" block
pub open spec fn p_function(t: Seq<TokenView>, st: PState, kind: Seq<char>) -> POut<StmtV>
    decreases t.len() - st.pos, 20nat,
{
    let n = p_consume(t, st, TokenType::IDENTIFIER, "Expect "@ + kind + " name"@);
    if n.res is Err {
        fail_out(n.st, err_of(n.res))
    } else {
        let l = p_consume(t, n.st, TokenType::LEFT_PAREN, "Expect '(' after "@ + kind + " name"@);
        if l.res is Err {
            fail_out(l.st, err_of(l.res))
        } else {
            let ps = if !check(t, l.st, TokenType::RIGHT_PAREN) {
                let f = p_consume(t, l.st, TokenType::IDENTIFIER, "Expect parameter name"@);
                if f.res is Err {
                    fail_out(f.st, err_of(f.res))
                } else {
                    p_params(t, f.st, seq![f.res->Ok_0])
                }
            } else {
                ok_out(l.st, Seq::<TokenView>::empty())
            };
            if ps.res is Err {
                fail_out(ps.st, err_of(ps.res))
            } else {
                let r = p_consume(
                    t,
                    ps.st,
                    TokenType::RIGHT_PAREN,
                    "Expect ')' after parameter name"@,
                );
                if r.res is Err {
                    fail_out(r.st, err_of(r.res))
                } else {
                    let b = p_consume(
                        t,
                        r.st,
                        TokenType::LEFT_BRACE,
                        "Expect '{' before  "@ + kind + " body"@,
                    );
                    if b.res is Err {
                        fail_out(b.st, err_of(b.res))
                    } else if !progressed(t, st, b.st) {
                        never(b.st)  // never taken

                    } else {
                        let body = p_block(t, b.st);
                        if body.res is Err {
                            fail_out(body.st, err_of(body.res))
                        } else {
                            ok_out(
                                body.st,
                                StmtV::Function {
                                    name: n.res->Ok_0,
                                    params: ps.res->Ok_0,
                                    body: body.res->Ok_0,
                                },
                            )
                        }
                    }
                }
            }
        }
    }
}

/// The parameters after the first, each after a comma; an error is
/// reported (once) past 255 parameters, but parsing goes on.
pub open spec fn p_params(t: Seq<TokenView>, st: PState, params: Seq<TokenView>) -> POut<
    Seq<TokenView>,
>
    decreases t.len() - st.pos,
{
    if check(t, st, TokenType::COMMA) {
        let s1 = adv(t, st);
        let s2 = if params.len() >= 255 && !s1.had_error {
            report(s1, t[s1.pos], "Can't have more than 255 parameters."@)
        } else {
            s1
        };
        let c = p_consume(t, s2, TokenType::IDENTIFIER, "Expect parameter name"@);
        if c.res is Err {
            fail_out(c.st, err_of(c.res))
        } else {
            p_params(t, c.st, params.push(c.res->Ok_0))
        }
    } else {
        ok_out(st, params)
    }
}

/// block → declaration* "}" (a missing `}` is reported, and the block kept)
pub open spec fn p_block(t: Seq<TokenView>, st: PState) -> POut<Seq<StmtV>>
    decreases t.len() - st.pos, 25nat,
{
    let b = p_block_loop(t, st, Seq::empty());
    if b.res is Err {
        b
    } else {
        let c = p_consume(t, b.st, TokenType::RIGHT_BRACE, "Expect '}' after block."@);
        ok_out(c.st, b.res->Ok_0)
    }
}

/// The declarations of a block, up to its closing brace.
pub open spec fn p_block_loop(t: Seq<TokenView>, st: PState, acc: Seq<StmtV>) -> POut<Seq<StmtV>>
    decreases t.len() - st.pos, 24nat,
{
    if !check(t, st, TokenType::RIGHT_BRACE) && !at_end(t, st) {
        let d = p_declaration(t, st);
        if d.res is Err {
            fail_out(d.st, err_of(d.res))
        } else if !progressed(t, st, d.st) {
            never(d.st)  // never taken

        } else {
            p_block_loop(t, d.st, acc.push(d.res->Ok_0))
        }
    } else {
        ok_out(st, acc)
    }
}

/// statement → breakStmt | forStmt | ifStmt | printStmt | returnStmt
///           | whileStmt | block | exprStmt
pub open spec fn p_statement(t: Seq<TokenView>, st: PState) -> POut<StmtV>
    decreases t.len() - st.pos, 22nat,
{
    let s1 = adv(t, st);
    if check(t, st, TokenType::Break) {
        let c = p_consume(t, s1, TokenType::SEMICOLON, "Expect ';' after break statement."@);
        if c.res is Err {
            fail_out(c.st, err_of(c.res))
        } else {
            ok_out(c.st, StmtV::Break { token: t[st.pos] })
        }
    } else if check(t, st, TokenType::FOR) {
        p_for(t, s1)
    } else if check(t, st, TokenType::IF) {
        p_if(t, s1)
    } else if check(t, st, TokenType::PRINT) {
        p_print(t, s1)
    } else if check(t, st, TokenType::RETURN) {
        p_return(t, s1)
    } else if check(t, st, TokenType::WHILE) {
        p_while(t, s1)
    } else if check(t, st, TokenType::LEFT_BRACE) {
        let b = p_block(t, s1);
        if b.res is Err {
            fail_out(b.st, err_of(b.res))
        } else {
            ok_out(b.st, StmtV::Block { statements: b.res->Ok_0 })
        }
    } else {
        p_expression_statement(t, st)
    }
}

/// The statement a `for` loop stands for: the body followed by the
/// increment, repeated while the condition (true when absent) holds, after
/// the initializer.
pub open spec fn desugar_for(
    init: Option<StmtV>,
    cond: Option<ExprV>,
    incr: Option<ExprV>,
    body: StmtV,
) -> StmtV {
    let body1 = match incr {
        Some(i) => StmtV::Block { statements: seq![body, StmtV::Expression { expression: i }] },
        None => body,
    };
    let condition = match cond {
        Some(c) => c,
        None => lit(Some(LiteralView::Bool(true))),
    };
    let w = StmtV::While { condition, body: Box::new(body1) };
    match init {
        Some(s) => StmtV::Block { statements: seq![s, w] },
        None => w,
    }
}

/// forStmt → "for" "(" ( varDecl | exprStmt | ";" ) expression? ";"
///           expression? ")" statement
pub open spec fn p_for(t: Seq<TokenView>, st: PState) -> POut<StmtV>
    decreases t.len() - st.pos, 20nat,
{
    let c = p_consume(t, st, TokenType::LEFT_PAREN, "Expect '(' after 'for'."@);
    if c.res is Err {
        fail_out(c.st, err_of(c.res))
    } else if !progressed(t, st, c.st) {
        never(c.st)  // never taken

    } else {
        p_for_init(t, c.st)
    }
}

/// The initializer clause of a `for` loop, then the rest of the loop.
pub open spec fn p_for_init(t: Seq<TokenView>, st: PState) -> POut<StmtV>
    decreases t.len() - st.pos, 22nat,
{
    let init = if check(t, st, TokenType::SEMICOLON) {
        ok_out(adv(t, st), None)
    } else if check(t, st, TokenType::VAR) {
        let v = p_var(t, adv(t, st));
        if v.res is Err {
            fail_out(v.st, err_of(v.res))
        } else {
            ok_out(v.st, Some(v.res->Ok_0))
        }
    } else {
        let e = p_expression_statement(t, st);
        if e.res is Err {
            fail_out(e.st, err_of(e.res))
        } else {
            ok_out(e.st, Some(e.res->Ok_0))
        }
    };
    if init.res is Err {
        fail_out(init.st, err_of(init.res))
    } else if !advanced(t, st, init.st) {
        never(init.st)  // never taken

    } else {
        p_for_cond(t, init.st, init.res->Ok_0)
    }
}

/// The condition clause of a `for` loop and its `;`, then the rest.
pub open spec fn p_for_cond(t: Seq<TokenView>, st: PState, init: Option<StmtV>) -> POut<StmtV>
    decreases t.len() - st.pos, 20nat,
{
    let cond = if check(t, st, TokenType::SEMICOLON) {
        ok_out(st, None)
    } else {
        let e = p_expression(t, st);
        if e.res is Err {
            fail_out(e.st, err_of(e.res))
        } else {
            ok_out(e.st, Some(e.res->Ok_0))
        }
    };
    if cond.res is Err {
        fail_out(cond.st, err_of(cond.res))
    } else {
        let sc = p_consume(t, cond.st, TokenType::SEMICOLON, "Expect ';' after loop condition."@);
        if sc.res is Err {
            fail_out(sc.st, err_of(sc.res))
        } else if !progressed(t, st, sc.st) {
            never(sc.st)  // never taken

        } else {
            p_for_incr(t, sc.st, init, cond.res->Ok_0)
        }
    }
}

/// The increment clause of a `for` loop, its `)` and its body.
pub open spec fn p_for_incr(
    t: Seq<TokenView>,
    st: PState,
    init: Option<StmtV>,
    cond: Option<ExprV>,
) -> POut<StmtV>
    decreases t.len() - st.pos, 20nat,
{
    let incr = if check(t, st, TokenType::RIGHT_PAREN) {
        ok_out(st, None)
    } else {
        let e = p_expression(t, st);
        if e.res is Err {
            fail_out(e.st, err_of(e.res))
        } else {
            ok_out(e.st, Some(e.res->Ok_0))
        }
    };
    if incr.res is Err {
        fail_out(incr.st, err_of(incr.res))
    } else {
        let rp = p_consume(t, incr.st, TokenType::RIGHT_PAREN, "Expect ')' after for clauses."@);
        if rp.res is Err {
            fail_out(rp.st, err_of(rp.res))
        } else if !progressed(t, st, rp.st) {
            never(rp.st)  // never taken

        } else {
            let body = p_statement(t, rp.st);
            if body.res is Err {
                body
            } else {
                ok_out(body.st, desugar_for(init, cond, incr.res->Ok_0, body.res->Ok_0))
            }
        }
    }
}

/// ifStmt → "if" "(" expression ")" statement ( "else" statement )?
/// (missing parentheses are reported, and parsing goes on)
pub open spec fn p_if(t: Seq<TokenView>, st: PState) -> POut<StmtV>
    decreases t.len() - st.pos, 20nat,
{
    let c = p_consume(t, st, TokenType::LEFT_PAREN, "Expect '(' after 'if'."@);
    let e = p_expression(t, c.st);
    if e.res is Err {
        fail_out(e.st, err_of(e.res))
    } else if !progressed(t, st, e.st) {
        never(e.st)  // never taken

    } else {
        let r = p_consume(t, e.st, TokenType::RIGHT_PAREN, "Expect ')' after 'if'."@);
        let th = p_statement(t, r.st);
        if th.res is Err {
            th
        } else if !advanced(t, r.st, th.st) {
            never(th.st)  // never taken

        } else {
            let el = if check(t, th.st, TokenType::ELSE) {
                let x = p_statement(t, adv(t, th.st));
                if x.res is Err {
                    fail_out(x.st, err_of(x.res))
                } else {
                    ok_out(x.st, Some(Box::new(x.res->Ok_0)))
                }
            } else {
                ok_out(th.st, None)
            };
            if el.res is Err {
                fail_out(el.st, err_of(el.res))
            } else {
                ok_out(
                    el.st,
                    StmtV::If {
                        condition: e.res->Ok_0,
                        then_branch: Box::new(th.res->Ok_0),
                        else_branch: el.res->Ok_0,
                    },
                )
            }
        }
    }
}

/// printStmt → "print" expression ";"
pub open spec fn p_print(t: Seq<TokenView>, st: PState) -> POut<StmtV>
    decreases t.len() - st.pos, 20nat,
{
    let e = p_expression(t, st);
    if e.res is Err {
        fail_out(e.st, err_of(e.res))
    } else {
        let c = p_consume(t, e.st, TokenType::SEMICOLON, "Expect ';' after expression."@);
        if c.res is Err {
            fail_out(c.st, err_of(c.res))
        } else {
            ok_out(c.st, StmtV::Print { expression: e.res->Ok_0 })
        }
    }
}

/// returnStmt → "return" expression? ";"
pub open spec fn p_return(t: Seq<TokenView>, st: PState) -> POut<StmtV>
    decreases t.len() - st.pos, 20nat,
{
    let keyword = t[st.pos - 1];
    let v = if check(t, st, TokenType::SEMICOLON) {
        ok_out(st, None)
    } else {
        let e = p_expression(t, st);
        if e.res is Err {
            fail_out(e.st, err_of(e.res))
        } else {
            ok_out(e.st, Some(e.res->Ok_0))
        }
    };
    if v.res is Err {
        fail_out(v.st, err_of(v.res))
    } else {
        let c = p_consume(t, v.st, TokenType::SEMICOLON, "Expect ';' after return value."@);
        if c.res is Err {
            fail_out(c.st, err_of(c.res))
        } else {
            ok_out(c.st, StmtV::Return { keyword, value: v.res->Ok_0 })
        }
    }
}

/// varDecl → "var" IDENTIFIER ( "=" expression )? ";"
pub open spec fn p_var(t: Seq<TokenView>, st: PState) -> POut<StmtV>
    decreases t.len() - st.pos, 20nat,
{
    let n = p_consume(t, st, TokenType::IDENTIFIER, "Expect variable name"@);
    if n.res is Err {
        fail_out(n.st, err_of(n.res))
    } else {
        let init = if check(t, n.st, TokenType::EQUAL) {
            let e = p_expression(t, adv(t, n.st));
            if e.res is Err {
                fail_out(e.st, err_of(e.res))
            } else {
                ok_out(e.st, Some(e.res->Ok_0))
            }
        } else {
            ok_out(n.st, None)
        };
        if init.res is Err {
            fail_out(init.st, err_of(init.res))
        } else {
            let c = p_consume(
                t,
                init.st,
                TokenType::SEMICOLON,
                "Expect ';' after variable declaration."@,
            );
            if c.res is Err {
                fail_out(c.st, err_of(c.res))
            } else {
                ok_out(c.st, StmtV::Var { name: n.res->Ok_0, initializer: init.res->Ok_0 })
            }
        }
    }
}

/// whileStmt → "while" "(" expression ")" statement
pub open spec fn p_while(t: Seq<TokenView>, st: PState) -> POut<StmtV>
    decreases t.len() - st.pos, 20nat,
{
    let c = p_consume(t, st, TokenType::LEFT_PAREN, "Expect '(' after 'while'."@);
    if c.res is Err {
        fail_out(c.st, err_of(c.res))
    } else {
        let e = p_expression(t, c.st);
        if e.res is Err {
            fail_out(e.st, err_of(e.res))
        } else {
            let r = p_consume(t, e.st, TokenType::RIGHT_PAREN, "Expect ')' after 'while'."@);
            if r.res is Err {
                fail_out(r.st, err_of(r.res))
            } else if !progressed(t, st, r.st) {
                never(r.st)  // never taken

            } else {
                let b = p_statement(t, r.st);
                if b.res is Err {
                    b
                } else {
                    ok_out(
                        b.st,
                        StmtV::While { condition: e.res->Ok_0, body: Box::new(b.res->Ok_0) },
                    )
                }
            }
        }
    }
}

/// exprStmt → expression ";"
pub open spec fn p_expression_statement(t: Seq<TokenView>, st: PState) -> POut<StmtV>
    decreases t.len() - st.pos, 21nat,
{
    let e = p_expression(t, st);
    if e.res is Err {
        fail_out(e.st, err_of(e.res))
    } else {
        let c = p_consume(t, e.st, TokenType::SEMICOLON, "Expect ';' after expression."@);
        if c.res is Err {
            fail_out(c.st, err_of(c.res))
        } else {
            ok_out(c.st, StmtV::Expression { expression: e.res->Ok_0 })
        }
    }
}

/// program → declaration* EOF: the declarations that parse, in order; a
/// failed declaration is left out (its errors stay reported).
pub open spec fn p_program(t: Seq<TokenView>, st: PState) -> POut<Seq<StmtV>>
    decreases t.len() - st.pos,
{
    if at_end(t, st) {
        ok_out(st, Seq::empty())
    } else {
        let d = p_declaration(t, st);
        if !progressed(t, st, d.st) {
            never(d.st)  // never taken

        } else {
            let rest = p_program(t, d.st);
            let here = if d.res is Ok {
                seq![d.res->Ok_0]
            } else {
                Seq::empty()
            };
            ok_out(rest.st, here + rest.res->Ok_0)
        }
    }
}

/// The state at the start of a parse.
pub open spec fn start_state() -> PState {
    PState { pos: 0, had_error: false, reports: Seq::empty() }
}

/// The result of parsing a whole token sequence: its declarations, or a
/// failure where any error was reported.
pub open spec fn parse_program(t: Seq<TokenView>) -> Result<Seq<StmtV>, LoxResultView> {
    let o = p_program(t, start_state());
    if o.st.had_error {
        Err(LoxResultView::Fail)
    } else {
        Ok(o.res->Ok_0)
    }
}

/// The errors reported while parsing a whole token sequence.
pub open spec fn parse_reports(t: Seq<TokenView>) -> Seq<LoxResultView> {
    p_program(t, start_state()).st.reports
}

} // verus!
