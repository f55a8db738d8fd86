use vstd::prelude::*;

use crate::ast::{
    opt_expr_view,
    exprs_view, lemma_exprs_view_len, lemma_exprs_view_push, lemma_stmts_view_empty,
    lemma_stmts_view_push, stmts_view, AssignExpr, BinaryExpr, BlockStmt, BreakStmt, CallExpr, ClassStmt, Expr,
    ExprV, ExpressionStmt, FunctionStmt, GetExpr, GroupingExpr, IfStmt, LiteralExpr, LogicalExpr,
    PrintStmt, ReturnStmt, SetExpr, Stmt, StmtV, SuperExpr, ThisExpr, UnaryExpr, VarStmt,
    VariableExpr, WhileStmt,
};
use crate::entities::{dup_literal, tokens_view, LiteralValue, Token, TokenType, TokenView};
use crate::errors::{results_view, LoxResult, LoxResultView};
use crate::grammar::{
    adv, at_end, check, matches_any, p_args_loop, p_assignment, p_block, p_block_loop, p_call,
    p_call_loop, p_class, p_consume, p_declaration, p_expression, p_expression_statement,
    p_finish_call, lit, p_for, p_for_cond, p_for_incr, p_for_init, p_function, p_if, p_level, p_level_loop, p_methods, p_operand, p_params,
    p_primary, p_print, p_program, p_return, p_statement, p_unary, p_var, p_while, perr, report,
    start_state, sync_loop, sync_types, synchronized, level_ops, wf_tokens, desugar_for, PState,
    POut,
};

verus! {

/// The model of an expression result.
pub open spec fn eres(r: Result<Expr, LoxResult>) -> Result<ExprV, LoxResultView> {
    match r {
        Ok(e) => Ok(e@),
        Err(x) => Err(x@),
    }
}

/// The model of a statement result.
pub open spec fn sres(r: Result<Stmt, LoxResult>) -> Result<StmtV, LoxResultView> {
    match r {
        Ok(s) => Ok(s@),
        Err(x) => Err(x@),
    }
}

/// The model of a token result.
pub open spec fn tres(r: Result<Token, LoxResult>) -> Result<TokenView, LoxResultView> {
    match r {
        Ok(t) => Ok(t@),
        Err(x) => Err(x@),
    }
}

/// The model of a result carrying statements.
pub open spec fn ssres(r: Result<Vec<Stmt>, LoxResult>) -> Result<Seq<StmtV>, LoxResultView> {
    match r {
        Ok(v) => Ok(stmts_view(v@)),
        Err(x) => Err(x@),
    }
}

/// The model of an optional statement.
pub open spec fn opt_stmt_view(o: Option<Stmt>) -> Option<StmtV> {
    match o {
        Some(s) => Some(s@),
        None => None,
    }
}

/// Reads tokens into statements by recursive descent.
pub struct Parser<'a> {
    tokens: &'a [Token],
    current: usize,
    had_error: bool,
    reports: Vec<LoxResult>,
}

impl<'a> Parser<'a> {
    /// The models of the tokens being parsed.
    pub closed spec fn toks(&self) -> Seq<TokenView> {
        tokens_view(self.tokens@)
    }

    /// The state of the parse.
    pub closed spec fn state(&self) -> PState {
        PState {
            pos: self.current as int,
            had_error: self.had_error,
            reports: results_view(self.reports@),
        }
    }

    /// The parser's invariant: the tokens end with the end-of-file token,
    /// the position is on a token, and an error has been reported exactly
    /// when an error report has been kept.
    pub closed spec fn inv(&self) -> bool {
        &&& wf_tokens(self.toks())
        &&& self.current < self.tokens@.len()
        &&& self.had_error == (self.reports@.len() > 0)
    }

    /// This parser reached the given state and result.
    closed spec fn reached<T>(&self, o: POut<T>, r: Result<T, LoxResultView>) -> bool {
        self.state() == o.st && r == o.res
    }

    /// A parser at the start of `tokens`, which must end with the
    /// end-of-file token (as scanning leaves them).
    pub fn new(tokens: &'a [Token]) -> (r: Parser<'a>)
        requires
            wf_tokens(tokens_view(tokens@)),
        ensures
            r.inv(),
            r.toks() == tokens_view(tokens@),
            r.state() == start_state(),
    {
        let r = Parser { tokens, current: 0, had_error: false, reports: Vec::new() };
        assert(results_view(r.reports@) =~= Seq::empty());
        r
    }

    /// The errors reported so far, in the order they were reported.
    pub fn reports(&self) -> (r: &Vec<LoxResult>)
        ensures
            results_view(r@) == self.state().reports,
    {
        &self.reports
    }

    /// Parses the declarations up to the end of the tokens. The result is
    /// the declarations that parsed, or, where any error was reported, a
    /// failure: the parse fails exactly when error reports were kept.
    pub fn parse(&mut self) -> (r: Result<Vec<Stmt>, LoxResult>)
        requires
            old(self).inv(),
        ensures
            final(self).inv(),
            ({
                let o = p_program(old(self).toks(), old(self).state());
                &&& final(self).state() == o.st
                &&& o.st.had_error == (o.st.reports.len() > 0)
                &&& match r {
                    Ok(v) => !o.st.had_error && stmts_view(v@) == o.res->Ok_0,
                    Err(e) => o.st.had_error && e@ == LoxResultView::Fail,
                }
            }),
    {
        let statements: Vec<Stmt> = Vec::new();
        proof {
            lemma_stmts_view_empty(statements@);
        }
        let statements = self.declarations(statements);
        if self.had_error {
            Err(LoxResult::fail())
        } else {
            Ok(statements)
        }
    }

    /// The declarations up to the end of the tokens, after those in
    /// `statements`; a failed declaration is left out.
    fn declarations(&mut self, statements: Vec<Stmt>) -> (r: Vec<Stmt>)
        requires
            old(self).inv(),
        ensures
            final(self).inv(),
            final(self).tokens == old(self).tokens,
            ({
                let o = p_program(old(self).toks(), old(self).state());
                &&& final(self).state() == o.st
                &&& o.res is Ok
                &&& stmts_view(r@) == stmts_view(statements@) + o.res->Ok_0
            }),
        decreases old(self).tokens@.len() - old(self).current,
    {
        let mut statements = statements;
        if self.is_at_end() {
            assert(stmts_view(statements@) + Seq::<StmtV>::empty() =~= stmts_view(statements@));
            return statements;
        }
        let ghost prev = stmts_view(statements@);
        match self.declaration() {
            Ok(d) => {
                let ghost dv = d@;
                proof {
                    lemma_stmts_view_push(statements@, d);
                }
                statements.push(d);
                let r = self.declarations(statements);
                proof {
                    let rest = p_program(old(self).toks(), self.state());
                    assert(prev + (seq![dv] + rest.res->Ok_0) =~= prev.push(dv) + rest.res->Ok_0);
                }
                r
            },
            Err(_) => {
                let r = self.declarations(statements);
                proof {
                    let rest = p_program(old(self).toks(), self.state());
                    assert(prev + (Seq::<StmtV>::empty() + rest.res->Ok_0) =~= prev + rest.res->Ok_0);
                }
                r
            },
        }
    }

    fn declaration(&mut self) -> (r: Result<Stmt, LoxResult>)
        requires
            old(self).inv(),
        ensures
            final(self).inv(),
            final(self).tokens == old(self).tokens,
            final(self).reached(p_declaration(old(self).toks(), old(self).state()), sres(r)),
            old(self).current <= final(self).current,
            !at_end(old(self).toks(), old(self).state()) ==> old(self).current < final(self).current,
        decreases old(self).tokens@.len() - old(self).current, 29nat,
    {
        let result = if self.match_type(TokenType::CLASS) {
            self.class_declaration()
        } else if self.match_type(TokenType::FUN) {
            self.function("function")
        } else if self.match_type(TokenType::VAR) {
            self.var_declaration()
        } else {
            self.statement()
        };
        if result.is_err() {
            self.synchronize();
        }
        result
    }

    #[verifier::rlimit(100)]
    fn class_declaration(&mut self) -> (r: Result<Stmt, LoxResult>)
        requires
            old(self).inv(),
        ensures
            final(self).inv(),
            final(self).tokens == old(self).tokens,
            final(self).reached(p_class(old(self).toks(), old(self).state()), sres(r)),
            old(self).current <= final(self).current,
            r is Ok ==> old(self).current < final(self).current,
        decreases old(self).tokens@.len() - old(self).current, 26nat,
    {
        let ghost t = self.toks();
        let name = self.consume(TokenType::IDENTIFIER, "Expect class name")?;
        let superclass = if self.match_type(TokenType::LESS) {
            let sname = self.consume(TokenType::IDENTIFIER, "Expect superclass name.")?;
            Some(Expr::Variable(VariableExpr { name: sname }))
        } else {
            None
        };
        self.consume(TokenType::LEFT_BRACE, "Expect '{' before class body")?;
        let methods: Vec<Stmt> = Vec::new();
        proof {
            lemma_stmts_view_empty(methods@);
        }
        let methods = self.methods_rest(methods)?;
        self.consume(TokenType::RIGHT_BRACE, "Expect '}' after class body")?;
        Ok(Stmt::Class(ClassStmt { name, superclass, methods }))
    }

    /// The methods of a class body, up to its closing brace.
    fn methods_rest(&mut self, methods: Vec<Stmt>) -> (r: Result<Vec<Stmt>, LoxResult>)
        requires
            old(self).inv(),
        ensures
            final(self).inv(),
            final(self).tokens == old(self).tokens,
            final(self).reached(
                p_methods(old(self).toks(), old(self).state(), stmts_view(methods@)),
                ssres(r),
            ),
            old(self).current <= final(self).current,
        decreases old(self).tokens@.len() - old(self).current, 27nat,
    {
        let mut methods = methods;
        if !self.check(TokenType::RIGHT_BRACE) && !self.is_at_end() {
            let m = self.function("method")?;
            proof {
                lemma_stmts_view_push(methods@, m);
            }
            methods.push(m);
            self.methods_rest(methods)
        } else {
            Ok(methods)
        }
    }

    fn statement(&mut self) -> (r: Result<Stmt, LoxResult>)
        requires
            old(self).inv(),
        ensures
            final(self).inv(),
            final(self).tokens == old(self).tokens,
            final(self).reached(p_statement(old(self).toks(), old(self).state()), sres(r)),
            old(self).current <= final(self).current,
            r is Ok ==> old(self).current < final(self).current,
        decreases old(self).tokens@.len() - old(self).current, 28nat,
    {
        if self.match_type(TokenType::Break) {
            let token = self.previous().dup();
            self.consume(TokenType::SEMICOLON, "Expect ';' after break statement.")?;
            return Ok(Stmt::Break(BreakStmt { token }));
        }
        if self.match_type(TokenType::FOR) {
            return self.for_statement();
        }
        if self.match_type(TokenType::IF) {
            return self.if_statement();
        }
        if self.match_type(TokenType::PRINT) {
            return self.print_statement();
        }
        if self.match_type(TokenType::RETURN) {
            return self.return_statement();
        }
        if self.match_type(TokenType::WHILE) {
            return self.while_statement();
        }
        if self.match_type(TokenType::LEFT_BRACE) {
            let statements = self.block()?;
            return Ok(Stmt::Block(BlockStmt { statements }));
        }
        self.expression_statement()
    }


    fn for_statement(&mut self) -> (r: Result<Stmt, LoxResult>)
        requires
            old(self).inv(),
        ensures
            final(self).inv(),
            final(self).tokens == old(self).tokens,
            final(self).reached(p_for(old(self).toks(), old(self).state()), sres(r)),
            old(self).current <= final(self).current,
            r is Ok ==> old(self).current < final(self).current,
        decreases old(self).tokens@.len() - old(self).current, 26nat,
    {
        self.consume(TokenType::LEFT_PAREN, "Expect '(' after 'for'.")?;
        self.for_initializer()
    }

    /// The initializer clause of a `for` loop, then the rest of the loop.
    fn for_initializer(&mut self) -> (r: Result<Stmt, LoxResult>)
        requires
            old(self).inv(),
        ensures
            final(self).inv(),
            final(self).tokens == old(self).tokens,
            final(self).reached(p_for_init(old(self).toks(), old(self).state()), sres(r)),
            old(self).current <= final(self).current,
            r is Ok ==> old(self).current < final(self).current,
        decreases old(self).tokens@.len() - old(self).current, 28nat,
    {
        let initializer = if self.match_type(TokenType::SEMICOLON) {
            None
        } else if self.match_type(TokenType::VAR) {
            Some(self.var_declaration()?)
        } else {
            Some(self.expression_statement()?)
        };
        self.for_condition(initializer)
    }

    /// The condition clause of a `for` loop and its `;`, then the rest.
    fn for_condition(&mut self, initializer: Option<Stmt>) -> (r: Result<Stmt, LoxResult>)
        requires
            old(self).inv(),
        ensures
            final(self).inv(),
            final(self).tokens == old(self).tokens,
            final(self).reached(
                p_for_cond(old(self).toks(), old(self).state(), opt_stmt_view(initializer)),
                sres(r),
            ),
            old(self).current <= final(self).current,
            r is Ok ==> old(self).current < final(self).current,
        decreases old(self).tokens@.len() - old(self).current, 26nat,
    {
        let condition = if self.check(TokenType::SEMICOLON) {
            None
        } else {
            Some(self.expression()?)
        };
        self.consume(TokenType::SEMICOLON, "Expect ';' after loop condition.")?;
        self.for_increment(initializer, condition)
    }

    /// The increment clause of a `for` loop, its `)` and its body; the loop
    /// becomes a `while` loop.
    fn for_increment(&mut self, initializer: Option<Stmt>, condition: Option<Expr>) -> (r: Result<
        Stmt,
        LoxResult,
    >)
        requires
            old(self).inv(),
        ensures
            final(self).inv(),
            final(self).tokens == old(self).tokens,
            final(self).reached(
                p_for_incr(
                    old(self).toks(),
                    old(self).state(),
                    opt_stmt_view(initializer),
                    opt_expr_view(condition),
                ),
                sres(r),
            ),
            old(self).current <= final(self).current,
            r is Ok ==> old(self).current < final(self).current,
        decreases old(self).tokens@.len() - old(self).current, 26nat,
    {
        let ghost init_v = opt_stmt_view(initializer);
        let ghost cond_v = opt_expr_view(condition);
        let increment = if self.check(TokenType::RIGHT_PAREN) {
            None
        } else {
            Some(self.expression()?)
        };
        let ghost incr_v = opt_expr_view(increment);
        self.consume(TokenType::RIGHT_PAREN, "Expect ')' after for clauses.")?;
        let body = self.statement()?;
        Ok(Self::desugared_for(initializer, condition, increment, body))
    }

    /// The `while` loop that a `for` loop stands for.
    fn desugared_for(
        initializer: Option<Stmt>,
        condition: Option<Expr>,
        increment: Option<Expr>,
        body: Stmt,
    ) -> (r: Stmt)
        ensures
            r@ == desugar_for(
                opt_stmt_view(initializer),
                opt_expr_view(condition),
                opt_expr_view(increment),
                body@,
            ),
    {
        let ghost body_v = body@;
        let ghost init_v = opt_stmt_view(initializer);
        let ghost cond_v = opt_expr_view(condition);
        let ghost incr_v = opt_expr_view(increment);
        let ghost body1 = match incr_v {
            Some(i) => StmtV::Block { statements: seq![body_v, StmtV::Expression { expression: i }] },
            None => body_v,
        };
        let mut body = body;
        if let Some(incr) = increment {
            let mut statements: Vec<Stmt> = Vec::new();
            proof {
                lemma_stmts_view_empty(statements@);
                lemma_stmts_view_push(statements@, body);
            }
            statements.push(body);
            let last = Stmt::Expression(ExpressionStmt { expression: incr });
            proof {
                lemma_stmts_view_push(statements@, last);
            }
            statements.push(last);
            assert(stmts_view(statements@) =~= seq![body_v, StmtV::Expression { expression: incr@ }]);
            body = Stmt::Block(BlockStmt { statements });
        }
        assert(body@ == body1);
        let condition = match condition {
            Some(c) => c,
            None => Expr::Literal(LiteralExpr { value: Some(LiteralValue::Bool(true)) }),
        };
        assert(condition@ == match cond_v {
            Some(c) => c,
            None => lit(Some(crate::entities::LiteralView::Bool(true))),
        });
        body = Stmt::While(WhileStmt { condition, body: Box::new(body) });
        if let Some(init) = initializer {
            let ghost wv = body@;
            let mut statements: Vec<Stmt> = Vec::new();
            proof {
                lemma_stmts_view_empty(statements@);
                lemma_stmts_view_push(statements@, init);
            }
            statements.push(init);
            proof {
                lemma_stmts_view_push(statements@, body);
            }
            statements.push(body);
            assert(stmts_view(statements@) =~= seq![init@, wv]);
            body = Stmt::Block(BlockStmt { statements });
        }
        body
    }

    fn if_statement(&mut self) -> (r: Result<Stmt, LoxResult>)
        requires
            old(self).inv(),
        ensures
            final(self).inv(),
            final(self).tokens == old(self).tokens,
            final(self).reached(p_if(old(self).toks(), old(self).state()), sres(r)),
            old(self).current <= final(self).current,
            r is Ok ==> old(self).current < final(self).current,
        decreases old(self).tokens@.len() - old(self).current, 26nat,
    {
        let _ = self.consume(TokenType::LEFT_PAREN, "Expect '(' after 'if'.");
        let condition = self.expression()?;
        let _ = self.consume(TokenType::RIGHT_PAREN, "Expect ')' after 'if'.");
        let then_branch = self.statement()?;
        let else_branch = if self.match_type(TokenType::ELSE) {
            Some(Box::new(self.statement()?))
        } else {
            None
        };
        Ok(Stmt::If(IfStmt { condition, then_branch: Box::new(then_branch), else_branch }))
    }

    fn print_statement(&mut self) -> (r: Result<Stmt, LoxResult>)
        requires
            old(self).inv(),
        ensures
            final(self).inv(),
            final(self).tokens == old(self).tokens,
            final(self).reached(p_print(old(self).toks(), old(self).state()), sres(r)),
            old(self).current <= final(self).current,
            r is Ok ==> old(self).current < final(self).current,
        decreases old(self).tokens@.len() - old(self).current, 26nat,
    {
        let value = self.expression()?;
        self.consume(TokenType::SEMICOLON, "Expect ';' after expression.")?;
        Ok(Stmt::Print(PrintStmt { expression: value }))
    }

    fn return_statement(&mut self) -> (r: Result<Stmt, LoxResult>)
        requires
            old(self).inv(),
            old(self).current >= 1,
        ensures
            final(self).inv(),
            final(self).tokens == old(self).tokens,
            final(self).reached(p_return(old(self).toks(), old(self).state()), sres(r)),
            old(self).current <= final(self).current,
            r is Ok ==> old(self).current < final(self).current,
        decreases old(self).tokens@.len() - old(self).current, 26nat,
    {
        let keyword = self.previous().dup();
        let value = if self.check(TokenType::SEMICOLON) {
            None
        } else {
            Some(self.expression()?)
        };
        self.consume(TokenType::SEMICOLON, "Expect ';' after return value.")?;
        Ok(Stmt::Return(ReturnStmt { keyword, value }))
    }

    fn var_declaration(&mut self) -> (r: Result<Stmt, LoxResult>)
        requires
            old(self).inv(),
        ensures
            final(self).inv(),
            final(self).tokens == old(self).tokens,
            final(self).reached(p_var(old(self).toks(), old(self).state()), sres(r)),
            old(self).current <= final(self).current,
            r is Ok ==> old(self).current < final(self).current,
        decreases old(self).tokens@.len() - old(self).current, 26nat,
    {
        let name = self.consume(TokenType::IDENTIFIER, "Expect variable name")?;
        let initializer = if self.match_type(TokenType::EQUAL) {
            Some(self.expression()?)
        } else {
            None
        };
        self.consume(TokenType::SEMICOLON, "Expect ';' after variable declaration.")?;
        Ok(Stmt::Var(VarStmt { name, initializer }))
    }

    fn while_statement(&mut self) -> (r: Result<Stmt, LoxResult>)
        requires
            old(self).inv(),
        ensures
            final(self).inv(),
            final(self).tokens == old(self).tokens,
            final(self).reached(p_while(old(self).toks(), old(self).state()), sres(r)),
            old(self).current <= final(self).current,
            r is Ok ==> old(self).current < final(self).current,
        decreases old(self).tokens@.len() - old(self).current, 26nat,
    {
        self.consume(TokenType::LEFT_PAREN, "Expect '(' after 'while'.")?;
        let condition = self.expression()?;
        self.consume(TokenType::RIGHT_PAREN, "Expect ')' after 'while'.")?;
        let body = self.statement()?;
        Ok(Stmt::While(WhileStmt { condition, body: Box::new(body) }))
    }

    fn expression_statement(&mut self) -> (r: Result<Stmt, LoxResult>)
        requires
            old(self).inv(),
        ensures
            final(self).inv(),
            final(self).tokens == old(self).tokens,
            final(self).reached(
                p_expression_statement(old(self).toks(), old(self).state()),
                sres(r),
            ),
            old(self).current <= final(self).current,
            r is Ok ==> old(self).current < final(self).current,
        decreases old(self).tokens@.len() - old(self).current, 27nat,
    {
        let expr = self.expression()?;
        self.consume(TokenType::SEMICOLON, "Expect ';' after expression.")?;
        Ok(Stmt::Expression(ExpressionStmt { expression: expr }))
    }

    /// A function declaration (or a method, by `kind`).
    #[verifier::rlimit(60)]
    fn function(&mut self, kind: &str) -> (r: Result<Stmt, LoxResult>)
        requires
            old(self).inv(),
        ensures
            final(self).inv(),
            final(self).tokens == old(self).tokens,
            final(self).reached(p_function(old(self).toks(), old(self).state(), kind@), sres(r)),
            old(self).current <= final(self).current,
            r is Ok ==> old(self).current < final(self).current,
        decreases old(self).tokens@.len() - old(self).current, 26nat,
    {
        let mut m = String::from_str("Expect ");
        m.append(kind);
        m.append(" name");
        let name = self.consume(TokenType::IDENTIFIER, m.as_str())?;
        let mut m = String::from_str("Expect '(' after ");
        m.append(kind);
        m.append(" name");
        self.consume(TokenType::LEFT_PAREN, m.as_str())?;
        let params = if !self.check(TokenType::RIGHT_PAREN) {
            let first = self.consume(TokenType::IDENTIFIER, "Expect parameter name")?;
            let mut params: Vec<Token> = Vec::new();
            let ghost fv = first@;
            params.push(first);
            assert(tokens_view(params@) =~= seq![fv]);
            self.params_rest(params)?
        } else {
            let params: Vec<Token> = Vec::new();
            assert(tokens_view(params@) =~= Seq::<TokenView>::empty());
            params
        };
        self.consume(TokenType::RIGHT_PAREN, "Expect ')' after parameter name")?;
        let mut m = String::from_str("Expect '{' before  ");
        m.append(kind);
        m.append(" body");
        self.consume(TokenType::LEFT_BRACE, m.as_str())?;
        let body = self.block()?;
        Ok(Stmt::Function(FunctionStmt { name, params, body }))
    }

    /// The parameters after the first, each after a comma; past 255
    /// parameters an error is reported (once), and parsing goes on.
    fn params_rest(&mut self, params: Vec<Token>) -> (r: Result<Vec<Token>, LoxResult>)
        requires
            old(self).inv(),
        ensures
            final(self).inv(),
            final(self).tokens == old(self).tokens,
            final(self).reached(
                p_params(old(self).toks(), old(self).state(), tokens_view(params@)),
                match r {
                    Ok(v) => Ok(tokens_view(v@)),
                    Err(e) => Err(e@),
                },
            ),
            old(self).current <= final(self).current,
        decreases old(self).tokens@.len() - old(self).current,
    {
        let mut params = params;
        if self.match_type(TokenType::COMMA) {
            if params.len() >= 255 && !self.had_error {
                let peek = self.peek().dup();
                let _ = self.error(&peek, "Can't have more than 255 parameters.");
            }
            let p = self.consume(TokenType::IDENTIFIER, "Expect parameter name")?;
            let ghost prev = params@;
            let ghost pv = p@;
            params.push(p);
            assert(tokens_view(params@) =~= tokens_view(prev).push(pv));
            self.params_rest(params)
        } else {
            Ok(params)
        }
    }

    /// The declarations of a block, up to its closing brace.
    fn block_rest(&mut self, statements: Vec<Stmt>) -> (r: Result<Vec<Stmt>, LoxResult>)
        requires
            old(self).inv(),
        ensures
            final(self).inv(),
            final(self).tokens == old(self).tokens,
            final(self).reached(
                p_block_loop(old(self).toks(), old(self).state(), stmts_view(statements@)),
                ssres(r),
            ),
            old(self).current <= final(self).current,
        decreases old(self).tokens@.len() - old(self).current, 30nat,
    {
        let mut statements = statements;
        if !self.check(TokenType::RIGHT_BRACE) && !self.is_at_end() {
            let d = self.declaration()?;
            proof {
                lemma_stmts_view_push(statements@, d);
            }
            statements.push(d);
            self.block_rest(statements)
        } else {
            Ok(statements)
        }
    }

    /// The declarations of a block, up to and including its closing brace
    /// (a missing brace is reported, and the block kept).
    fn block(&mut self) -> (r: Result<Vec<Stmt>, LoxResult>)
        requires
            old(self).inv(),
        ensures
            final(self).inv(),
            final(self).tokens == old(self).tokens,
            final(self).reached(p_block(old(self).toks(), old(self).state()), ssres(r)),
            old(self).current <= final(self).current,
        decreases old(self).tokens@.len() - old(self).current, 31nat,
    {
        let statements: Vec<Stmt> = Vec::new();
        proof {
            lemma_stmts_view_empty(statements@);
        }
        let statements = self.block_rest(statements)?;
        let _ = self.consume(TokenType::RIGHT_BRACE, "Expect '}' after block.");
        Ok(statements)
    }

    fn expression(&mut self) -> (r: Result<Expr, LoxResult>)
        requires
            old(self).inv(),
        ensures
            final(self).inv(),
            final(self).tokens == old(self).tokens,
            final(self).reached(p_expression(old(self).toks(), old(self).state()), eres(r)),
            old(self).current <= final(self).current,
            r is Ok ==> old(self).current < final(self).current,
        decreases old(self).tokens@.len() - old(self).current, 24nat,
    {
        self.assignment()
    }

    fn assignment(&mut self) -> (r: Result<Expr, LoxResult>)
        requires
            old(self).inv(),
        ensures
            final(self).inv(),
            final(self).tokens == old(self).tokens,
            final(self).reached(p_assignment(old(self).toks(), old(self).state()), eres(r)),
            old(self).current <= final(self).current,
            r is Ok ==> old(self).current < final(self).current,
        decreases old(self).tokens@.len() - old(self).current, 23nat,
    {
        let expr = self.or()?;
        if self.match_type(TokenType::EQUAL) {
            let equals = self.previous().dup();
            let value = self.assignment()?;
            match expr {
                Expr::Variable(v) => {
                    return Ok(Expr::Assign(AssignExpr { name: v.name, value: Box::new(value) }));
                },
                Expr::Get(g) => {
                    return Ok(
                        Expr::SetField(
                            SetExpr { literalvalue: g.literalvalue, name: g.name, value: Box::new(value) },
                        ),
                    );
                },
                other => {
                    let _ = self.error(&equals, "Invalid assignment target.");
                    return Ok(other);
                },
            }
        }
        Ok(expr)
    }

    fn or(&mut self) -> (r: Result<Expr, LoxResult>)
        requires
            old(self).inv(),
        ensures
            final(self).inv(),
            final(self).tokens == old(self).tokens,
            final(self).reached(p_level(old(self).toks(), old(self).state(), 5), eres(r)),
            old(self).current <= final(self).current,
            r is Ok ==> old(self).current < final(self).current,
        decreases old(self).tokens@.len() - old(self).current, 22nat,
    {
        self.binary_level(5)
    }

    fn and(&mut self) -> (r: Result<Expr, LoxResult>)
        requires
            old(self).inv(),
        ensures
            final(self).inv(),
            final(self).tokens == old(self).tokens,
            final(self).reached(p_level(old(self).toks(), old(self).state(), 4), eres(r)),
            old(self).current <= final(self).current,
            r is Ok ==> old(self).current < final(self).current,
        decreases old(self).tokens@.len() - old(self).current, 19nat,
    {
        self.binary_level(4)
    }

    fn equality(&mut self) -> (r: Result<Expr, LoxResult>)
        requires
            old(self).inv(),
        ensures
            final(self).inv(),
            final(self).tokens == old(self).tokens,
            final(self).reached(p_level(old(self).toks(), old(self).state(), 3), eres(r)),
            old(self).current <= final(self).current,
            r is Ok ==> old(self).current < final(self).current,
        decreases old(self).tokens@.len() - old(self).current, 16nat,
    {
        self.binary_level(3)
    }

    fn comparison(&mut self) -> (r: Result<Expr, LoxResult>)
        requires
            old(self).inv(),
        ensures
            final(self).inv(),
            final(self).tokens == old(self).tokens,
            final(self).reached(p_level(old(self).toks(), old(self).state(), 2), eres(r)),
            old(self).current <= final(self).current,
            r is Ok ==> old(self).current < final(self).current,
        decreases old(self).tokens@.len() - old(self).current, 13nat,
    {
        self.binary_level(2)
    }

    fn term(&mut self) -> (r: Result<Expr, LoxResult>)
        requires
            old(self).inv(),
        ensures
            final(self).inv(),
            final(self).tokens == old(self).tokens,
            final(self).reached(p_level(old(self).toks(), old(self).state(), 1), eres(r)),
            old(self).current <= final(self).current,
            r is Ok ==> old(self).current < final(self).current,
        decreases old(self).tokens@.len() - old(self).current, 10nat,
    {
        self.binary_level(1)
    }

    fn factor(&mut self) -> (r: Result<Expr, LoxResult>)
        requires
            old(self).inv(),
        ensures
            final(self).inv(),
            final(self).tokens == old(self).tokens,
            final(self).reached(p_level(old(self).toks(), old(self).state(), 0), eres(r)),
            old(self).current <= final(self).current,
            r is Ok ==> old(self).current < final(self).current,
        decreases old(self).tokens@.len() - old(self).current, 7nat,
    {
        self.binary_level(0)
    }

    /// The operand of binary level `k`.
    fn operand(&mut self, k: u8) -> (r: Result<Expr, LoxResult>)
        requires
            old(self).inv(),
            k <= 5,
        ensures
            final(self).inv(),
            final(self).tokens == old(self).tokens,
            final(self).reached(p_operand(old(self).toks(), old(self).state(), k as nat), eres(r)),
            old(self).current <= final(self).current,
            r is Ok ==> old(self).current < final(self).current,
        decreases old(self).tokens@.len() - old(self).current, 5 + 3 * k,
    {
        if k == 0 {
            self.unary()
        } else if k == 1 {
            self.factor()
        } else if k == 2 {
            self.term()
        } else if k == 3 {
            self.comparison()
        } else if k == 4 {
            self.equality()
        } else {
            self.and()
        }
    }

    /// Binary level `k`: an operand, then any number of (operator operand).
    fn binary_level(&mut self, k: u8) -> (r: Result<Expr, LoxResult>)
        requires
            old(self).inv(),
            k <= 5,
        ensures
            final(self).inv(),
            final(self).tokens == old(self).tokens,
            final(self).reached(p_level(old(self).toks(), old(self).state(), k as nat), eres(r)),
            old(self).current <= final(self).current,
            r is Ok ==> old(self).current < final(self).current,
        decreases old(self).tokens@.len() - old(self).current, 6 + 3 * k,
    {
        let ghost t = self.toks();
        let ghost st0 = self.state();
        let mut expr = self.operand(k)?;
        let ops = Self::level_operators(k);
        loop
            invariant
                self.inv(),
                self.tokens == old(self).tokens,
                self.toks() == t,
                t == old(self).toks(),
                st0 == old(self).state(),
                old(self).current < self.current,
                k <= 5,
                ops@ == level_ops(k as nat),
                p_level(t, st0, k as nat) == p_level_loop(t, self.state(), k as nat, expr@),
            decreases self.tokens@.len() - self.current,
        {
            if self.is_match(ops) {
                let operator = self.previous().dup();
                let right = self.operand(k)?;
                expr = if k >= 4 {
                    Expr::Logical(
                        LogicalExpr { left: Box::new(expr), operator, right: Box::new(right) },
                    )
                } else {
                    Expr::Binary(
                        BinaryExpr { left: Box::new(expr), operator, right: Box::new(right) },
                    )
                };
            } else {
                return Ok(expr);
            }
        }
    }

    /// The operators of binary level `k`.
    fn level_operators(k: u8) -> (r: &'static [TokenType])
        requires
            k <= 5,
        ensures
            r@ == level_ops(k as nat),
    {
        if k == 0 {
            let r: &[TokenType] = &[TokenType::SLASH, TokenType::STAR];
            assert(r@ =~= level_ops(0));
            r
        } else if k == 1 {
            let r: &[TokenType] = &[TokenType::MINUS, TokenType::PLUS];
            assert(r@ =~= level_ops(1));
            r
        } else if k == 2 {
            let r: &[TokenType] = &[
                TokenType::GREATER,
                TokenType::GREATER_EQUAL,
                TokenType::LESS,
                TokenType::LESS_EQUAL,
            ];
            assert(r@ =~= level_ops(2));
            r
        } else if k == 3 {
            let r: &[TokenType] = &[TokenType::BANG_EQUAL, TokenType::EQUAL_EQUAL];
            assert(r@ =~= level_ops(3));
            r
        } else if k == 4 {
            let r: &[TokenType] = &[TokenType::AND];
            assert(r@ =~= level_ops(4));
            r
        } else {
            let r: &[TokenType] = &[TokenType::OR];
            assert(r@ =~= level_ops(5));
            r
        }
    }

    fn unary(&mut self) -> (r: Result<Expr, LoxResult>)
        requires
            old(self).inv(),
        ensures
            final(self).inv(),
            final(self).tokens == old(self).tokens,
            final(self).reached(p_unary(old(self).toks(), old(self).state()), eres(r)),
            old(self).current <= final(self).current,
            r is Ok ==> old(self).current < final(self).current,
        decreases old(self).tokens@.len() - old(self).current, 4nat,
    {
        if (self.match_type(TokenType::BANG) || self.match_type(TokenType::MINUS)) {
            let operator = self.previous().dup();
            let right = self.unary()?;
            return Ok(Expr::Unary(UnaryExpr { operator, right: Box::new(right) }));
        }
        self.call()
    }

    fn call(&mut self) -> (r: Result<Expr, LoxResult>)
        requires
            old(self).inv(),
        ensures
            final(self).inv(),
            final(self).tokens == old(self).tokens,
            final(self).reached(p_call(old(self).toks(), old(self).state()), eres(r)),
            old(self).current <= final(self).current,
            r is Ok ==> old(self).current < final(self).current,
        decreases old(self).tokens@.len() - old(self).current, 3nat,
    {
        let ghost t = self.toks();
        let ghost st0 = self.state();
        let mut expr = self.primary()?;
        loop
            invariant
                self.inv(),
                self.tokens == old(self).tokens,
                self.toks() == t,
                t == old(self).toks(),
                st0 == old(self).state(),
                old(self).current < self.current,
                p_call(t, st0) == p_call_loop(t, self.state(), expr@),
            decreases self.tokens@.len() - self.current,
        {
            if self.match_type(TokenType::LEFT_PAREN) {
                expr = self.finish_call(expr)?;
            } else if self.match_type(TokenType::DOT) {
                let name = self.consume(TokenType::IDENTIFIER, "Expect property name after  '.' .")?;
                expr = Expr::Get(GetExpr { literalvalue: Box::new(expr), name });
            } else {
                return Ok(expr);
            }
        }
    }

    #[verifier::rlimit(60)]
    fn finish_call(&mut self, callee: Expr) -> (r: Result<Expr, LoxResult>)
        requires
            old(self).inv(),
        ensures
            final(self).inv(),
            final(self).tokens == old(self).tokens,
            final(self).reached(
                p_finish_call(old(self).toks(), old(self).state(), callee@),
                eres(r),
            ),
            old(self).current <= final(self).current,
            r is Ok ==> old(self).current < final(self).current,
        decreases old(self).tokens@.len() - old(self).current, 25nat,
    {
        let ghost t = self.toks();
        let ghost st0 = self.state();
        let arguments = if !self.check(TokenType::RIGHT_PAREN) {
            let first = self.expression()?;
            let mut arguments: Vec<Expr> = Vec::new();
            proof {
                lemma_exprs_view_push(arguments@, first);
                assert(exprs_view(arguments@) =~= Seq::<ExprV>::empty());
                assert(exprs_view(arguments@).push(first@) =~= seq![first@]);
            }
            arguments.push(first);
            self.arguments_rest(arguments)?
        } else {
            let arguments: Vec<Expr> = Vec::new();
            assert(exprs_view(arguments@) =~= Seq::<ExprV>::empty());
            arguments
        };
        let paren = self.consume(TokenType::RIGHT_PAREN, "Expect ')' after arguments.")?;
        Ok(Expr::Call(CallExpr { callee: Box::new(callee), paren, arguments }))
    }

    /// The arguments of a call after the first, each after a comma; past
    /// 255 arguments an error is reported (once) and the rest are skipped.
    fn arguments_rest(&mut self, arguments: Vec<Expr>) -> (r: Result<Vec<Expr>, LoxResult>)
        requires
            old(self).inv(),
        ensures
            final(self).inv(),
            final(self).tokens == old(self).tokens,
            final(self).reached(
                p_args_loop(old(self).toks(), old(self).state(), exprs_view(arguments@)),
                match r {
                    Ok(v) => Ok(exprs_view(v@)),
                    Err(e) => Err(e@),
                },
            ),
            old(self).current <= final(self).current,
        decreases old(self).tokens@.len() - old(self).current, 0nat,
    {
        let mut arguments = arguments;
        proof {
            lemma_exprs_view_len(arguments@);
        }
        if self.match_type(TokenType::COMMA) {
            if arguments.len() >= 255 {
                if !self.had_error {
                    let peek = self.peek().dup();
                    return Err(self.error(&peek, "Can't have more than 255 arguments."));
                }
                self.arguments_rest(arguments)
            } else {
                let a = self.expression()?;
                proof {
                    lemma_exprs_view_push(arguments@, a);
                }
                arguments.push(a);
                self.arguments_rest(arguments)
            }
        } else {
            Ok(arguments)
        }
    }

    #[verifier::rlimit(60)]
    fn primary(&mut self) -> (r: Result<Expr, LoxResult>)
        requires
            old(self).inv(),
        ensures
            final(self).inv(),
            final(self).tokens == old(self).tokens,
            final(self).reached(p_primary(old(self).toks(), old(self).state()), eres(r)),
            old(self).current <= final(self).current,
            r is Ok ==> old(self).current < final(self).current,
        decreases old(self).tokens@.len() - old(self).current, 1nat,
    {
        if self.match_type(TokenType::FALSE) {
            return Ok(Expr::Literal(LiteralExpr { value: Some(LiteralValue::Bool(false)) }));
        }
        if self.match_type(TokenType::TRUE) {
            return Ok(Expr::Literal(LiteralExpr { value: Some(LiteralValue::Bool(true)) }));
        }
        if self.match_type(TokenType::NIL) {
            return Ok(Expr::Literal(LiteralExpr { value: Some(LiteralValue::Nil) }));
        }
        if (self.match_type(TokenType::NUMBER) || self.match_type(TokenType::STRING)) {
            return Ok(Expr::Literal(LiteralExpr { value: dup_literal(&self.previous().literal) }));
        }
        if self.match_type(TokenType::SUPER) {
            let keyword = self.previous().dup();
            self.consume(TokenType::DOT, "Expect '.' after 'super'.")?;
            let method = self.consume(TokenType::IDENTIFIER, "Expect superclass method name")?;
            return Ok(Expr::Super(SuperExpr { keyword, method }));
        }
        if self.match_type(TokenType::THIS) {
            return Ok(Expr::This(ThisExpr { keyword: self.previous().dup() }));
        }
        if self.match_type(TokenType::IDENTIFIER) {
            return Ok(Expr::Variable(VariableExpr { name: self.previous().dup() }));
        }
        if self.match_type(TokenType::LEFT_PAREN) {
            let expr = self.expression()?;
            self.consume(TokenType::RIGHT_PAREN, "Expect ')' after expression")?;
            return Ok(Expr::Grouping(GroupingExpr { expression: Box::new(expr) }));
        }
        let peek = self.peek().dup();
        Err(self.error(&peek, "Expect expression."))
    }

    /// Expects a token of type `ttype` and takes it; otherwise reports
    /// `message` at the current token.
    fn consume(&mut self, ttype: TokenType, message: &str) -> (r: Result<Token, LoxResult>)
        requires
            old(self).inv(),
        ensures
            final(self).inv(),
            final(self).tokens == old(self).tokens,
            final(self).reached(
                p_consume(old(self).toks(), old(self).state(), ttype, message@),
                tres(r),
            ),
            old(self).current <= final(self).current,
            r is Ok ==> final(self).current == old(self).current + 1,
            r is Err ==> final(self).current == old(self).current,
    {
        if self.check(ttype) {
            self.advance();
            Ok(self.previous().dup())
        } else {
            let peek = self.peek().dup();
            Err(self.error(&peek, message))
        }
    }

    /// Reports a parse error at a token.
    fn error(&mut self, token: &Token, message: &str) -> (r: LoxResult)
        requires
            old(self).inv(),
        ensures
            final(self).inv(),
            final(self).tokens == old(self).tokens,
            final(self).current == old(self).current,
            final(self).state() == report(old(self).state(), token@, message@),
            r@ == perr(token@, message@),
    {
        self.had_error = true;
        let e = LoxResult::parse_error(token, message);
        let ghost before = results_view(self.reports@);
        self.reports.push(e.dup());
        assert(results_view(self.reports@) =~= before.push(e@));
        e
    }

    /// Error recovery: skips to the next statement boundary.
    fn synchronize(&mut self)
        requires
            old(self).inv(),
        ensures
            final(self).inv(),
            final(self).tokens == old(self).tokens,
            final(self).state() == synchronized(old(self).toks(), old(self).state()),
            old(self).current <= final(self).current,
            !at_end(old(self).toks(), old(self).state()) ==> old(self).current < final(self).current,
    {
        let ghost t = self.toks();
        self.advance();
        let ghost s1 = self.state();
        while !self.is_at_end()
            invariant
                self.inv(),
                self.tokens == old(self).tokens,
                self.toks() == t,
                t == old(self).toks(),
                synchronized(t, old(self).state()) == sync_loop(t, self.state()),
                s1 == adv(t, old(self).state()),
                s1.pos <= self.current,
                !at_end(t, old(self).state()) ==> old(self).current < s1.pos,
                old(self).current <= s1.pos,
                !at_end(t, self.state()) ==> self.current >= 1,
            decreases self.tokens@.len() - self.current,
        {
            if self.previous().is(TokenType::SEMICOLON) {
                return;
            }
            let tt = self.peek().token_type();
            if tt == TokenType::CLASS || tt == TokenType::FUN || tt == TokenType::VAR || tt
                == TokenType::FOR || tt == TokenType::IF || tt == TokenType::WHILE || tt
                == TokenType::PRINT || tt == TokenType::RETURN {
                assert(sync_types().contains(tt)) by {
                    assert(sync_types()[0] == TokenType::CLASS);
                    assert(sync_types()[1] == TokenType::FUN);
                    assert(sync_types()[2] == TokenType::VAR);
                    assert(sync_types()[3] == TokenType::FOR);
                    assert(sync_types()[4] == TokenType::IF);
                    assert(sync_types()[5] == TokenType::WHILE);
                    assert(sync_types()[6] == TokenType::PRINT);
                    assert(sync_types()[7] == TokenType::RETURN);
                }
                return;
            }
            assert(!sync_types().contains(tt));
            self.advance();
        }
    }

    /// Takes the current token where its type is `ttype`.
    fn match_type(&mut self, ttype: TokenType) -> (r: bool)
        requires
            old(self).inv(),
        ensures
            final(self).inv(),
            final(self).tokens == old(self).tokens,
            r == check(old(self).toks(), old(self).state(), ttype),
            final(self).state() == if r {
                adv(old(self).toks(), old(self).state())
            } else {
                old(self).state()
            },
            r ==> final(self).current == old(self).current + 1,
            !r ==> final(self).current == old(self).current,
    {
        if self.check(ttype) {
            self.advance();
            true
        } else {
            false
        }
    }

    /// Takes the current token where its type is among `types`.
    fn is_match(&mut self, types: &[TokenType]) -> (r: bool)
        requires
            old(self).inv(),
        ensures
            final(self).inv(),
            final(self).tokens == old(self).tokens,
            r == matches_any(old(self).toks(), old(self).state(), types@),
            final(self).state() == if r {
                adv(old(self).toks(), old(self).state())
            } else {
                old(self).state()
            },
            r ==> final(self).current == old(self).current + 1,
            !r ==> final(self).current == old(self).current,
    {
        let mut i: usize = 0;
        while i < types.len()
            invariant
                self == old(self),
                self.inv(),
                i <= types@.len(),
                forall|j: int| 0 <= j < i ==> !check(self.toks(), self.state(), #[trigger] types@[j]),
            decreases types@.len() - i,
        {
            if self.check(types[i]) {
                self.advance();
                return true;
            }
            i = i + 1;
        }
        proof {
            if matches_any(old(self).toks(), old(self).state(), types@) {
                let tt = old(self).toks()[old(self).current as int].token_type;
                let j = choose|j: int| 0 <= j < types@.len() && types@[j] == tt;
                assert(check(self.toks(), self.state(), types@[j]));
            }
        }
        false
    }

    fn check(&self, ttype: TokenType) -> (r: bool)
        requires
            self.inv(),
        ensures
            r == check(self.toks(), self.state(), ttype),
    {
        if self.is_at_end() {
            false
        } else {
            self.peek().is(ttype)
        }
    }

    fn advance(&mut self)
        requires
            old(self).inv(),
        ensures
            final(self).inv(),
            final(self).tokens == old(self).tokens,
            final(self).state() == adv(old(self).toks(), old(self).state()),
            final(self).current == if at_end(old(self).toks(), old(self).state()) {
                old(self).current as int
            } else {
                old(self).current + 1
            },
    {
        assert(self.toks().len() == self.tokens@.len());
        if !self.is_at_end() {
            let n = self.tokens.len();
            assert(self.current + 1 < n);
            self.current = self.current + 1;
        }
    }

    fn is_at_end(&self) -> (r: bool)
        requires
            self.inv(),
        ensures
            r == at_end(self.toks(), self.state()),
    {
        self.peek().is(TokenType::EOF)
    }

    fn peek(&self) -> (r: &'a Token)
        requires
            self.inv(),
        ensures
            r@ == self.toks()[self.current as int],
    {
        &self.tokens[self.current]
    }

    fn previous(&self) -> (r: &'a Token)
        requires
            self.inv(),
            self.current >= 1,
        ensures
            r@ == self.toks()[self.current - 1],
    {
        &self.tokens[self.current - 1]
    }
}

} // verus!
