use vstd::prelude::*;

use crate::entities::{copy_tokens, dup_literal, opt_literal_view, LiteralValue, LiteralView, Token, TokenView};

verus! {

/// An expression of Lox.
#[derive(Debug)]
pub enum Expr {
    Assign(AssignExpr),
    Binary(BinaryExpr),
    Call(CallExpr),
    Get(GetExpr),
    Grouping(GroupingExpr),
    Literal(LiteralExpr),
    Logical(LogicalExpr),
    SetField(SetExpr),
    Super(SuperExpr),
    This(ThisExpr),
    Unary(UnaryExpr),
    Variable(VariableExpr),
}

#[derive(Debug)]
pub struct AssignExpr {
    pub name: Token,
    pub value: Box<Expr>,
}

#[derive(Debug)]
pub struct BinaryExpr {
    pub left: Box<Expr>,
    pub operator: Token,
    pub right: Box<Expr>,
}

#[derive(Debug)]
pub struct CallExpr {
    pub callee: Box<Expr>,
    pub paren: Token,
    pub arguments: Vec<Expr>,
}

#[derive(Debug)]
pub struct GetExpr {
    pub literalvalue: Box<Expr>,
    pub name: Token,
}

#[derive(Debug)]
pub struct GroupingExpr {
    pub expression: Box<Expr>,
}

#[derive(Debug)]
pub struct LiteralExpr {
    pub value: Option<LiteralValue>,
}

#[derive(Debug)]
pub struct LogicalExpr {
    pub left: Box<Expr>,
    pub operator: Token,
    pub right: Box<Expr>,
}

#[derive(Debug)]
pub struct SetExpr {
    pub literalvalue: Box<Expr>,
    pub name: Token,
    pub value: Box<Expr>,
}

#[derive(Debug)]
pub struct SuperExpr {
    pub keyword: Token,
    pub method: Token,
}

#[derive(Debug)]
pub struct ThisExpr {
    pub keyword: Token,
}

#[derive(Debug)]
pub struct UnaryExpr {
    pub operator: Token,
    pub right: Box<Expr>,
}

#[derive(Debug)]
pub struct VariableExpr {
    pub name: Token,
}

/// A statement of Lox.
#[derive(Debug)]
pub enum Stmt {
    Block(BlockStmt),
    Class(ClassStmt),
    Break(BreakStmt),
    Expression(ExpressionStmt),
    Function(FunctionStmt),
    If(IfStmt),
    Print(PrintStmt),
    Return(ReturnStmt),
    Var(VarStmt),
    While(WhileStmt),
}

#[derive(Debug)]
pub struct BlockStmt {
    pub statements: Vec<Stmt>,
}

#[derive(Debug)]
pub struct ClassStmt {
    pub name: Token,
    pub superclass: Option<Expr>,
    pub methods: Vec<Stmt>,
}

#[derive(Debug)]
pub struct BreakStmt {
    pub token: Token,
}

#[derive(Debug)]
pub struct ExpressionStmt {
    pub expression: Expr,
}

#[derive(Debug)]
pub struct FunctionStmt {
    pub name: Token,
    pub params: Vec<Token>,
    pub body: Vec<Stmt>,
}

#[derive(Debug)]
pub struct IfStmt {
    pub condition: Expr,
    pub then_branch: Box<Stmt>,
    pub else_branch: Option<Box<Stmt>>,
}

#[derive(Debug)]
pub struct PrintStmt {
    pub expression: Expr,
}

#[derive(Debug)]
pub struct ReturnStmt {
    pub keyword: Token,
    pub value: Option<Expr>,
}

#[derive(Debug)]
pub struct VarStmt {
    pub name: Token,
    pub initializer: Option<Expr>,
}

#[derive(Debug)]
pub struct WhileStmt {
    pub condition: Expr,
    pub body: Box<Stmt>,
}

/// The mathematical model of an [`Expr`].
pub enum ExprV {
    Assign { name: TokenView, value: Box<ExprV> },
    Binary { left: Box<ExprV>, operator: TokenView, right: Box<ExprV> },
    Call { callee: Box<ExprV>, paren: TokenView, arguments: Seq<ExprV> },
    Get { object: Box<ExprV>, name: TokenView },
    Grouping { expression: Box<ExprV> },
    Literal { value: Option<LiteralView> },
    Logical { left: Box<ExprV>, operator: TokenView, right: Box<ExprV> },
    SetField { object: Box<ExprV>, name: TokenView, value: Box<ExprV> },
    Super { keyword: TokenView, method: TokenView },
    This { keyword: TokenView },
    Unary { operator: TokenView, right: Box<ExprV> },
    Variable { name: TokenView },
}

/// The mathematical model of a [`Stmt`].
pub enum StmtV {
    Block { statements: Seq<StmtV> },
    Class { name: TokenView, superclass: Option<ExprV>, methods: Seq<StmtV> },
    Break { token: TokenView },
    Expression { expression: ExprV },
    Function { name: TokenView, params: Seq<TokenView>, body: Seq<StmtV> },
    If { condition: ExprV, then_branch: Box<StmtV>, else_branch: Option<Box<StmtV>> },
    Print { expression: ExprV },
    Return { keyword: TokenView, value: Option<ExprV> },
    Var { name: TokenView, initializer: Option<ExprV> },
    While { condition: ExprV, body: Box<StmtV> },
}

/// The model of an expression.
pub open spec fn expr_view(e: Expr) -> ExprV
    decreases e,
{
    match e {
        Expr::Assign(a) => ExprV::Assign { name: a.name@, value: Box::new(expr_view(*a.value)) },
        Expr::Binary(b) => ExprV::Binary {
            left: Box::new(expr_view(*b.left)),
            operator: b.operator@,
            right: Box::new(expr_view(*b.right)),
        },
        Expr::Call(c) => ExprV::Call {
            callee: Box::new(expr_view(*c.callee)),
            paren: c.paren@,
            arguments: exprs_view(c.arguments@),
        },
        Expr::Get(g) => ExprV::Get { object: Box::new(expr_view(*g.literalvalue)), name: g.name@ },
        Expr::Grouping(g) => ExprV::Grouping { expression: Box::new(expr_view(*g.expression)) },
        Expr::Literal(l) => ExprV::Literal { value: opt_literal_view(l.value) },
        Expr::Logical(b) => ExprV::Logical {
            left: Box::new(expr_view(*b.left)),
            operator: b.operator@,
            right: Box::new(expr_view(*b.right)),
        },
        Expr::SetField(s) => ExprV::SetField {
            object: Box::new(expr_view(*s.literalvalue)),
            name: s.name@,
            value: Box::new(expr_view(*s.value)),
        },
        Expr::Super(s) => ExprV::Super { keyword: s.keyword@, method: s.method@ },
        Expr::This(t) => ExprV::This { keyword: t.keyword@ },
        Expr::Unary(u) => ExprV::Unary { operator: u.operator@, right: Box::new(expr_view(*u.right)) },
        Expr::Variable(v) => ExprV::Variable { name: v.name@ },
    }
}

/// The models of a sequence of expressions.
pub open spec fn exprs_view(s: Seq<Expr>) -> Seq<ExprV>
    decreases s,
{
    if s.len() == 0 {
        Seq::empty()
    } else {
        exprs_view(s.drop_last()).push(expr_view(s.last()))
    }
}

impl View for Expr {
    type V = ExprV;

    open spec fn view(&self) -> ExprV {
        expr_view(*self)
    }
}

/// The model of an optional expression.
pub open spec fn opt_expr_view(o: Option<Expr>) -> Option<ExprV> {
    match o {
        Some(e) => Some(expr_view(e)),
        None => None,
    }
}

/// The model of a statement.
pub open spec fn stmt_view(s: Stmt) -> StmtV
    decreases s,
{
    match s {
        Stmt::Block(b) => StmtV::Block { statements: stmts_view(b.statements@) },
        Stmt::Class(c) => StmtV::Class {
            name: c.name@,
            superclass: opt_expr_view(c.superclass),
            methods: stmts_view(c.methods@),
        },
        Stmt::Break(b) => StmtV::Break { token: b.token@ },
        Stmt::Expression(e) => StmtV::Expression { expression: expr_view(e.expression) },
        Stmt::Function(f) => StmtV::Function {
            name: f.name@,
            params: crate::entities::tokens_view(f.params@),
            body: stmts_view(f.body@),
        },
        Stmt::If(i) => StmtV::If {
            condition: expr_view(i.condition),
            then_branch: Box::new(stmt_view(*i.then_branch)),
            else_branch: match i.else_branch {
                Some(e) => Some(Box::new(stmt_view(*e))),
                None => None,
            },
        },
        Stmt::Print(p) => StmtV::Print { expression: expr_view(p.expression) },
        Stmt::Return(r) => StmtV::Return { keyword: r.keyword@, value: opt_expr_view(r.value) },
        Stmt::Var(v) => StmtV::Var { name: v.name@, initializer: opt_expr_view(v.initializer) },
        Stmt::While(w) => StmtV::While {
            condition: expr_view(w.condition),
            body: Box::new(stmt_view(*w.body)),
        },
    }
}

/// The models of a sequence of statements.
pub open spec fn stmts_view(s: Seq<Stmt>) -> Seq<StmtV>
    decreases s,
{
    if s.len() == 0 {
        Seq::empty()
    } else {
        stmts_view(s.drop_last()).push(stmt_view(s.last()))
    }
}

/// The models of a sequence of expressions are as many as the expressions.
pub proof fn lemma_exprs_view_len(s: Seq<Expr>)
    ensures
        exprs_view(s).len() == s.len(),
    decreases s.len(),
{
    if s.len() > 0 {
        lemma_exprs_view_len(s.drop_last());
    }
}

/// Appending an expression appends its model.
pub proof fn lemma_exprs_view_push(s: Seq<Expr>, e: Expr)
    ensures
        exprs_view(s.push(e)) == exprs_view(s).push(expr_view(e)),
{
    assert(s.push(e).drop_last() =~= s);
}

/// Appending a statement appends its model.
pub proof fn lemma_stmts_view_push(s: Seq<Stmt>, e: Stmt)
    ensures
        stmts_view(s.push(e)) == stmts_view(s).push(stmt_view(e)),
{
    assert(s.push(e).drop_last() =~= s);
}

/// The models of no statements.
pub proof fn lemma_stmts_view_empty(s: Seq<Stmt>)
    requires
        s.len() == 0,
    ensures
        stmts_view(s) == Seq::<StmtV>::empty(),
{
}

impl View for Stmt {
    type V = StmtV;

    open spec fn view(&self) -> StmtV {
        stmt_view(*self)
    }
}


impl Expr {
    /// A copy of the expression.
    pub fn dup(&self) -> (r: Expr)
        ensures
            r@ == self@,
        decreases self,
    {
        match self {
            Expr::Assign(a) => Expr::Assign(
                AssignExpr { name: a.name.dup(), value: Box::new(a.value.dup()) },
            ),
            Expr::Binary(b) => Expr::Binary(
                BinaryExpr {
                    left: Box::new(b.left.dup()),
                    operator: b.operator.dup(),
                    right: Box::new(b.right.dup()),
                },
            ),
            Expr::Call(c) => Expr::Call(
                CallExpr {
                    callee: Box::new(c.callee.dup()),
                    paren: c.paren.dup(),
                    arguments: dup_exprs(&c.arguments),
                },
            ),
            Expr::Get(g) => Expr::Get(
                GetExpr { literalvalue: Box::new(g.literalvalue.dup()), name: g.name.dup() },
            ),
            Expr::Grouping(g) => Expr::Grouping(
                GroupingExpr { expression: Box::new(g.expression.dup()) },
            ),
            Expr::Literal(l) => Expr::Literal(LiteralExpr { value: dup_literal(&l.value) }),
            Expr::Logical(b) => Expr::Logical(
                LogicalExpr {
                    left: Box::new(b.left.dup()),
                    operator: b.operator.dup(),
                    right: Box::new(b.right.dup()),
                },
            ),
            Expr::SetField(f) => Expr::SetField(
                SetExpr {
                    literalvalue: Box::new(f.literalvalue.dup()),
                    name: f.name.dup(),
                    value: Box::new(f.value.dup()),
                },
            ),
            Expr::Super(x) => Expr::Super(
                SuperExpr { keyword: x.keyword.dup(), method: x.method.dup() },
            ),
            Expr::This(t) => Expr::This(ThisExpr { keyword: t.keyword.dup() }),
            Expr::Unary(u) => Expr::Unary(
                UnaryExpr { operator: u.operator.dup(), right: Box::new(u.right.dup()) },
            ),
            Expr::Variable(v) => Expr::Variable(VariableExpr { name: v.name.dup() }),
        }
    }
}

/// A copy of a sequence of expressions.
pub fn dup_exprs(v: &Vec<Expr>) -> (r: Vec<Expr>)
    ensures
        exprs_view(r@) == exprs_view(v@),
    decreases v,
{
    let mut r: Vec<Expr> = Vec::new();
    let mut i: usize = 0;
    while i < v.len()
        invariant
            i <= v@.len(),
            exprs_view(r@) == exprs_view(v@.take(i as int)),
        decreases v@.len() - i,
    {
        assert(decreases_to!(v => v@[i as int]));
        let e = v[i].dup();
        proof {
            lemma_exprs_view_push(r@, e);
            lemma_exprs_view_push(v@.take(i as int), v@[i as int]);
            assert(v@.take(i + 1) =~= v@.take(i as int).push(v@[i as int]));
        }
        r.push(e);
        i = i + 1;
    }
    assert(v@.take(v@.len() as int) =~= v@);
    r
}

/// A copy of an optional expression.
fn dup_opt_expr(o: &Option<Expr>) -> (r: Option<Expr>)
    ensures
        opt_expr_view(r) == opt_expr_view(*o),
    decreases o,
{
    match o {
        Some(e) => Some(e.dup()),
        None => None,
    }
}

impl Stmt {
    /// A copy of the statement.
    pub fn dup(&self) -> (r: Stmt)
        ensures
            r@ == self@,
        decreases self,
    {
        match self {
            Stmt::Block(b) => Stmt::Block(BlockStmt { statements: dup_stmts(&b.statements) }),
            Stmt::Class(c) => Stmt::Class(
                ClassStmt {
                    name: c.name.dup(),
                    superclass: dup_opt_expr(&c.superclass),
                    methods: dup_stmts(&c.methods),
                },
            ),
            Stmt::Break(b) => Stmt::Break(BreakStmt { token: b.token.dup() }),
            Stmt::Expression(e) => Stmt::Expression(ExpressionStmt { expression: e.expression.dup() }),
            Stmt::Function(f) => Stmt::Function(f.dup()),
            Stmt::If(i) => Stmt::If(
                IfStmt {
                    condition: i.condition.dup(),
                    then_branch: Box::new(i.then_branch.dup()),
                    else_branch: match &i.else_branch {
                        Some(e) => Some(Box::new(e.dup())),
                        None => None,
                    },
                },
            ),
            Stmt::Print(p) => Stmt::Print(PrintStmt { expression: p.expression.dup() }),
            Stmt::Return(r) => Stmt::Return(
                ReturnStmt { keyword: r.keyword.dup(), value: dup_opt_expr(&r.value) },
            ),
            Stmt::Var(v) => Stmt::Var(
                VarStmt { name: v.name.dup(), initializer: dup_opt_expr(&v.initializer) },
            ),
            Stmt::While(w) => Stmt::While(
                WhileStmt { condition: w.condition.dup(), body: Box::new(w.body.dup()) },
            ),
        }
    }
}

impl FunctionStmt {
    /// A copy of the declaration.
    pub fn dup(&self) -> (r: FunctionStmt)
        ensures
            r.name@ == self.name@,
            crate::entities::tokens_view(r.params@) == crate::entities::tokens_view(self.params@),
            stmts_view(r.body@) == stmts_view(self.body@),
        decreases self,
    {
        FunctionStmt {
            name: self.name.dup(),
            params: copy_tokens(&self.params),
            body: dup_stmts(&self.body),
        }
    }
}

/// A copy of a sequence of statements.
pub fn dup_stmts(v: &Vec<Stmt>) -> (r: Vec<Stmt>)
    ensures
        stmts_view(r@) == stmts_view(v@),
    decreases v,
{
    let mut r: Vec<Stmt> = Vec::new();
    let mut i: usize = 0;
    while i < v.len()
        invariant
            i <= v@.len(),
            stmts_view(r@) == stmts_view(v@.take(i as int)),
        decreases v@.len() - i,
    {
        assert(decreases_to!(v => v@[i as int]));
        let e = v[i].dup();
        proof {
            lemma_stmts_view_push(r@, e);
            lemma_stmts_view_push(v@.take(i as int), v@[i as int]);
            assert(v@.take(i + 1) =~= v@.take(i as int).push(v@[i as int]));
        }
        r.push(e);
        i = i + 1;
    }
    assert(v@.take(v@.len() as int) =~= v@);
    r
}

} // verus!
