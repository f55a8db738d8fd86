use std::rc::Rc;

use vstd::prelude::*;

use crate::ast::{stmts_view, FunctionStmt, Stmt, StmtV};
use crate::entities::{copy_tokens, tokens_view, LiteralValue, LiteralView, Token, TokenView};
use crate::environment::{bind, Bindings, Environment, EnvironmentView, Environments};
use crate::errors::{LoxResult, LoxResultView};

verus! {

/// A function value: its declaration, the scope it closes over (by
/// handle), and whether it is a class initializer.
#[derive(Debug)]
pub struct LoxFunction {
    name: Token,
    params: Vec<Token>,
    body: Rc<Vec<Stmt>>,
    closure: usize,
    is_initializer: bool,
}

/// The model of a [`LoxFunction`].
pub struct LoxFunctionView {
    pub name: TokenView,
    pub params: Seq<TokenView>,
    pub body: Seq<StmtV>,
    pub closure: usize,
    pub is_initializer: bool,
}

impl View for LoxFunction {
    type V = LoxFunctionView;

    closed spec fn view(&self) -> LoxFunctionView {
        LoxFunctionView {
            name: self.name@,
            params: tokens_view(self.params@),
            body: stmts_view(self.body@),
            closure: self.closure,
            is_initializer: self.is_initializer,
        }
    }
}

/// The bindings of the first `n` parameters to the first `n` arguments.
pub open spec fn bind_params(params: Seq<TokenView>, args: Seq<LiteralView>, n: nat) -> Bindings
    decreases n,
{
    if n == 0 {
        Seq::empty()
    } else {
        bind(
            bind_params(params, args, (n - 1) as nat),
            params[n - 1].lexeme,
            args[n - 1],
        )
    }
}

/// The models of a sequence of values.
pub open spec fn values_view(s: Seq<LiteralValue>) -> Seq<LiteralView> {
    s.map_values(|v: LiteralValue| v@)
}

/// The scope a call of `f` with arguments `args` runs in: each parameter
/// bound to its argument (as many as there are of both), enclosed by the
/// function's closure.
pub open spec fn call_scope_of(f: LoxFunctionView, args: Seq<LiteralView>) -> EnvironmentView {
    EnvironmentView {
        values: bind_params(
            f.params,
            args,
            if f.params.len() <= args.len() {
                f.params.len()
            } else {
                args.len()
            },
        ),
        enclosing: Some(f.closure),
    }
}

/// What a call of a function comes to, from how its body ran: the value a
/// `return` carried, `nil` where the body ran to its end, or the error.
pub open spec fn call_outcome(run: Result<(), LoxResultView>) -> Result<LiteralView, LoxResultView> {
    match run {
        Ok(_) => Ok(LiteralView::Nil),
        Err(LoxResultView::ReturnValue { value }) => Ok(value),
        Err(e) => Err(e),
    }
}

/// The scope a method bound to `this` runs in: it binds `this` alone and
/// is enclosed by the method's closure.
pub open spec fn this_scope(this: LiteralView, closure: usize) -> EnvironmentView {
    EnvironmentView { values: bind(Seq::empty(), "this"@, this), enclosing: Some(closure) }
}

/// Every function closes over an existing scope.
pub open spec fn wf_closures(functions: Seq<LoxFunctionView>, n_scopes: nat) -> bool {
    forall|i: int| 0 <= i < functions.len() ==> #[trigger] functions[i].closure < n_scopes
}

impl LoxFunction {
    /// The function a declaration makes, closing over the scope `closure`.
    pub fn new(declaration: FunctionStmt, closure: usize, is_initializer: bool) -> (r: LoxFunction)
        ensures
            r@ == (LoxFunctionView {
                name: declaration.name@,
                params: tokens_view(declaration.params@),
                body: stmts_view(declaration.body@),
                closure,
                is_initializer,
            }),
    {
        LoxFunction {
            name: declaration.name,
            params: declaration.params,
            body: Rc::new(declaration.body),
            closure,
            is_initializer,
        }
    }

    /// The number of parameters.
    pub fn arity(&self) -> (r: usize)
        ensures
            r == self@.params.len(),
    {
        let r = self.params.len();
        assert(tokens_view(self.params@).len() == self.params@.len());
        r
    }

    /// The statements of the body.
    pub fn body(&self) -> (r: &Vec<Stmt>)
        ensures
            stmts_view(r@) == self@.body,
    {
        &*self.body
    }

    /// The name's token.
    pub fn name(&self) -> (r: &Token)
        ensures
            r@ == self@.name,
    {
        &self.name
    }

    /// The scope the function closes over.
    pub fn closure(&self) -> (r: usize)
        ensures
            r == self@.closure,
    {
        self.closure
    }

    /// Whether this is a class initializer.
    pub fn is_initializer(&self) -> (r: bool)
        ensures
            r == self@.is_initializer,
    {
        self.is_initializer
    }

    /// Makes the scope a call runs in: a new scope, enclosed by the closure,
    /// in which each parameter is bound to its argument (as many as there
    /// are of both). Its handle is returned.
    pub fn call_scope(&self, envs: &mut Environments, arguments: &Vec<LiteralValue>) -> (r: usize)
        requires
            old(envs).wf(),
            self@.closure < old(envs)@.len(),
        ensures
            final(envs).wf(),
            r == old(envs)@.len(),
            final(envs)@ == old(envs)@.push(call_scope_of(self@, values_view(arguments@))),
    {
        let mut e = Environment::new_with_enclosing(self.closure);
        let n = if self.params.len() <= arguments.len() {
            self.params.len()
        } else {
            arguments.len()
        };
        let ghost ps = tokens_view(self.params@);
        let ghost vs = values_view(arguments@);
        let mut i: usize = 0;
        while i < n
            invariant
                i <= n,
                n <= self.params@.len(),
                n <= arguments@.len(),
                ps == tokens_view(self.params@),
                vs == values_view(arguments@),
                e@.values == bind_params(ps, vs, i as nat),
                e@.enclosing == Some(self.closure),
            decreases n - i,
        {
            e.define(self.params[i].lexeme.as_str(), arguments[i].dup());
            i = i + 1;
        }
        envs.push(e)
    }

    /// What a call comes to, from how its body ran.
    pub fn call_result(run: Result<(), LoxResult>) -> (r: Result<LiteralValue, LoxResult>)
        ensures
            call_outcome(
                match run {
                    Ok(_) => Ok(()),
                    Err(e) => Err(e@),
                },
            ) == match r {
                Ok(v) => Ok::<LiteralView, LoxResultView>(v@),
                Err(e) => Err(e@),
            },
    {
        match run {
            Err(LoxResult::ReturnValue { value }) => Ok(value),
            Err(e) => Err(e),
            Ok(_) => Ok(LiteralValue::Nil),
        }
    }
}

impl LoxFunction {
    /// The same function, closing over the scope `closure` instead.
    fn with_closure(&self, closure: usize) -> (r: LoxFunction)
        ensures
            r@ == (LoxFunctionView { closure, ..self@ }),
    {
        let params = copy_tokens(&self.params);
        LoxFunction {
            name: self.name.dup(),
            params,
            body: Rc::clone(&self.body),
            closure,
            is_initializer: self.is_initializer,
        }
    }
}

/// The functions of a run, each known by its handle (its index).
#[derive(Debug)]
pub struct Functions {
    functions: Vec<LoxFunction>,
}

impl View for Functions {
    type V = Seq<LoxFunctionView>;

    closed spec fn view(&self) -> Seq<LoxFunctionView> {
        self.functions@.map_values(|f: LoxFunction| f@)
    }
}

impl Functions {
    /// No functions.
    pub fn new() -> (r: Functions)
        ensures
            r@ == Seq::<LoxFunctionView>::empty(),
    {
        let r = Functions { functions: Vec::new() };
        assert(r@ =~= Seq::<LoxFunctionView>::empty());
        r
    }

    /// Adds a function; its handle is returned.
    pub fn push(&mut self, f: LoxFunction) -> (r: usize)
        ensures
            final(self)@ == old(self)@.push(f@),
            r == old(self)@.len(),
    {
        let r = self.functions.len();
        let ghost fv = f@;
        self.functions.push(f);
        assert(self@ =~= old(self)@.push(fv));
        r
    }

    /// The number of functions.
    pub fn len(&self) -> (r: usize)
        ensures
            r == self@.len(),
    {
        self.functions.len()
    }

    /// The function with handle `h`.
    pub fn get(&self, h: usize) -> (r: &LoxFunction)
        requires
            h < self@.len(),
        ensures
            r@ == self@[h as int],
    {
        &self.functions[h]
    }

    /// Binds method `f` to the instance `this`: a new scope, enclosed by the
    /// method's closure, binds `this`, and a new function like `f` closes
    /// over it. The new function is returned.
    pub fn bind(&mut self, f: usize, this: LiteralValue, envs: &mut Environments) -> (r:
        LiteralValue)
        requires
            f < old(self)@.len(),
            old(self)@[f as int].closure < old(envs)@.len(),
            old(envs).wf(),
        ensures
            final(envs).wf(),
            final(envs)@ == old(envs)@.push(this_scope(this@, old(self)@[f as int].closure)),
            final(self)@ == old(self)@.push(
                LoxFunctionView { closure: old(envs)@.len() as usize, ..old(self)@[f as int] },
            ),
            r@ == LiteralView::Func(old(self)@.len() as usize),
    {
        let closure = self.functions[f].closure;
        let mut e = Environment::new_with_enclosing(closure);
        e.define("this", this);
        let scope = envs.push(e);
        let bound = self.functions[f].with_closure(scope);
        let h = self.push(bound);
        LiteralValue::Func(h)
    }
}

} // verus!
