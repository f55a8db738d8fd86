use vstd::prelude::*;

use crate::ast::{stmts_view, ClassStmt, Expr, FunctionStmt, Stmt, StmtV};
use crate::entities::{
    clock_error, clock_value, tokens_view, LiteralValue, LiteralView, NativeClock, Token, TokenType,
};
use crate::text::{decimal, decimal_string, str_eq};
use crate::environment::{
    ancestor, bind, define_in, lookup, resolve, undefined_variable, value_of, wf_scopes, Bindings,
    Environment, EnvironmentView, Environments, Scopes,
};
use crate::errors::{LoxResult, LoxResultView};
use crate::lox_class::{bind_all, class_arity, method_of, wf_classes, Classes, LoxClass, LoxClassView};
use crate::lox_function::{
    call_scope_of, this_scope, values_view, wf_closures, Functions, LoxFunction, LoxFunctionView,
};
use crate::lox_instance::{property_of, undefined_property, Instances, LoxInstanceView, PropertyView};

verus! {

// The value rules of evaluation, and the state of a run with the steps of
// evaluation that change it. Arithmetic on numbers is floating point; where
// a rule calls for it, the outcome says which operation to carry out on the
// two numbers rather than carrying it out. Running statements (a block, a
// function's body) is the caller's: the steps here make the scopes they run
// in and say what follows.

/// Everything but `nil` and `false` counts as true.
pub open spec fn truthy(v: LiteralView) -> bool {
    !(v matches LiteralView::Nil || v matches LiteralView::Bool(false))
}

/// Whether a value counts as true: everything but `nil` and `false` does.
pub fn is_truthy(literal_value: &LiteralValue) -> (r: bool)
    ensures
        r == truthy(literal_value@),
{
    !(matches!(literal_value, LiteralValue::Nil) || matches!(literal_value, LiteralValue::Bool(false)))
}

/// The operators of binary expressions.
pub open spec fn is_binary_operator(t: TokenType) -> bool {
    ||| t == TokenType::MINUS
    ||| t == TokenType::SLASH
    ||| t == TokenType::STAR
    ||| t == TokenType::PLUS
    ||| t == TokenType::GREATER
    ||| t == TokenType::GREATER_EQUAL
    ||| t == TokenType::LESS
    ||| t == TokenType::LESS_EQUAL
    ||| t == TokenType::BANG_EQUAL
    ||| t == TokenType::EQUAL_EQUAL
}

/// What a binary expression comes to, once its operands are evaluated.
pub enum BinaryOutcome {
    /// This value.
    Value(LiteralValue),
    /// The operator applied to the two numbers.
    Arithmetic(TokenType),
    /// The text of the number and the string joined, the number first
    /// where `number_first`.
    Concat { number_first: bool },
}

/// The model of a [`BinaryOutcome`].
pub enum BinaryOutcomeView {
    Value(LiteralView),
    Arithmetic(TokenType),
    Concat { number_first: bool },
}

impl View for BinaryOutcome {
    type V = BinaryOutcomeView;

    open spec fn view(&self) -> BinaryOutcomeView {
        match self {
            BinaryOutcome::Value(v) => BinaryOutcomeView::Value(v@),
            BinaryOutcome::Arithmetic(t) => BinaryOutcomeView::Arithmetic(*t),
            BinaryOutcome::Concat { number_first } => BinaryOutcomeView::Concat {
                number_first: *number_first,
            },
        }
    }
}

/// The two kinds of operand errors.
pub enum OperandError {
    Numbers,
    NumbersOrStrings,
}

/// A boolean outcome.
pub open spec fn bool_out(b: bool) -> Result<BinaryOutcomeView, OperandError> {
    Ok(BinaryOutcomeView::Value(LiteralView::Bool(b)))
}

/// The outcome of the binary operator `op` on two values.
pub open spec fn binary_rule(op: TokenType, left: LiteralView, right: LiteralView) -> Result<
    BinaryOutcomeView,
    OperandError,
> {
    let eq = op == TokenType::EQUAL_EQUAL;
    let ne = op == TokenType::BANG_EQUAL;
    match (left, right) {
        (LiteralView::Num(_), LiteralView::Num(_)) => Ok(BinaryOutcomeView::Arithmetic(op)),
        (LiteralView::Num(_), LiteralView::Str(_)) => if op == TokenType::PLUS {
            Ok(BinaryOutcomeView::Concat { number_first: true })
        } else if eq {
            bool_out(false)
        } else if ne {
            bool_out(true)
        } else {
            Err(OperandError::Numbers)
        },
        (LiteralView::Str(_), LiteralView::Num(_)) => if op == TokenType::PLUS {
            Ok(BinaryOutcomeView::Concat { number_first: false })
        } else if eq {
            bool_out(false)
        } else if ne {
            bool_out(true)
        } else {
            Err(OperandError::Numbers)
        },
        (LiteralView::Str(a), LiteralView::Str(b)) => if op == TokenType::PLUS {
            Ok(BinaryOutcomeView::Value(LiteralView::Str(a + b)))
        } else if ne {
            bool_out(a != b)
        } else if eq {
            bool_out(a == b)
        } else {
            Err(OperandError::Numbers)
        },
        (LiteralView::Bool(a), LiteralView::Bool(b)) => if ne {
            bool_out(a != b)
        } else if eq {
            bool_out(a == b)
        } else {
            Err(OperandError::Numbers)
        },
        (LiteralView::Bool(_), LiteralView::Str(_)) | (LiteralView::Str(_), LiteralView::Bool(_)) =>
            if ne {
            bool_out(true)
        } else if eq {
            bool_out(false)
        } else {
            Err(OperandError::NumbersOrStrings)
        },
        (LiteralView::Nil, LiteralView::Nil) => if ne {
            bool_out(false)
        } else if eq {
            bool_out(true)
        } else {
            Err(OperandError::NumbersOrStrings)
        },
        (LiteralView::Nil, _) | (_, LiteralView::Nil) => if eq {
            bool_out(false)
        } else if ne {
            bool_out(true)
        } else {
            Err(OperandError::NumbersOrStrings)
        },
        (LiteralView::Func(a), LiteralView::Func(b)) => bool_out(a == b),
        (LiteralView::Class(a), LiteralView::Class(b)) => bool_out(a == b),
        _ => if ne {
            bool_out(true)
        } else if eq {
            bool_out(false)
        } else if op == TokenType::PLUS {
            Err(OperandError::NumbersOrStrings)
        } else {
            Err(OperandError::Numbers)
        },
    }
}

/// The runtime error for an operand error at an operator.
pub open spec fn operand_error(op: crate::entities::TokenView, e: OperandError) -> LoxResultView {
    LoxResultView::RuntimeError {
        token: op,
        message: match e {
            OperandError::Numbers => "Operands must be numbers."@,
            OperandError::NumbersOrStrings => "Operands must be two numbers or two strings."@,
        },
    }
}

/// Applies the binary operator `operator` to two values: the outcome, or
/// the runtime error at the operator where the operands do not suit it.
/// On two numbers the operator must be one of the binary operators.
pub fn binary(operator: &Token, left: LiteralValue, right: LiteralValue) -> (r: Result<
    BinaryOutcome,
    LoxResult,
>)
    requires
        (left@ is Num && right@ is Num) ==> is_binary_operator(operator.token_type),
    ensures
        match binary_rule(operator.token_type, left@, right@) {
            Ok(o) => r matches Ok(x) && x@ == o,
            Err(e) => r matches Err(x) && x@ == operand_error(operator@, e),
        },
{
    let op = operator.token_type;
    let eq = op == TokenType::EQUAL_EQUAL;
    let ne = op == TokenType::BANG_EQUAL;
    let numbers = "Operands must be numbers.";
    let nums_or_strings = "Operands must be two numbers or two strings.";
    match (left, right) {
        (LiteralValue::Num(_), LiteralValue::Num(_)) => Ok(BinaryOutcome::Arithmetic(op)),
        (LiteralValue::Num(_), LiteralValue::Str(_)) => {
            if op == TokenType::PLUS {
                Ok(BinaryOutcome::Concat { number_first: true })
            } else if eq {
                Ok(BinaryOutcome::Value(LiteralValue::Bool(false)))
            } else if ne {
                Ok(BinaryOutcome::Value(LiteralValue::Bool(true)))
            } else {
                Err(LoxResult::runtime_error(operator, numbers))
            }
        },
        (LiteralValue::Str(_), LiteralValue::Num(_)) => {
            if op == TokenType::PLUS {
                Ok(BinaryOutcome::Concat { number_first: false })
            } else if eq {
                Ok(BinaryOutcome::Value(LiteralValue::Bool(false)))
            } else if ne {
                Ok(BinaryOutcome::Value(LiteralValue::Bool(true)))
            } else {
                Err(LoxResult::runtime_error(operator, numbers))
            }
        },
        (LiteralValue::Str(a), LiteralValue::Str(b)) => {
            if op == TokenType::PLUS {
                let mut s = a;
                s.append(b.as_str());
                Ok(BinaryOutcome::Value(LiteralValue::Str(s)))
            } else if ne {
                Ok(BinaryOutcome::Value(LiteralValue::Bool(!crate::text::str_eq(a.as_str(), b.as_str()))))
            } else if eq {
                Ok(BinaryOutcome::Value(LiteralValue::Bool(crate::text::str_eq(a.as_str(), b.as_str()))))
            } else {
                Err(LoxResult::runtime_error(operator, numbers))
            }
        },
        (LiteralValue::Bool(a), LiteralValue::Bool(b)) => {
            if ne {
                Ok(BinaryOutcome::Value(LiteralValue::Bool(a != b)))
            } else if eq {
                Ok(BinaryOutcome::Value(LiteralValue::Bool(a == b)))
            } else {
                Err(LoxResult::runtime_error(operator, numbers))
            }
        },
        (LiteralValue::Bool(_), LiteralValue::Str(_)) | (LiteralValue::Str(_), LiteralValue::Bool(_)) => {
            if ne {
                Ok(BinaryOutcome::Value(LiteralValue::Bool(true)))
            } else if eq {
                Ok(BinaryOutcome::Value(LiteralValue::Bool(false)))
            } else {
                Err(LoxResult::runtime_error(operator, nums_or_strings))
            }
        },
        (LiteralValue::Nil, LiteralValue::Nil) => {
            if ne {
                Ok(BinaryOutcome::Value(LiteralValue::Bool(false)))
            } else if eq {
                Ok(BinaryOutcome::Value(LiteralValue::Bool(true)))
            } else {
                Err(LoxResult::runtime_error(operator, nums_or_strings))
            }
        },
        (LiteralValue::Nil, _) | (_, LiteralValue::Nil) => {
            if eq {
                Ok(BinaryOutcome::Value(LiteralValue::Bool(false)))
            } else if ne {
                Ok(BinaryOutcome::Value(LiteralValue::Bool(true)))
            } else {
                Err(LoxResult::runtime_error(operator, nums_or_strings))
            }
        },
        (LiteralValue::Func(a), LiteralValue::Func(b)) => Ok(
            BinaryOutcome::Value(LiteralValue::Bool(a == b)),
        ),
        (LiteralValue::Class(a), LiteralValue::Class(b)) => Ok(
            BinaryOutcome::Value(LiteralValue::Bool(a == b)),
        ),
        _ => {
            if ne {
                Ok(BinaryOutcome::Value(LiteralValue::Bool(true)))
            } else if eq {
                Ok(BinaryOutcome::Value(LiteralValue::Bool(false)))
            } else if op == TokenType::PLUS {
                Err(LoxResult::runtime_error(operator, nums_or_strings))
            } else {
                Err(LoxResult::runtime_error(operator, numbers))
            }
        },
    }
}

/// What a unary expression comes to, once its operand is evaluated.
pub enum UnaryOutcome {
    /// This value.
    Value(LiteralValue),
    /// The negation of the number.
    Negate,
}

/// The outcome of a unary operator on a value: `-` negates a number
/// (anything else is an error at the operator), `!` gives the opposite of
/// the value's truth; any other operator is an error on its line.
pub fn unary(operator: &Token, right: &LiteralValue) -> (r: Result<UnaryOutcome, LoxResult>)
    ensures
        operator.token_type == TokenType::MINUS ==> match right@ {
            LiteralView::Num(_) => r matches Ok(UnaryOutcome::Negate),
            _ => r matches Err(e) && e@ == (LoxResultView::RuntimeError {
                token: operator@,
                message: "Operand must be a number."@,
            }),
        },
        operator.token_type == TokenType::BANG ==> (r matches Ok(UnaryOutcome::Value(v)) && v@
            == LiteralView::Bool(!truthy(right@))),
        operator.token_type != TokenType::MINUS && operator.token_type != TokenType::BANG ==> (
        r matches Err(e) && e@ == (LoxResultView::Error {
            line: operator.line,
            message: "Unreachable according to Nystrom"@,
        })),
{
    match operator.token_type {
        TokenType::MINUS => match right {
            LiteralValue::Num(_) => Ok(UnaryOutcome::Negate),
            _ => Err(LoxResult::runtime_error(operator, "Operand must be a number.")),
        },
        TokenType::BANG => Ok(UnaryOutcome::Value(LiteralValue::Bool(!is_truthy(right)))),
        _ => Err(LoxResult::error(operator.line, "Unreachable according to Nystrom")),
    }
}

/// Whether a logical expression stops at its left operand (and gives it):
/// `or` stops at a true value, `and` at a false one.
pub fn short_circuits(operator: &Token, left: &LiteralValue) -> (r: bool)
    ensures
        r == if operator.token_type == TokenType::OR {
            truthy(left@)
        } else {
            !truthy(left@)
        },
{
    if operator.is(TokenType::OR) {
        is_truthy(left)
    } else {
        !is_truthy(left)
    }
}

/// What the caller of a function or class does next, once the call has
/// been checked and its scopes made.
pub enum CallPlan {
    /// Run the body of function `function` in scope `scope`; the call comes
    /// to what [`LoxFunction::call_result`] makes of how the body ran.
    Function { function: usize, scope: usize },
    /// The call's value is known already (a native function's).
    Value(LiteralValue),
    /// The call made this instance; where the class has an initializer, run
    /// the body of that function (bound to the instance) in that scope first,
    /// and fail where it fails.
    Instance { instance: LiteralValue, init: Option<(usize, usize)> },
}

/// The model of a [`CallPlan`].
pub enum CallPlanView {
    Function { function: usize, scope: usize },
    Value(LiteralView),
    Instance { instance: LiteralView, init: Option<(usize, usize)> },
}

impl View for CallPlan {
    type V = CallPlanView;

    open spec fn view(&self) -> CallPlanView {
        match self {
            CallPlan::Function { function, scope } => CallPlanView::Function {
                function: *function,
                scope: *scope,
            },
            CallPlan::Value(v) => CallPlanView::Value(v@),
            CallPlan::Instance { instance, init } => CallPlanView::Instance {
                instance: instance@,
                init: *init,
            },
        }
    }
}

/// The error for a call with the wrong number of arguments.
pub open spec fn arity_error(paren: crate::entities::TokenView, expected: nat, got: nat) -> LoxResultView {
    LoxResultView::RuntimeError {
        token: paren,
        message: "Expected "@ + decimal(expected) + " arguments but got "@ + decimal(got) + "."@,
    }
}

/// The error for calling what is neither a function nor a class.
pub open spec fn not_callable(paren: crate::entities::TokenView) -> LoxResultView {
    LoxResultView::RuntimeError { token: paren, message: "Can only call functions and classes"@ }
}

/// The state of a run: its scopes (the globals are scope 0), the scope
/// statements run in now, the scope depths the resolver found for
/// expressions (by expression id), and the functions, classes and
/// instances made so far, each known by its handle.
#[derive(Debug)]
pub struct Interpreter {
    envs: Environments,
    environment: usize,
    locals: Vec<(usize, usize)>,
    functions: Functions,
    classes: Classes,
    instances: Instances,
}

/// The model of an [`Interpreter`].
pub struct InterpreterView {
    pub scopes: Scopes,
    pub environment: usize,
    pub locals: Seq<(usize, usize)>,
    pub functions: Seq<LoxFunctionView>,
    pub classes: Seq<LoxClassView>,
    pub instances: Seq<LoxInstanceView>,
}

impl View for Interpreter {
    type V = InterpreterView;

    closed spec fn view(&self) -> InterpreterView {
        InterpreterView {
            scopes: self.envs@,
            environment: self.environment,
            locals: self.locals@,
            functions: self.functions@,
            classes: self.classes@,
            instances: self.instances@,
        }
    }
}

/// The handle of the global scope.
pub open spec fn globals() -> int {
    0
}

/// The depth recorded last for expression `expr`, if any.
pub open spec fn depth_of(locals: Seq<(usize, usize)>, expr: usize) -> Option<usize>
    decreases locals.len(),
{
    if locals.len() == 0 {
        None
    } else if locals.last().0 == expr {
        Some(locals.last().1)
    } else {
        depth_of(locals.drop_last(), expr)
    }
}

/// Every value in the bindings is a function with an existing handle.
pub open spec fn all_functions(b: Bindings, n_functions: nat) -> bool {
    forall|j: int|
        0 <= j < b.len() ==> ((#[trigger] b[j]).1 matches LiteralView::Func(h) && h < n_functions)
}

/// The invariant of a run: the scopes chain outwards to the globals, the
/// current scope exists, every function closes over an existing scope,
/// superclasses come before their subclasses, every instance's class
/// exists, and every method is an existing function.
pub open spec fn interpreter_wf(v: InterpreterView) -> bool {
    &&& wf_scopes(v.scopes)
    &&& v.scopes.len() > 0
    &&& v.environment < v.scopes.len()
    &&& wf_closures(v.functions, v.scopes.len())
    &&& wf_classes(v.classes)
    &&& forall|i: int| 0 <= i < v.instances.len() ==> (#[trigger] v.instances[i]).klass < v.classes.len()
    &&& forall|c: int|
        0 <= c < v.classes.len() ==> all_functions(#[trigger] v.classes[c].methods, v.functions.len())
}

/// Whether a value's handle names something of the run: a function, class
/// or instance made so far, or the native function `clock` (handle 0).
pub open spec fn holds_value(v: InterpreterView, x: LiteralView) -> bool {
    match x {
        LiteralView::Func(h) => h < v.functions.len(),
        LiteralView::Class(h) => h < v.classes.len(),
        LiteralView::Instance(h) => h < v.instances.len(),
        LiteralView::Native(h) => h == 0,
        _ => true,
    }
}

/// The state with the scopes replaced.
pub open spec fn with_scopes(v: InterpreterView, scopes: Scopes) -> InterpreterView {
    InterpreterView { scopes, ..v }
}

/// A change of the scopes alone, which keeps them well formed and no
/// fewer, keeps the invariant.
proof fn lemma_scopes_change(a: InterpreterView, b: InterpreterView)
    requires
        interpreter_wf(a),
        wf_scopes(b.scopes),
        a.scopes.len() <= b.scopes.len(),
        b.environment < b.scopes.len(),
        b.functions == a.functions,
        b.classes == a.classes,
        b.instances == a.instances,
    ensures
        interpreter_wf(b),
{
    lemma_grow(a, b);
}

/// A run that only grew (scopes, functions, classes and instances added,
/// the old ones unchanged but for the bindings of scopes) keeps the
/// invariant, where what was added satisfies it.
proof fn lemma_grow(a: InterpreterView, b: InterpreterView)
    requires
        interpreter_wf(a),
        wf_scopes(b.scopes),
        a.scopes.len() <= b.scopes.len(),
        b.environment < b.scopes.len(),
        a.functions.len() <= b.functions.len(),
        forall|i: int| 0 <= i < a.functions.len() ==> #[trigger] b.functions[i] == a.functions[i],
        forall|i: int|
            a.functions.len() <= i < b.functions.len() ==> #[trigger] b.functions[i].closure
                < b.scopes.len(),
        a.classes.len() <= b.classes.len(),
        forall|c: int| 0 <= c < a.classes.len() ==> #[trigger] b.classes[c] == a.classes[c],
        wf_classes(b.classes),
        forall|c: int|
            a.classes.len() <= c < b.classes.len() ==> all_functions(
                #[trigger] b.classes[c].methods,
                b.functions.len(),
            ),
        a.instances.len() <= b.instances.len(),
        forall|i: int| 0 <= i < a.instances.len() ==> #[trigger] b.instances[i] == a.instances[i],
        forall|i: int|
            a.instances.len() <= i < b.instances.len() ==> (#[trigger] b.instances[i]).klass
                < b.classes.len(),
    ensures
        interpreter_wf(b),
{
    assert forall|i: int| 0 <= i < b.instances.len() implies (#[trigger] b.instances[i]).klass
        < b.classes.len() by {
        if i < a.instances.len() {
            assert(b.instances[i] == a.instances[i]);
            assert(a.instances[i].klass < a.classes.len());
        }
    }
    assert forall|c: int| 0 <= c < b.classes.len() implies all_functions(
        #[trigger] b.classes[c].methods,
        b.functions.len(),
    ) by {
        if c < a.classes.len() {
            assert(b.classes[c] == a.classes[c]);
            let m = a.classes[c].methods;
            assert(all_functions(m, a.functions.len()));
            assert forall|j: int| 0 <= j < m.len() implies ((#[trigger] m[j]).1 matches LiteralView::Func(
                h,
            ) && h < b.functions.len()) by {}
        }
    }
    assert forall|i: int| 0 <= i < b.functions.len() implies #[trigger] b.functions[i].closure
        < b.scopes.len() by {
        if i < a.functions.len() {
            assert(b.functions[i] == a.functions[i]);
            assert(a.functions[i].closure < a.scopes.len());
        }
    }
}

/// A lookup in bindings whose values are all functions finds a function.
proof fn lemma_lookup_function(b: Bindings, name: Seq<char>, n: nat)
    requires
        all_functions(b, n),
    ensures
        lookup(b, name) matches Some(v) ==> (v matches LiteralView::Func(h) && h < n),
    decreases b.len(),
{
    if b.len() > 0 {
        if b[0].0 != name {
            let d = b.drop_first();
            assert forall|j: int| 0 <= j < d.len() implies ((#[trigger] d[j]).1 matches LiteralView::Func(
                h,
            ) && h < n) by {
                assert(d[j] == b[j + 1]);
            }
            lemma_lookup_function(d, name, n);
        } else {
            assert(b[0].1 matches LiteralView::Func(h) && h < n);
        }
    }
}

/// Every method a class finds, its own or inherited, is a function.
proof fn lemma_method_function(classes: Seq<LoxClassView>, c: int, name: Seq<char>, n: nat)
    requires
        wf_classes(classes),
        forall|k: int| 0 <= k < classes.len() ==> all_functions(#[trigger] classes[k].methods, n),
    ensures
        method_of(classes, c, name) matches Some(v) ==> (v matches LiteralView::Func(h) && h < n),
    decreases c,
{
    if 0 <= c < classes.len() {
        lemma_lookup_function(classes[c].methods, name, n);
        if lookup(classes[c].methods, name) is None {
            if let Some(e) = classes[c].superclass {
                if 0 <= e < c {
                    lemma_method_function(classes, e as int, name, n);
                }
            }
        }
    }
}

impl Interpreter {
    /// The invariant of a run.
    pub open spec fn inv(&self) -> bool {
        interpreter_wf(self@)
    }

    /// A fresh run: the global scope binds `clock` to the native clock, and
    /// statements run in the global scope.
    pub fn new() -> (r: Interpreter)
        ensures
            r.inv(),
            r@ == (InterpreterView {
                scopes: seq![
                    EnvironmentView {
                        values: seq![("clock"@, LiteralView::Native(0))],
                        enclosing: None,
                    },
                ],
                environment: 0,
                locals: Seq::empty(),
                functions: Seq::empty(),
                classes: Seq::empty(),
                instances: Seq::empty(),
            }),
    {
        let mut globals = Environment::new();
        globals.define("clock", LiteralValue::Native(0));
        let mut envs = Environments::new();
        envs.push(globals);
        let r = Interpreter {
            envs,
            environment: 0,
            locals: Vec::new(),
            functions: Functions::new(),
            classes: Classes::new(),
            instances: Instances::new(),
        };
        assert(r@.scopes =~= seq![
            EnvironmentView { values: seq![("clock"@, LiteralView::Native(0))], enclosing: None },
        ]);
        assert(r@.locals =~= Seq::<(usize, usize)>::empty());
        r
    }

    /// Whether a value's handle names something of this run (see
    /// [`holds_value`]).
    pub fn holds(&self, x: &LiteralValue) -> (r: bool)
        ensures
            r == holds_value(self@, x@),
    {
        match x {
            LiteralValue::Func(h) => *h < self.functions.len(),
            LiteralValue::Class(h) => *h < self.classes.len(),
            LiteralValue::Instance(h) => *h < self.instances.len(),
            LiteralValue::Native(h) => *h == 0,
            _ => true,
        }
    }

    /// The scope statements run in now.
    pub fn environment(&self) -> (r: usize)
        ensures
            r == self@.environment,
    {
        self.environment
    }

    /// The scopes of the run.
    pub fn scopes(&self) -> (r: &Environments)
        ensures
            r@ == self@.scopes,
            r.wf() <== self.inv(),
    {
        &self.envs
    }

    /// The functions of the run.
    pub fn functions(&self) -> (r: &Functions)
        ensures
            r@ == self@.functions,
    {
        &self.functions
    }

    /// The classes of the run.
    pub fn classes(&self) -> (r: &Classes)
        ensures
            r@ == self@.classes,
    {
        &self.classes
    }

    /// The instances of the run.
    pub fn instances(&self) -> (r: &Instances)
        ensures
            r@ == self@.instances,
    {
        &self.instances
    }

    /// Records that expression `expr` refers to a variable `depth` scopes
    /// out from where it is evaluated.
    pub fn resolve(&mut self, expr: usize, depth: usize)
        ensures
            final(self)@ == (InterpreterView { locals: old(self)@.locals.push((expr, depth)), ..old(self)@ }),
            old(self).inv() ==> final(self).inv(),
    {
        self.locals.push((expr, depth));
    }

    /// The depth recorded for expression `expr`, if any.
    pub fn depth(&self, expr: usize) -> (r: Option<usize>)
        ensures
            r == depth_of(self@.locals, expr),
    {
        let mut i: usize = self.locals.len();
        assert(self.locals@.take(i as int) =~= self.locals@);
        while i > 0
            invariant
                i <= self.locals@.len(),
                depth_of(self.locals@, expr) == depth_of(self.locals@.take(i as int), expr),
            decreases i,
        {
            assert(self.locals@.take(i as int).drop_last() =~= self.locals@.take(i - 1));
            if self.locals[i - 1].0 == expr {
                return Some(self.locals[i - 1].1);
            }
            i = i - 1;
        }
        None
    }

    /// Whether variable `name`, at expression `expr`, can be looked up or
    /// assigned: where a depth was recorded for it, the scope that many
    /// steps out from the current one exists and (for a lookup) binds it.
    pub open spec fn resolvable(&self, name: Seq<char>, expr: usize, must_bind: bool) -> bool {
        depth_of(self@.locals, expr) matches Some(d) ==> (ancestor(
            self@.scopes,
            self@.environment as int,
            d as nat,
        ) matches Some(a) && (must_bind ==> lookup(self@.scopes[a].values, name) is Some))
    }

    /// Tests [`Self::resolvable`].
    pub fn can_resolve(&self, name: &str, expr: usize, must_bind: bool) -> (r: bool)
        requires
            self.inv(),
        ensures
            r == self.resolvable(name@, expr, must_bind),
    {
        match self.depth(expr) {
            None => true,
            Some(d) => match self.envs.ancestor_of(self.environment, d) {
                None => false,
                Some(a) => !must_bind || self.envs.lookup_in(a, name).is_some(),
            },
        }
    }

    /// The value of variable `name` at expression `expr`: in the scope the
    /// resolver found for it, or else in the globals; an error where the
    /// globals do not bind it.
    pub fn look_up_variable(&self, name: &Token, expr: usize) -> (r: Result<LiteralValue, LoxResult>)
        requires
            self.inv(),
            self.resolvable(name.lexeme@, expr, true),
        ensures
            match depth_of(self@.locals, expr) {
                Some(d) => r matches Ok(v) && Some(v@) == lookup(
                    self@.scopes[ancestor(self@.scopes, self@.environment as int, d as nat)->Some_0].values,
                    name.lexeme@,
                ),
                None => match value_of(self@.scopes, globals(), name.lexeme@) {
                    Some(x) => r matches Ok(v) && v@ == x,
                    None => r matches Err(e) && e@ == undefined_variable(name@),
                },
            },
    {
        match self.depth(expr) {
            Some(d) => self.envs.get_at(self.environment, d, name.lexeme.as_str()),
            None => self.envs.get(0, name),
        }
    }

    /// Gives variable `name`, at expression `expr`, the value `value`: in
    /// the scope the resolver found for it, or else in the globals; an
    /// error where the globals do not bind it. The value is returned.
    pub fn assign_variable(&mut self, name: &Token, expr: usize, value: LiteralValue) -> (r: Result<
        LiteralValue,
        LoxResult,
    >)
        requires
            old(self).inv(),
            old(self).resolvable(name.lexeme@, expr, false),
        ensures
            final(self).inv(),
            match depth_of(old(self)@.locals, expr) {
                Some(d) => {
                    let a = ancestor(old(self)@.scopes, old(self)@.environment as int, d as nat)->Some_0;
                    &&& r matches Ok(v) && v@ == value@
                    &&& final(self)@ == with_scopes(
                        old(self)@,
                        define_in(old(self)@.scopes, a, name.lexeme@, value@),
                    )
                },
                None => match resolve(old(self)@.scopes, globals(), name.lexeme@) {
                    Some(j) => {
                        &&& r matches Ok(v) && v@ == value@
                        &&& final(self)@ == with_scopes(
                            old(self)@,
                            define_in(old(self)@.scopes, j, name.lexeme@, value@),
                        )
                    },
                    None => {
                        &&& r matches Err(e) && e@ == undefined_variable(name@)
                        &&& final(self)@ == old(self)@
                    },
                },
            },
    {
        let kept = value.dup();
        let r = match self.depth(expr) {
            Some(d) => {
                let _ = self.envs.assign_at(self.environment, d, name, value);
                Ok(kept)
            },
            None => match self.envs.assign(0, name, value) {
                Ok(()) => Ok(kept),
                Err(e) => Err(e),
            },
        };
        proof {
            lemma_scopes_change(old(self)@, self@);
        }
        r
    }

    /// Binds `name` to `value` in the current scope.
    pub fn define(&mut self, name: &str, value: LiteralValue)
        requires
            old(self).inv(),
        ensures
            final(self).inv(),
            final(self)@ == with_scopes(
                old(self)@,
                define_in(old(self)@.scopes, old(self)@.environment as int, name@, value@),
            ),
    {
        self.envs.define(self.environment, name, value);
        proof {
            lemma_scopes_change(old(self)@, self@);
        }
    }

    /// Makes a new scope enclosed by the current one (for a block); its
    /// handle is returned. The current scope stays as it was.
    pub fn new_block_scope(&mut self) -> (r: usize)
        requires
            old(self).inv(),
        ensures
            final(self).inv(),
            r == old(self)@.scopes.len(),
            final(self)@ == with_scopes(
                old(self)@,
                old(self)@.scopes.push(
                    EnvironmentView { values: Seq::empty(), enclosing: Some(old(self)@.environment) },
                ),
            ),
    {
        let r = self.envs.push(Environment::new_with_enclosing(self.environment));
        proof {
            lemma_scopes_change(old(self)@, self@);
        }
        r
    }

    /// Makes `scope` the scope statements run in (as a block or a call
    /// starts); the scope they ran in before is returned, to be restored
    /// with [`Self::leave_scope`] when the block or call ends, however it
    /// ends.
    pub fn enter_scope(&mut self, scope: usize) -> (r: usize)
        requires
            old(self).inv(),
            scope < old(self)@.scopes.len(),
        ensures
            final(self).inv(),
            r == old(self)@.environment,
            final(self)@ == (InterpreterView { environment: scope, ..old(self)@ }),
    {
        let previous = self.environment;
        self.environment = scope;
        previous
    }

    /// Restores the scope statements ran in before a block or call.
    pub fn leave_scope(&mut self, previous: usize)
        requires
            old(self).inv(),
            previous < old(self)@.scopes.len(),
        ensures
            final(self).inv(),
            final(self)@ == (InterpreterView { environment: previous, ..old(self)@ }),
    {
        self.environment = previous;
    }

    /// Declares a function: a function made from the declaration, closing
    /// over the current scope (no initializer), bound to its name in the
    /// current scope.
    pub fn declare_function(&mut self, stmt: &FunctionStmt)
        requires
            old(self).inv(),
        ensures
            final(self).inv(),
            final(self)@ == (InterpreterView {
                functions: old(self)@.functions.push(
                    LoxFunctionView {
                        name: stmt.name@,
                        params: tokens_view(stmt.params@),
                        body: stmts_view(stmt.body@),
                        closure: old(self)@.environment,
                        is_initializer: false,
                    },
                ),
                scopes: define_in(
                    old(self)@.scopes,
                    old(self)@.environment as int,
                    stmt.name.lexeme@,
                    LiteralView::Func(old(self)@.functions.len() as usize),
                ),
                ..old(self)@
            }),
    {
        let f = LoxFunction::new(stmt.dup(), self.environment, false);
        let h = self.functions.push(f);
        self.envs.define(self.environment, stmt.name.lexeme.as_str(), LiteralValue::Func(h));
        proof {
            assert forall|c: int| 0 <= c < self@.classes.len() implies all_functions(
                #[trigger] self@.classes[c].methods,
                self@.functions.len(),
            ) by {
                assert(all_functions(old(self)@.classes[c].methods, old(self)@.functions.len()));
            }
        }
    }
}


impl Interpreter {
    /// The error for a call with the wrong number of arguments.
    fn arity_mismatch(paren: &Token, expected: usize, got: usize) -> (r: LoxResult)
        ensures
            r@ == arity_error(paren@, expected as nat, got as nat),
    {
        let mut m = String::from_str("Expected ");
        m.append(decimal_string(expected as u128).as_str());
        m.append(" arguments but got ");
        m.append(decimal_string(got as u128).as_str());
        m.append(".");
        LoxResult::runtime_error(paren, m.as_str())
    }

    /// Calls `callee` with `arguments` (the call's closing parenthesis is
    /// `paren`): a function or class must be given as many arguments as it
    /// takes. A function gets the scope its body runs in; the native `clock`
    /// is read; a class gets a new instance and, where it has an
    /// initializer, that method bound to the instance and the scope it runs
    /// in. Anything else cannot be called.
    pub fn call(&mut self, callee: &LiteralValue, arguments: &Vec<LiteralValue>, paren: &Token) -> (r:
        Result<CallPlan, LoxResult>)
        requires
            old(self).inv(),
            holds_value(old(self)@, callee@),
        ensures
            final(self).inv(),
            ({
                let st = old(self)@;
                let n = arguments@.len();
                let args = values_view(arguments@);
                match callee@ {
                    LiteralView::Func(h) => if n != st.functions[h as int].params.len() {
                        &&& r matches Err(e) && e@ == arity_error(
                            paren@,
                            st.functions[h as int].params.len(),
                            n,
                        )
                        &&& final(self)@ == st
                    } else {
                        &&& r matches Ok(p) && p@ == (CallPlanView::Function {
                            function: h,
                            scope: st.scopes.len() as usize,
                        })
                        &&& final(self)@ == with_scopes(
                            st,
                            st.scopes.push(call_scope_of(st.functions[h as int], args)),
                        )
                    },
                    LiteralView::Native(_) => if n != 0 {
                        &&& r matches Err(e) && e@ == arity_error(paren@, 0, n)
                        &&& final(self)@ == st
                    } else {
                        &&& match r {
                            Ok(p) => p@ matches CallPlanView::Value(v) && clock_value(v),
                            Err(e) => clock_error(e@),
                        }
                        &&& final(self)@ == st
                    },
                    LiteralView::Class(c) => if n != class_arity(st.classes, st.functions, c as int) {
                        &&& r matches Err(e) && e@ == arity_error(
                            paren@,
                            class_arity(st.classes, st.functions, c as int),
                            n,
                        )
                        &&& final(self)@ == st
                    } else {
                        let inst = LiteralView::Instance(st.instances.len() as usize);
                        let instances = st.instances.push(
                            LoxInstanceView { klass: c, fields: Seq::empty() },
                        );
                        match method_of(st.classes, c as int, "init"@) {
                            Some(LiteralView::Func(h)) => {
                                let bound = LoxFunctionView {
                                    closure: st.scopes.len() as usize,
                                    ..st.functions[h as int]
                                };
                                &&& r matches Ok(p) && p@ == (CallPlanView::Instance {
                                    instance: inst,
                                    init: Some(
                                        (st.functions.len() as usize, (st.scopes.len() + 1) as usize),
                                    ),
                                })
                                &&& final(self)@ == (InterpreterView {
                                    scopes: st.scopes.push(
                                        this_scope(inst, st.functions[h as int].closure),
                                    ).push(call_scope_of(bound, args)),
                                    functions: st.functions.push(bound),
                                    instances,
                                    ..st
                                })
                            },
                            _ => {
                                &&& r matches Ok(p) && p@ == (CallPlanView::Instance {
                                    instance: inst,
                                    init: None,
                                })
                                &&& final(self)@ == (InterpreterView { instances, ..st })
                            },
                        }
                    },
                    _ => {
                        &&& r matches Err(e) && e@ == not_callable(paren@)
                        &&& final(self)@ == st
                    },
                }
            }),
    {
        let ghost st = self@;
        match callee {
            LiteralValue::Func(h) => {
                let arity = self.functions.get(*h).arity();
                if arguments.len() != arity {
                    return Err(Self::arity_mismatch(paren, arity, arguments.len()));
                }
                let scope = self.functions.get(*h).call_scope(&mut self.envs, arguments);
                proof {
                    lemma_grow(st, self@);
                }
                Ok(CallPlan::Function { function: *h, scope })
            },
            LiteralValue::Native(_) => {
                let clock = NativeClock;
                if arguments.len() != clock.arity() {
                    return Err(Self::arity_mismatch(paren, 0, arguments.len()));
                }
                match clock.call() {
                    Ok(v) => Ok(CallPlan::Value(v)),
                    Err(e) => Err(e),
                }
            },
            LiteralValue::Class(c) => {
                let arity = self.classes.arity(*c, &self.functions);
                if arguments.len() != arity {
                    return Err(Self::arity_mismatch(paren, arity, arguments.len()));
                }
                proof {
                    lemma_method_function(st.classes, *c as int, "init"@, st.functions.len());
                }
                let _n_functions = self.functions.len();
                let (instance, init) = self.classes.instantiate(
                    *c,
                    &mut self.instances,
                    &mut self.functions,
                    &mut self.envs,
                );
                match init {
                    Some(LiteralValue::Func(f)) => {
                        let scope = self.functions.get(f).call_scope(&mut self.envs, arguments);
                        proof {
                            lemma_grow(st, self@);
                        }
                        Ok(CallPlan::Instance { instance, init: Some((f, scope)) })
                    },
                    _ => {
                        proof {
                            lemma_grow(st, self@);
                        }
                        Ok(CallPlan::Instance { instance, init: None })
                    },
                }
            },
            _ => Err(LoxResult::runtime_error(paren, "Can only call functions and classes")),
        }
    }

    /// Reads the property `name` of `object`, which must be an instance:
    /// its field of that name, or else its class's method of that name
    /// bound to it, or else an error.
    pub fn get_property(&mut self, object: &LiteralValue, name: &Token) -> (r: Result<
        LiteralValue,
        LoxResult,
    >)
        requires
            old(self).inv(),
            holds_value(old(self)@, object@),
        ensures
            final(self).inv(),
            ({
                let st = old(self)@;
                match object@ {
                    LiteralView::Instance(i) => match property_of(
                        st.classes,
                        st.instances[i as int],
                        name@,
                    ) {
                        Ok(PropertyView::Field(v)) => {
                            &&& r matches Ok(x) && x@ == v
                            &&& final(self)@ == st
                        },
                        Ok(PropertyView::Method(m)) => {
                            let h = m->Func_0;
                            &&& r matches Ok(x) && x@ == LiteralView::Func(
                                st.functions.len() as usize,
                            )
                            &&& final(self)@ == (InterpreterView {
                                scopes: st.scopes.push(
                                    this_scope(object@, st.functions[h as int].closure),
                                ),
                                functions: st.functions.push(
                                    LoxFunctionView {
                                        closure: st.scopes.len() as usize,
                                        ..st.functions[h as int]
                                    },
                                ),
                                ..st
                            })
                        },
                        Err(e) => {
                            &&& r matches Err(x) && x@ == e
                            &&& final(self)@ == st
                        },
                    },
                    _ => {
                        &&& r matches Err(e) && e@ == (LoxResultView::RuntimeError {
                            token: name@,
                            message: "Only instances have properties."@,
                        })
                        &&& final(self)@ == st
                    },
                }
            }),
    {
        let ghost st = self@;
        match object {
            LiteralValue::Instance(i) => {
                proof {
                    let k = st.instances[*i as int].klass;
                    assert(st.instances[*i as int].klass < st.classes.len());
                    lemma_method_function(st.classes, k as int, name.lexeme@, st.functions.len());
                }
                let r = self.instances.get(
                    *i,
                    name,
                    &self.classes,
                    &mut self.functions,
                    &mut self.envs,
                );
                proof {
                    lemma_grow(st, self@);
                }
                r
            },
            _ => Err(LoxResult::runtime_error(name, "Only instances have properties.")),
        }
    }

    /// The instance whose field `name` an assignment to a property of
    /// `object` sets; an error where `object` is no instance.
    pub fn set_target(&self, object: &LiteralValue, name: &Token) -> (r: Result<usize, LoxResult>)
        ensures
            match object@ {
                LiteralView::Instance(i) => r == Ok::<usize, LoxResult>(i),
                _ => r matches Err(e) && e@ == (LoxResultView::RuntimeError {
                    token: name@,
                    message: "Only instances have fields."@,
                }),
            },
    {
        match object {
            LiteralValue::Instance(i) => Ok(*i),
            _ => Err(LoxResult::runtime_error(name, "Only instances have fields.")),
        }
    }

    /// Sets the field `name` of instance `inst` to `value`, and gives the
    /// value back.
    pub fn set_field(&mut self, inst: usize, name: &Token, value: LiteralValue) -> (r: LiteralValue)
        requires
            old(self).inv(),
            inst < old(self)@.instances.len(),
        ensures
            final(self).inv(),
            r@ == value@,
            final(self)@ == (InterpreterView {
                instances: old(self)@.instances.update(
                    inst as int,
                    LoxInstanceView {
                        klass: old(self)@.instances[inst as int].klass,
                        fields: bind(old(self)@.instances[inst as int].fields, name.lexeme@, value@),
                    },
                ),
                ..old(self)@
            }),
    {
        let ghost st = self@;
        let kept = value.dup();
        self.instances.set(inst, name, value);
        proof {
            assert forall|i: int| 0 <= i < self@.instances.len() implies (#[trigger] self@.instances[
                i
            ]).klass < self@.classes.len() by {
                assert(st.instances[i].klass < st.classes.len());
            }
            assert forall|c: int| 0 <= c < self@.classes.len() implies all_functions(
                #[trigger] self@.classes[c].methods,
                self@.functions.len(),
            ) by {
                assert(all_functions(st.classes[c].methods, st.functions.len()));
            }
        }
        kept
    }
}


/// The scope holding `super` for the `super` expression `expr`: the scope
/// as many steps out as the resolver recorded for it.
pub open spec fn super_scope(st: InterpreterView, expr: usize) -> Option<int> {
    match depth_of(st.locals, expr) {
        Some(d) => ancestor(st.scopes, st.environment as int, d as nat),
        None => None,
    }
}

/// The scope holding `this` for the `super` expression `expr`: one step
/// less far out.
pub open spec fn this_scope_of(st: InterpreterView, expr: usize) -> Option<int> {
    match depth_of(st.locals, expr) {
        Some(d) => if d >= 1 {
            ancestor(st.scopes, st.environment as int, (d - 1) as nat)
        } else {
            None
        },
        None => None,
    }
}

/// The class `super` names for the `super` expression `expr`, if it names one.
pub open spec fn super_class(st: InterpreterView, expr: usize) -> Option<usize> {
    match super_scope(st, expr) {
        Some(a) => match lookup(st.scopes[a].values, "super"@) {
            Some(LiteralView::Class(c)) => Some(c),
            _ => None,
        },
        None => None,
    }
}

/// The value `this` has for the `super` expression `expr`, if bound.
pub open spec fn super_this(st: InterpreterView, expr: usize) -> Option<LiteralView> {
    match this_scope_of(st, expr) {
        Some(b) => lookup(st.scopes[b].values, "this"@),
        None => None,
    }
}

/// Whether the `super` expression `expr` can be evaluated: the resolver
/// found its depth, `super` there names an existing class, and `this` is
/// bound one scope further in.
pub open spec fn super_ready(st: InterpreterView, expr: usize) -> bool {
    &&& super_class(st, expr) matches Some(c) && c < st.classes.len()
    &&& super_this(st, expr) is Some
}

impl Interpreter {
    /// Tests [`super_ready`].
    pub fn can_find_super(&self, expr: usize) -> (r: bool)
        requires
            self.inv(),
        ensures
            r == super_ready(self@, expr),
    {
        match self.depth(expr) {
            None => false,
            Some(d) => {
                let class_ok = match self.envs.ancestor_of(self.environment, d) {
                    None => false,
                    Some(a) => match self.envs.lookup_in(a, "super") {
                        Some(LiteralValue::Class(c)) => c < self.classes.len(),
                        _ => false,
                    },
                };
                let this_ok = if d >= 1 {
                    match self.envs.ancestor_of(self.environment, d - 1) {
                        None => false,
                        Some(b) => self.envs.lookup_in(b, "this").is_some(),
                    }
                } else {
                    false
                };
                class_ok && this_ok
            },
        }
    }

    /// The method `method` of the superclass, seen from the `super`
    /// expression `expr`, bound to `this`; an error where the superclass
    /// has no such method.
    pub fn super_method(&mut self, expr: usize, method: &Token) -> (r: Result<LiteralValue, LoxResult>)
        requires
            old(self).inv(),
            super_ready(old(self)@, expr),
        ensures
            final(self).inv(),
            ({
                let st = old(self)@;
                let c = super_class(st, expr)->Some_0;
                let this = super_this(st, expr)->Some_0;
                match method_of(st.classes, c as int, method.lexeme@) {
                    Some(LiteralView::Func(h)) => {
                        &&& r matches Ok(x) && x@ == LiteralView::Func(st.functions.len() as usize)
                        &&& final(self)@ == (InterpreterView {
                            scopes: st.scopes.push(this_scope(this, st.functions[h as int].closure)),
                            functions: st.functions.push(
                                LoxFunctionView {
                                    closure: st.scopes.len() as usize,
                                    ..st.functions[h as int]
                                },
                            ),
                            ..st
                        })
                    },
                    _ => {
                        &&& r matches Err(e) && e@ == undefined_property(method@)
                        &&& final(self)@ == st
                    },
                }
            }),
    {
        let ghost st = self@;
        let d = self.depth(expr).unwrap();
        let a = self.envs.ancestor_of(self.environment, d).unwrap();
        let b = self.envs.ancestor_of(self.environment, d - 1).unwrap();
        let superclass = match self.envs.lookup_in(a, "super") {
            Some(LiteralValue::Class(c)) => c,
            _ => {
                proof {
                    assert(false);
                }
                return Err(LoxResult::fail());
            },
        };
        let this = self.envs.lookup_in(b, "this").unwrap();
        proof {
            lemma_method_function(st.classes, superclass as int, method.lexeme@, st.functions.len());
        }
        match self.classes.find_method(superclass, method.lexeme.as_str()) {
            Some(LiteralValue::Func(h)) => {
                proof {
                    assert(st.functions[h as int].closure < st.scopes.len());
                }
                let r = self.functions.bind(h, this, &mut self.envs);
                proof {
                    lemma_grow(st, self@);
                }
                Ok(r)
            },
            Some(_) => {
                proof {
                    assert(false);
                }
                Err(LoxResult::fail())
            },
            None => {
                let mut m = String::from_str("Undefined property '");
                m.append(method.lexeme.as_str());
                m.append("'.");
                Err(LoxResult::runtime_error(method, m.as_str()))
            },
        }
    }
}


/// Binding a name to a function keeps every value a function.
proof fn lemma_bind_functions(b: Bindings, name: Seq<char>, v: LiteralView, n: nat)
    requires
        all_functions(b, n),
        v matches LiteralView::Func(h) && h < n,
    ensures
        all_functions(bind(b, name, v), n),
    decreases b.len(),
{
    let r = bind(b, name, v);
    if b.len() == 0 {
        assert(r[0] == (name, v));
    } else if b[0].0 == name {
        assert forall|j: int| 0 <= j < r.len() implies ((#[trigger] r[j]).1 matches LiteralView::Func(
            h,
        ) && h < n) by {
            if j > 0 {
                assert(r[j] == b[j]);
            }
        }
    } else {
        let d = b.drop_first();
        assert forall|j: int| 0 <= j < d.len() implies ((#[trigger] d[j]).1 matches LiteralView::Func(
            h,
        ) && h < n) by {
            assert(d[j] == b[j + 1]);
        }
        lemma_bind_functions(d, name, v, n);
        let t = bind(d, name, v);
        assert forall|j: int| 0 <= j < r.len() implies ((#[trigger] r[j]).1 matches LiteralView::Func(
            h,
        ) && h < n) by {
            if j == 0 {
                assert(r[0] == b[0]);
            } else {
                assert(r[j] == t[j - 1]);
            }
        }
    }
}

/// Binding names to functions in turn gives bindings of functions alone.
proof fn lemma_bind_all_functions(entries: Seq<(Seq<char>, LiteralView)>, n: nat)
    requires
        forall|j: int|
            0 <= j < entries.len() ==> ((#[trigger] entries[j]).1 matches LiteralView::Func(h) && h
                < n),
    ensures
        all_functions(bind_all(entries), n),
    decreases entries.len(),
{
    if entries.len() > 0 {
        let d = entries.drop_last();
        assert forall|j: int| 0 <= j < d.len() implies ((#[trigger] d[j]).1 matches LiteralView::Func(
            h,
        ) && h < n) by {
            assert(d[j] == entries[j]);
        }
        lemma_bind_all_functions(d, n);
        let l = entries.last();
        assert(l == entries[entries.len() - 1]);
        lemma_bind_functions(bind_all(d), l.0, l.1, n);
    }
}

/// The name of a method declaration.
pub open spec fn method_name(m: StmtV) -> Seq<char> {
    match m {
        StmtV::Function { name, .. } => name.lexeme,
        _ => Seq::empty(),
    }
}

/// The function a method declaration makes, closing over scope `closure`;
/// the method `init` is an initializer.
pub open spec fn method_function(m: StmtV, closure: usize) -> LoxFunctionView {
    match m {
        StmtV::Function { name, params, body } => LoxFunctionView {
            name,
            params,
            body,
            closure,
            is_initializer: name.lexeme == "init"@,
        },
        _ => arbitrary(),
    }
}

/// The functions the methods of a class declaration make.
pub open spec fn method_functions(methods: Seq<Stmt>, closure: usize) -> Seq<LoxFunctionView> {
    Seq::new(methods.len(), |j: int| method_function(methods[j]@, closure))
}

/// The method table entries of a class declaration: each method's name and
/// its function, the functions numbered on from `base`.
pub open spec fn method_entries(methods: Seq<Stmt>, base: nat) -> Seq<(Seq<char>, LiteralView)> {
    Seq::new(methods.len(), |j: int| (method_name(methods[j]@), LiteralView::Func((base + j) as usize)))
}

/// The error for a superclass that is no class, at the superclass's name.
pub open spec fn superclass_error(stmt: ClassStmt) -> LoxResultView {
    LoxResultView::RuntimeError {
        token: stmt.superclass->Some_0@->Variable_name,
        message: "Superclass must be a class"@,
    }
}

/// What declaring the class `stmt` does to the state `st`, its superclass
/// (if it has one) having evaluated to `sup`: the class's name is bound to
/// `nil` in the current scope; where there is a superclass, a new scope
/// binds `super` to it; each method becomes a function closing over that
/// scope (or else the current one); the class is made from the methods and
/// the superclass; and the name is then bound to the class.
pub open spec fn class_declared(st: InterpreterView, stmt: ClassStmt, sup: Option<usize>) -> InterpreterView {
    let env0 = st.environment;
    let name = stmt.name.lexeme@;
    let s1 = define_in(st.scopes, env0 as int, name, LiteralView::Nil);
    let s2 = match sup {
        Some(c) => s1.push(
            EnvironmentView {
                values: bind(Seq::empty(), "super"@, LiteralView::Class(c)),
                enclosing: Some(env0),
            },
        ),
        None => s1,
    };
    let menv: usize = match sup {
        Some(_) => s1.len() as usize,
        None => env0,
    };
    let klass = LoxClassView {
        name,
        methods: bind_all(method_entries(stmt.methods@, st.functions.len())),
        superclass: sup,
    };
    InterpreterView {
        scopes: define_in(s2, env0 as int, name, LiteralView::Class(st.classes.len() as usize)),
        functions: st.functions + method_functions(stmt.methods@, menv),
        classes: st.classes.push(klass),
        ..st
    }
}

impl Interpreter {
    /// Declares the class `stmt`, whose superclass expression (where there
    /// is one) evaluated to `superclass`. A superclass that is no class is
    /// an error at its name (the expression must then be a variable); then
    /// every method must be a function, and see [`class_declared`].
    pub fn declare_class(&mut self, stmt: &ClassStmt, superclass: Option<LiteralValue>) -> (r: Result<
        (),
        LoxResult,
    >)
        requires
            old(self).inv(),
            superclass.is_some() == stmt.superclass.is_some(),
            match stmt.superclass {
                Some(e) => (superclass matches Some(v) && !(v@ is Class)) ==> e is Variable,
                None => true,
            },
            (superclass matches Some(v) ==> v@ is Class) ==> forall|j: int|
                0 <= j < stmt.methods@.len() ==> #[trigger] stmt.methods@[j] is Function,
            superclass matches Some(v) ==> holds_value(old(self)@, v@),
        ensures
            final(self).inv(),
            match superclass {
                Some(v) => match v@ {
                    LiteralView::Class(c) => r is Ok && final(self)@ == class_declared(
                        old(self)@,
                        *stmt,
                        Some(c),
                    ),
                    _ => r matches Err(e) && e@ == superclass_error(*stmt) && final(self)@ == old(
                        self,
                    )@,
                },
                None => r is Ok && final(self)@ == class_declared(old(self)@, *stmt, None),
            },
    {
        let ghost st = self@;
        let sup: Option<usize> = match &superclass {
            Some(LiteralValue::Class(c)) => Some(*c),
            Some(_) => {
                return match &stmt.superclass {
                    Some(Expr::Variable(v)) => Err(
                        LoxResult::runtime_error(&v.name, "Superclass must be a class"),
                    ),
                    _ => {
                        proof {
                            assert(false);
                        }
                        Err(LoxResult::fail())
                    },
                };
            },
            None => None,
        };
        let env0 = self.environment;
        let name = stmt.name.lexeme.as_str();
        self.envs.define(env0, name, LiteralValue::Nil);
        let ghost s1 = self@.scopes;
        let menv = match sup {
            Some(c) => {
                let mut e = Environment::new_with_enclosing(env0);
                e.define("super", LiteralValue::Class(c));
                self.envs.push(e)
            },
            None => env0,
        };
        let ghost s2 = self@.scopes;
        let base = self.functions.len();
        let mut entries: Vec<(String, LiteralValue)> = Vec::new();
        let mut j: usize = 0;
        while j < stmt.methods.len()
            invariant
                j <= stmt.methods@.len(),
                base == st.functions.len(),
                menv < s2.len(),
                self@.scopes == s2,
                wf_scopes(s2),
                self@.functions == st.functions + method_functions(stmt.methods@, menv).take(j as int),
                entries@.map_values(|p: (String, LiteralValue)| (p.0@, p.1@)) == method_entries(
                    stmt.methods@,
                    base as nat,
                ).take(j as int),
                self@.classes == st.classes,
                self@.instances == st.instances,
                self@.locals == st.locals,
                self@.environment == st.environment,
                forall|k: int| 0 <= k < stmt.methods@.len() ==> #[trigger] stmt.methods@[k] is Function,
            decreases stmt.methods@.len() - j,
        {
            match &stmt.methods[j] {
                Stmt::Function(f) => {
                    let is_init = str_eq(f.name.lexeme.as_str(), "init");
                    let fun = LoxFunction::new(f.dup(), menv, is_init);
                    let h = self.functions.push(fun);
                    entries.push((f.name.lexeme.clone(), LiteralValue::Func(h)));
                },
                _ => {
                    proof {
                        assert(stmt.methods@[j as int] is Function);
                    }
                },
            }
            proof {
                assert(method_functions(stmt.methods@, menv).take(j + 1) =~= method_functions(
                    stmt.methods@,
                    menv,
                ).take(j as int).push(method_function(stmt.methods@[j as int]@, menv)));
                assert(method_entries(stmt.methods@, base as nat).take(j + 1) =~= method_entries(
                    stmt.methods@,
                    base as nat,
                ).take(j as int).push(method_entries(stmt.methods@, base as nat)[j as int]));
                assert(entries@.map_values(|p: (String, LiteralValue)| (p.0@, p.1@)) =~= method_entries(
                    stmt.methods@,
                    base as nat,
                ).take(j + 1));
            }
            j = j + 1;
        }
        proof {
            assert(method_functions(stmt.methods@, menv).take(j as int) =~= method_functions(
                stmt.methods@,
                menv,
            ));
            assert(method_entries(stmt.methods@, base as nat).take(j as int) =~= method_entries(
                stmt.methods@,
                base as nat,
            ));
        }
        let klass = LoxClass::new(name, sup, entries);
        let k = self.classes.push(klass);
        proof {
            crate::environment::lemma_bind(st.scopes[env0 as int].values, name@, LiteralView::Nil, name@);
            assert(self@.scopes[env0 as int] == s1[env0 as int]);
            assert(lookup(self@.scopes[env0 as int].values, name@) is Some);
        }
        let _ = self.envs.assign(env0, &stmt.name, LiteralValue::Class(k));
        proof {
            let entries_v = method_entries(stmt.methods@, base as nat);
            let n = self@.functions.len();
            assert(n == base + stmt.methods@.len());
            assert forall|i: int| 0 <= i < entries_v.len() implies ((#[trigger] entries_v[i]).1 matches LiteralView::Func(
                h,
            ) && h < n) by {}
            lemma_bind_all_functions(entries_v, n);
            assert forall|i: int| st.functions.len() <= i < self@.functions.len() implies #[trigger] self@.functions[i].closure
                < self@.scopes.len() by {
                assert(self@.functions[i] == method_functions(stmt.methods@, menv)[i - st.functions.len()]);
                assert(stmt.methods@[i - st.functions.len()] is Function);
            }
            assert(wf_classes(self@.classes)) by {
                assert forall|i: int| 0 <= i < self@.classes.len() implies (#[trigger] self@.classes[i].superclass matches Some(e) ==> e < i) by {
                    if i < st.classes.len() {
                        assert(self@.classes[i] == st.classes[i]);
                    }
                }
            }
            lemma_grow(st, self@);
        }
        Ok(())
    }
}


/// Names joined with ", " between them.
pub open spec fn join_names(s: Seq<Seq<char>>) -> Seq<char>
    decreases s.len(),
{
    if s.len() == 0 {
        Seq::empty()
    } else if s.len() == 1 {
        s[0]
    } else {
        join_names(s.drop_last()) + ", "@ + s.last()
    }
}

/// How a class is shown: its name and the names of its own methods.
pub open spec fn class_text(c: LoxClassView) -> Seq<char> {
    "<Class "@ + c.name + " { "@ + join_names(c.methods.map_values(|p: (Seq<char>, LiteralView)| p.0))
        + " }>"@
}

/// How `print` shows a value other than a number: a string as it is,
/// `nil`, `true` and `false` by name, a function by its name, a class by
/// [`class_text`], an instance by its class, and a native function as
/// such. A number prints as the floating-point number it stands for, which
/// the caller writes.
pub open spec fn display_text(st: InterpreterView, v: LiteralView) -> Seq<char> {
    match v {
        LiteralView::Str(s) => s,
        LiteralView::Nil => "nil"@,
        LiteralView::Bool(b) => if b {
            "true"@
        } else {
            "false"@
        },
        LiteralView::Func(h) => st.functions[h as int].name.lexeme,
        LiteralView::Class(c) => class_text(st.classes[c as int]),
        LiteralView::Instance(i) => "<Instance of "@ + class_text(
            st.classes[st.instances[i as int].klass as int],
        ) + " instance"@,
        LiteralView::Native(_) => "<native fn>"@,
        _ => Seq::empty(),
    }
}

impl Interpreter {
    /// How class `c` is shown.
    fn class_string(&self, c: usize) -> (r: String)
        requires
            c < self@.classes.len(),
        ensures
            r@ == class_text(self@.classes[c as int]),
    {
        let class = self.classes.get(c);
        let names = class.method_names();
        let ghost ns = names@.map_values(|x: String| x@);
        let mut joined = String::new();
        let mut i: usize = 0;
        while i < names.len()
            invariant
                i <= names@.len(),
                ns == names@.map_values(|x: String| x@),
                joined@ == join_names(ns.take(i as int)),
            decreases names@.len() - i,
        {
            if i > 0 {
                joined.append(", ");
            }
            joined.append(names[i].as_str());
            proof {
                let t = ns.take(i + 1);
                assert(t.drop_last() =~= ns.take(i as int));
                assert(t.last() == names@[i as int]@);
                if i == 0 {
                    assert(ns.take(0) =~= Seq::<Seq<char>>::empty());
                }
            }
            i = i + 1;
        }
        assert(ns.take(i as int) =~= ns);
        let mut r = String::from_str("<Class ");
        r.append(class.name().as_str());
        r.append(" { ");
        r.append(joined.as_str());
        r.append(" }>");
        r
    }

    /// How `print` shows a value other than a number (see
    /// [`display_text`]).
    pub fn stringify(&self, v: &LiteralValue) -> (r: String)
        requires
            self.inv(),
            holds_value(self@, v@),
            !(v@ is Num),
            !(v@ is ArithmeticError),
            !(v@ is NumsOrStringsError),
        ensures
            r@ == display_text(self@, v@),
    {
        match v {
            LiteralValue::Str(s) => s.clone(),
            LiteralValue::Nil => String::from_str("nil"),
            LiteralValue::Bool(b) => if *b {
                String::from_str("true")
            } else {
                String::from_str("false")
            },
            LiteralValue::Func(h) => self.functions.get(*h).name().as_string(),
            LiteralValue::Class(c) => self.class_string(*c),
            LiteralValue::Instance(i) => {
                let k = self.instances.instance(*i).klass();
                let mut r = String::from_str("<Instance of ");
                r.append(self.class_string(k).as_str());
                r.append(" instance");
                r
            },
            LiteralValue::Native(_) => String::from_str("<native fn>"),
            _ => String::new(),
        }
    }
}

} // verus!
