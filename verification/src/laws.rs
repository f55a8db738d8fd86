use vstd::prelude::*;

use crate::entities::{LiteralView, TokenType, TokenView};
use crate::environment::{bind, define_in, lookup, resolve, value_of, wf_scopes, Scopes};
use crate::interpreter::{class_declared, interpreter_wf, InterpreterView};
use crate::lox_class::{class_arity, wf_classes, LoxClassView};
use crate::lox_function::{bind_params, call_scope_of, this_scope, LoxFunctionView};
use crate::lox_instance::{property_of, LoxInstanceView, PropertyView};
use crate::grammar::{
    adv, join, level_ops, lit, matches_any, ok_out, p_call, p_call_loop, p_expression, p_level,
    p_level_loop, p_operand, p_primary, p_unary, start_state, wf_tokens, PState,
};
use crate::ast::ExprV;
use crate::interpreter::{binary_rule, truthy, BinaryOutcomeView};
use crate::scanner::{
    digits_end, keyword_type, scan_from, scan_step, source_tokens, step_tokens, word_type,
};
use crate::text::is_digit;

verus! {

// ---------------------------------------------------------------------------
// Scanning
// ---------------------------------------------------------------------------

/// What holds of every token a scan produces (before the end-of-file token):
/// it is not an end-of-file token, an identifier is no keyword, a string's
/// literal is its text between the quotes, and a number's literal is its
/// text.
pub open spec fn scanned_token_ok(t: TokenView) -> bool {
    &&& t.token_type != TokenType::EOF
    &&& t.token_type == TokenType::IDENTIFIER ==> keyword_type(t.lexeme) is None
    &&& t.token_type == TokenType::STRING ==> t.lexeme.len() >= 2 && t.literal == Some(
        LiteralView::Str(t.lexeme.subrange(1, t.lexeme.len() - 1)),
    )
    &&& t.token_type == TokenType::NUMBER ==> t.literal == Some(LiteralView::Num(t.lexeme))
}

proof fn lemma_word_type(s: Seq<char>)
    ensures
        word_type(s) != TokenType::EOF,
        word_type(s) == TokenType::IDENTIFIER ==> keyword_type(s) is None,
        word_type(s) != TokenType::STRING,
        word_type(s) != TokenType::NUMBER,
{
}

proof fn lemma_step_tokens_ok(src: Seq<char>, pos: int, line: int)
    requires
        0 <= pos < src.len(),
    ensures
        forall|k: int|
            0 <= k < step_tokens(src, pos, scan_step(src, pos, line)).len() ==> scanned_token_ok(
                #[trigger] step_tokens(src, pos, scan_step(src, pos, line))[k],
            ),
{
    crate::scanner::lemma_scan_step(src, pos, line);
    let s = scan_step(src, pos, line);
    if s.token is Some {
        let t = step_tokens(src, pos, s)[0];
        if src[pos] == '"' {
            let q = crate::scanner::quote_index(src, pos + 1);
            crate::scanner::lemma_quote_index(src, pos + 1);
            assert(t.lexeme.subrange(1, t.lexeme.len() - 1) =~= src.subrange(pos + 1, q));
        }
        lemma_word_type(t.lexeme);
    }
}

/// Each step of scanning reads at least one character and stays within the
/// source, adds at most one token, and never lowers the line; so a scan
/// takes at most as many steps as the source has characters.
pub proof fn law_scan_step(src: Seq<char>, start: int, line: int)
    requires
        0 <= start < src.len(),
    ensures
        start < scan_step(src, start, line).end <= src.len(),
        step_tokens(src, start, scan_step(src, start, line)).len() <= 1,
        line <= scan_step(src, start, line).line,
{
    crate::scanner::lemma_scan_step(src, start, line);
}

/// Every token a scan produces is one that scanning can produce: no
/// end-of-file token, no identifier spelled like a keyword, and string and
/// number literals that agree with their text.
pub proof fn law_scanned_tokens(src: Seq<char>, pos: int, line: int)
    ensures
        forall|k: int|
            0 <= k < scan_from(src, pos, line).tokens.len() ==> scanned_token_ok(
                #[trigger] scan_from(src, pos, line).tokens[k],
            ),
    decreases src.len() - pos,
{
    if 0 <= pos < src.len() {
        let s = scan_step(src, pos, line);
        crate::scanner::lemma_scan_step(src, pos, line);
        if s.end > pos && s.end <= src.len() {
            law_scanned_tokens(src, s.end, s.line);
            lemma_step_tokens_ok(src, pos, line);
            let a = step_tokens(src, pos, s);
            let b = scan_from(src, s.end, s.line).tokens;
            assert forall|k: int| 0 <= k < (a + b).len() implies scanned_token_ok(
                #[trigger] (a + b)[k],
            ) by {
                if k < a.len() {
                    assert((a + b)[k] == a[k]);
                } else {
                    assert((a + b)[k] == b[k - a.len()]);
                }
            }
        }
    }
}

/// The line of every token a scan produces is at least the line the scan
/// started on, and lines never go down from one token to the next.
pub proof fn law_scanned_lines(src: Seq<char>, pos: int, line: int)
    requires
        0 <= line,
        line + src.len() - pos < usize::MAX,
    ensures
        forall|k: int|
            0 <= k < scan_from(src, pos, line).tokens.len() ==> line <= #[trigger] scan_from(
                src,
                pos,
                line,
            ).tokens[k].line <= scan_from(src, pos, line).line,
        forall|k: int|
            0 <= k < scan_from(src, pos, line).tokens.len() - 1 ==> #[trigger] scan_from(
                src,
                pos,
                line,
            ).tokens[k].line <= scan_from(src, pos, line).tokens[k + 1].line,
        line <= scan_from(src, pos, line).line,
    decreases src.len() - pos,
{
    if 0 <= pos < src.len() {
        let s = scan_step(src, pos, line);
        crate::scanner::lemma_scan_step(src, pos, line);
        if s.end > pos && s.end <= src.len() {
            law_scanned_lines(src, s.end, s.line);
            let a = step_tokens(src, pos, s);
            let b = scan_from(src, s.end, s.line).tokens;
            let all = scan_from(src, pos, line).tokens;
            assert(all == a + b);
            assert forall|k: int| 0 <= k < all.len() implies line <= #[trigger] all[k].line
                <= scan_from(src, pos, line).line by {
                if k < a.len() {
                    assert(all[k] == a[k]);
                } else {
                    assert(all[k] == b[k - a.len()]);
                }
            }
            assert forall|k: int| 0 <= k < all.len() - 1 implies #[trigger] all[k].line <= all[k
                + 1].line by {
                if k + 1 < a.len() {
                } else if k < a.len() {
                    assert(all[k] == a[k]);
                    assert(all[k + 1] == b[0]);
                } else {
                    assert(all[k] == b[k - a.len()]);
                    assert(all[k + 1] == b[k + 1 - a.len()]);
                }
            }
        }
    }
}

/// The tokens of any source end with the end-of-file token and hold no
/// other: they are tokens the parser runs over.
pub proof fn law_scan_feeds_parser(src: Seq<char>)
    ensures
        wf_tokens(source_tokens(src)),
        forall|k: int|
            0 <= k < source_tokens(src).len() - 1 ==> #[trigger] source_tokens(src)[k].token_type
                != TokenType::EOF,
{
    law_scanned_tokens(src, 0, 1);
    let o = scan_from(src, 0, 1);
    assert forall|k: int| 0 <= k < source_tokens(src).len() - 1 implies #[trigger] source_tokens(
        src,
    )[k].token_type != TokenType::EOF by {
        assert(source_tokens(src)[k] == o.tokens[k]);
        assert(scanned_token_ok(o.tokens[k]));
    }
}

// ---------------------------------------------------------------------------
// Scopes
// ---------------------------------------------------------------------------

proof fn lemma_resolve_unchanged(s: Scopes, i: int, name: Seq<char>, v: LiteralView, j: int, other: Seq<char>)
    requires
        wf_scopes(s),
        0 <= i < s.len(),
        other != name || j < i,
    ensures
        resolve(define_in(s, i, name, v), j, other) == resolve(s, j, other),
        value_of(define_in(s, i, name, v), j, other) == value_of(s, j, other),
    decreases j,
{
    let t = define_in(s, i, name, v);
    if 0 <= j < s.len() {
        if j == i {
            crate::environment::lemma_bind(s[i].values, name, v, other);
        }
        if lookup(s[j].values, other) is None {
            if let Some(e) = s[j].enclosing {
                if 0 <= e < j {
                    lemma_resolve_unchanged(s, i, name, v, e as int, other);
                }
            }
        }
        crate::environment::lemma_bind(s[i].values, name, v, other);
    }
}

/// A variable defined in a scope has, seen from that scope, the value it
/// was defined with.
pub proof fn law_get_after_define(s: Scopes, i: int, name: Seq<char>, v: LiteralView)
    requires
        wf_scopes(s),
        0 <= i < s.len(),
    ensures
        value_of(define_in(s, i, name, v), i, name) == Some(v),
{
    crate::environment::lemma_bind(s[i].values, name, v, name);
}

/// Defining a variable changes, from any scope, the value of no other
/// name; and it changes nothing that a scope older than the one defined in
/// (as every scope it encloses is) sees.
pub proof fn law_define_leaves_others(
    s: Scopes,
    i: int,
    name: Seq<char>,
    v: LiteralView,
    j: int,
    other: Seq<char>,
)
    requires
        wf_scopes(s),
        0 <= i < s.len(),
        other != name || j < i,
    ensures
        value_of(define_in(s, i, name, v), j, other) == value_of(s, j, other),
{
    lemma_resolve_unchanged(s, i, name, v, j, other);
}

/// Assigning a variable that a scope sees gives it, from that scope, the
/// assigned value.
pub proof fn law_get_after_assign(s: Scopes, i: int, name: Seq<char>, v: LiteralView)
    requires
        wf_scopes(s),
        0 <= i < s.len(),
        resolve(s, i, name) is Some,
    ensures
        value_of(define_in(s, resolve(s, i, name)->Some_0, name, v), i, name) == Some(v),
    decreases i,
{
    let j = resolve(s, i, name)->Some_0;
    crate::environment::lemma_resolve_bound(s, i, name);
    crate::environment::lemma_bind(s[j].values, name, v, name);
    if j != i {
        let t = define_in(s, j, name, v);
        assert(lookup(s[i].values, name) is None);
        assert(t[i] == s[i]);
        let e = s[i].enclosing->Some_0;
        assert(resolve(s, e as int, name) == resolve(s, i, name));
        law_get_after_assign(s, e as int, name, v);
        assert(resolve(t, i, name) == resolve(t, e as int, name));
    }
}

// ---------------------------------------------------------------------------
// Values
// ---------------------------------------------------------------------------

/// The pairs of operands whose comparison is not the value rule's alone:
/// two numbers (compared as floating point), or two functions or two
/// classes (compared by identity whatever the operator).
pub open spec fn compared_elsewhere(a: LiteralView, b: LiteralView) -> bool {
    ||| (a is Num && b is Num)
    ||| (a is Func && b is Func)
    ||| (a is Class && b is Class)
}

/// `==` and `!=` always give a boolean, `!=` the opposite of `==` (except
/// for two numbers, two functions or two classes), and `==` does not depend
/// on the order of the operands (except for two numbers).
pub proof fn law_equality(a: LiteralView, b: LiteralView)
    ensures
        !(a is Num && b is Num) ==> binary_rule(TokenType::EQUAL_EQUAL, a, b) == binary_rule(
            TokenType::EQUAL_EQUAL,
            b,
            a,
        ),
        !compared_elsewhere(a, b) ==> (binary_rule(TokenType::EQUAL_EQUAL, a, b) matches Ok(
            BinaryOutcomeView::Value(LiteralView::Bool(x)),
        ) && binary_rule(TokenType::BANG_EQUAL, a, b) == Ok::<
            BinaryOutcomeView,
            crate::interpreter::OperandError,
        >(BinaryOutcomeView::Value(LiteralView::Bool(!x)))),
{
}


// ---------------------------------------------------------------------------
// Instances, methods and classes
// ---------------------------------------------------------------------------

/// A field read right after it was set gives the value it was set to,
/// whatever methods the class has.
pub proof fn law_get_after_set(
    classes: Seq<LoxClassView>,
    inst: LoxInstanceView,
    name: TokenView,
    v: LiteralView,
)
    ensures
        property_of(
            classes,
            LoxInstanceView { klass: inst.klass, fields: bind(inst.fields, name.lexeme, v) },
            name,
        ) == Ok::<PropertyView, crate::errors::LoxResultView>(PropertyView::Field(v)),
{
    crate::environment::lemma_bind(inst.fields, name.lexeme, v, name.lexeme);
}

/// Setting a field leaves every other field as it was.
pub proof fn law_set_leaves_other_fields(
    inst: LoxInstanceView,
    name: Seq<char>,
    v: LiteralView,
    other: Seq<char>,
)
    requires
        other != name,
    ensures
        lookup(bind(inst.fields, name, v), other) == lookup(inst.fields, other),
{
    crate::environment::lemma_bind(inst.fields, name, v, other);
}

/// In the scope made to bind a method to an instance, `this` is that
/// instance.
pub proof fn law_bound_method_sees_this(s: Scopes, this: LiteralView, closure: usize)
    requires
        wf_scopes(s),
        closure < s.len(),
    ensures
        value_of(s.push(this_scope(this, closure)), s.len() as int, "this"@) == Some(this),
{
    let t = s.push(this_scope(this, closure));
    crate::environment::lemma_bind(Seq::empty(), "this"@, this, "this"@);
    assert(t[s.len() as int] == this_scope(this, closure));
}

/// Once a class is declared, its name is bound to the new class in the
/// scope the declaration ran in.
pub proof fn law_class_declared_binds_name(
    st: InterpreterView,
    stmt: crate::ast::ClassStmt,
    sup: Option<usize>,
)
    requires
        interpreter_wf(st),
    ensures
        lookup(
            class_declared(st, stmt, sup).scopes[st.environment as int].values,
            stmt.name.lexeme@,
        ) == Some(LiteralView::Class(st.classes.len() as usize)),
{
    let env0 = st.environment as int;
    let name = stmt.name.lexeme@;
    let s1 = define_in(st.scopes, env0, name, LiteralView::Nil);
    let s2 = match sup {
        Some(c) => s1.push(
            crate::environment::EnvironmentView {
                values: bind(Seq::empty(), "super"@, LiteralView::Class(c)),
                enclosing: Some(st.environment),
            },
        ),
        None => s1,
    };
    crate::environment::lemma_bind(
        s2[env0].values,
        name,
        LiteralView::Class(st.classes.len() as usize),
        name,
    );
}


proof fn lemma_params_bound(params: Seq<TokenView>, args: Seq<LiteralView>, n: nat, i: int)
    requires
        n <= params.len(),
        n <= args.len(),
        0 <= i < n,
        forall|j: int, k: int|
            0 <= j < params.len() && 0 <= k < params.len() && j != k ==> #[trigger] params[j].lexeme
                != #[trigger] params[k].lexeme,
    ensures
        lookup(bind_params(params, args, n), params[i].lexeme) == Some(args[i]),
    decreases n,
{
    let m = (n - 1) as nat;
    if i == m {
        crate::environment::lemma_bind(bind_params(params, args, m), params[m as int].lexeme, args[m as int], params[i].lexeme);
    } else {
        lemma_params_bound(params, args, m, i);
        assert(params[i].lexeme != params[m as int].lexeme);
        crate::environment::lemma_bind(bind_params(params, args, m), params[m as int].lexeme, args[m as int], params[i].lexeme);
    }
}

/// In the scope a call runs in, each parameter is bound to its argument
/// (where the call has as many arguments as there are parameters, and the
/// parameters have different names).
pub proof fn law_parameters_bound(f: LoxFunctionView, args: Seq<LiteralView>, i: int)
    requires
        args.len() == f.params.len(),
        0 <= i < f.params.len(),
        forall|j: int, k: int|
            0 <= j < f.params.len() && 0 <= k < f.params.len() && j != k ==> #[trigger] f.params[j].lexeme
                != #[trigger] f.params[k].lexeme,
    ensures
        lookup(call_scope_of(f, args).values, f.params[i].lexeme) == Some(args[i]),
{
    lemma_params_bound(f.params, args, f.params.len(), i);
}


// ---------------------------------------------------------------------------
// Bindings
// ---------------------------------------------------------------------------

/// No name is bound twice.
pub open spec fn distinct_names(b: crate::environment::Bindings) -> bool {
    forall|i: int, j: int| 0 <= i < j < b.len() ==> #[trigger] b[i].0 != #[trigger] b[j].0
}

proof fn lemma_bind_names(b: crate::environment::Bindings, name: Seq<char>, v: LiteralView, k: int)
    requires
        0 <= k < bind(b, name, v).len(),
    ensures
        bind(b, name, v)[k].0 == name || exists|i: int| 0 <= i < b.len() && #[trigger] b[i].0 == bind(b, name, v)[k].0,
    decreases b.len(),
{
    if b.len() > 0 && b[0].0 != name {
        let r = bind(b, name, v);
        let d = b.drop_first();
        if k > 0 {
            lemma_bind_names(d, name, v, k - 1);
            assert(r[k] == bind(d, name, v)[k - 1]);
            if bind(d, name, v)[k - 1].0 != name {
                let i = choose|i: int| 0 <= i < d.len() && #[trigger] d[i].0 == bind(d, name, v)[k - 1].0;
                assert(b[i + 1] == d[i]);
            }
        } else {
            assert(r[0] == b[0]);
        }
    } else if b.len() > 0 {
        if k > 0 {
            assert(bind(b, name, v)[k] == b[k]);
        }
    }
}

/// Binding a name keeps the names of a scope distinct: a name already bound
/// takes the new value in place, and a new name is added once.
pub proof fn law_bind_keeps_names_distinct(b: crate::environment::Bindings, name: Seq<char>, v: LiteralView)
    requires
        distinct_names(b),
    ensures
        distinct_names(bind(b, name, v)),
    decreases b.len(),
{
    let r = bind(b, name, v);
    if b.len() == 0 {
    } else if b[0].0 == name {
        assert forall|i: int, j: int| 0 <= i < j < r.len() implies #[trigger] r[i].0 != #[trigger] r[j].0 by {
            assert(r[j] == b[j]);
            if i > 0 {
                assert(r[i] == b[i]);
            } else {
                assert(b[0].0 != b[j].0);
            }
        }
    } else {
        let d = b.drop_first();
        assert forall|i: int, j: int| 0 <= i < j < d.len() implies #[trigger] d[i].0 != #[trigger] d[j].0 by {
            assert(d[i] == b[i + 1] && d[j] == b[j + 1]);
        }
        law_bind_keeps_names_distinct(d, name, v);
        let t = bind(d, name, v);
        assert forall|i: int, j: int| 0 <= i < j < r.len() implies #[trigger] r[i].0 != #[trigger] r[j].0 by {
            assert(r[j] == t[j - 1]);
            if i > 0 {
                assert(r[i] == t[i - 1]);
            } else {
                assert(r[0] == b[0]);
                lemma_bind_names(d, name, v, j - 1);
                if t[j - 1].0 != name {
                    let k = choose|k: int| 0 <= k < d.len() && #[trigger] d[k].0 == t[j - 1].0;
                    assert(d[k] == b[k + 1]);
                }
            }
        }
    }
}


/// `==` on two strings or two booleans says whether they are the same
/// value, and `!=` whether they differ.
pub proof fn law_equality_of_strings_and_booleans(a: LiteralView, b: LiteralView)
    requires
        (a is Str && b is Str) || (a is Bool && b is Bool),
    ensures
        binary_rule(TokenType::EQUAL_EQUAL, a, b) == Ok::<
            BinaryOutcomeView,
            crate::interpreter::OperandError,
        >(BinaryOutcomeView::Value(LiteralView::Bool(a == b))),
        binary_rule(TokenType::BANG_EQUAL, a, b) == Ok::<
            BinaryOutcomeView,
            crate::interpreter::OperandError,
        >(BinaryOutcomeView::Value(LiteralView::Bool(a != b))),
{
}

/// A string, boolean, `nil`, function or class is equal to itself; and a
/// string, boolean or `nil` is not unequal to itself.
pub proof fn law_equality_is_reflexive(v: LiteralView)
    requires
        v is Str || v is Bool || v is Nil || v is Func || v is Class,
    ensures
        binary_rule(TokenType::EQUAL_EQUAL, v, v) == Ok::<
            BinaryOutcomeView,
            crate::interpreter::OperandError,
        >(BinaryOutcomeView::Value(LiteralView::Bool(true))),
        !(v is Func || v is Class) ==> binary_rule(TokenType::BANG_EQUAL, v, v) == Ok::<
            BinaryOutcomeView,
            crate::interpreter::OperandError,
        >(BinaryOutcomeView::Value(LiteralView::Bool(false))),
{
}

/// Only `nil` and `false` count as false: every other value, instances,
/// functions, classes, numbers and strings included, counts as true.
pub proof fn law_truthiness(v: LiteralView)
    ensures
        !truthy(LiteralView::Nil),
        !truthy(LiteralView::Bool(false)),
        (v != LiteralView::Nil && v != LiteralView::Bool(false)) ==> truthy(v),
{
}

/// A class with its own `init` function takes as many arguments as that
/// function has parameters.
pub proof fn law_class_arity_own_init(
    classes: Seq<LoxClassView>,
    functions: Seq<LoxFunctionView>,
    c: int,
    h: usize,
)
    requires
        wf_classes(classes),
        0 <= c < classes.len(),
        lookup(classes[c].methods, "init"@) == Some(LiteralView::Func(h)),
        h < functions.len(),
    ensures
        class_arity(classes, functions, c) == functions[h as int].params.len(),
{
}

/// A class without an `init` of its own takes as many arguments as its
/// superclass does (it inherits the initializer), and none where it has no
/// superclass.
pub proof fn law_class_arity_inherited(
    classes: Seq<LoxClassView>,
    functions: Seq<LoxFunctionView>,
    c: int,
)
    requires
        wf_classes(classes),
        0 <= c < classes.len(),
        lookup(classes[c].methods, "init"@) is None,
    ensures
        classes[c].superclass matches Some(s) ==> class_arity(classes, functions, c) == class_arity(
            classes,
            functions,
            s as int,
        ),
        classes[c].superclass is None ==> class_arity(classes, functions, c) == 0,
{
    if let Some(s) = classes[c].superclass {
        assert(s < c);
    }
}


/// The run of digits from `pos` is digits up to its end, which is the end of
/// the source or a character that is no digit.
proof fn lemma_digit_run(src: Seq<char>, pos: int)
    requires
        0 <= pos <= src.len(),
    ensures
        pos <= digits_end(src, pos) <= src.len(),
        forall|i: int| pos <= i < digits_end(src, pos) ==> is_digit(#[trigger] src[i]),
        digits_end(src, pos) == src.len() || !is_digit(src[digits_end(src, pos)]),
    decreases src.len() - pos,
{
    if pos < src.len() && is_digit(src[pos]) {
        lemma_digit_run(src, pos + 1);
    }
}

/// A number token takes all it can: it starts at a digit, holds only
/// digits and at most one `.` (followed by a digit), and what follows it is
/// no digit, nor a `.` and a digit after a token without a `.`. Its literal
/// is its text.
pub proof fn law_number_token_maximal(src: Seq<char>, start: int, line: int)
    requires
        0 <= start < src.len(),
        is_digit(src[start]),
    ensures
        ({
            let s = scan_step(src, start, line);
            &&& s.token == Some(TokenType::NUMBER)
            &&& s.literal == Some(LiteralView::Num(src.subrange(start, s.end)))
            &&& start < s.end <= src.len()
            &&& is_digit(src[s.end - 1])
            &&& forall|i: int| start <= i < s.end ==> (is_digit(#[trigger] src[i]) || src[i] == '.')
            &&& s.end == src.len() || !is_digit(src[s.end])
            &&& (forall|i: int| start <= i < s.end ==> is_digit(#[trigger] src[i])) ==> !(s.end + 1
                < src.len() && src[s.end] == '.' && is_digit(src[s.end + 1]))
        }),
{
    lemma_digit_run(src, start + 1);
    let e = digits_end(src, start + 1);
    if e + 1 < src.len() && src[e] == '.' && is_digit(src[e + 1]) {
        lemma_digit_run(src, e + 1);
        let s = scan_step(src, start, line);
        assert(!is_digit(src[e]));
        assert(start <= e < s.end);
    }
}

/// A source that is one numeral with a fraction (digits, a `.`, digits)
/// scans to one number token whose text and literal are the whole source.
pub proof fn law_decimal_numeral_is_one_token(src: Seq<char>, k: int)
    requires
        0 < k < src.len() - 1,
        src[k] == '.',
        forall|i: int| 0 <= i < src.len() && i != k ==> is_digit(#[trigger] src[i]),
    ensures
        scan_from(src, 0, 1).tokens == seq![
            TokenView {
                token_type: TokenType::NUMBER,
                lexeme: src,
                line: 1,
                literal: Some(LiteralView::Num(src)),
            },
        ],
        scan_from(src, 0, 1).failure is None,
{
    lemma_digit_run(src, 1);
    let e = digits_end(src, 1);
    if e < k {
        assert(is_digit(src[e]));
    }
    assert(e == k);
    lemma_digit_run(src, k + 1);
    let f = digits_end(src, k + 1);
    if f < src.len() {
        assert(is_digit(src[f]));
    }
    assert(f == src.len());
    let s = scan_step(src, 0, 1);
    assert(s.end == src.len());
    assert(src.subrange(0, src.len() as int) =~= src);
    assert(scan_from(src, s.end, s.line).tokens == Seq::<TokenView>::empty());
    assert(step_tokens(src, 0, s) == seq![
        TokenView {
            token_type: TokenType::NUMBER,
            lexeme: src,
            line: 1,
            literal: Some(LiteralView::Num(src)),
        },
    ]);
    assert(seq![
        TokenView {
            token_type: TokenType::NUMBER,
            lexeme: src,
            line: 1,
            literal: Some(LiteralView::Num(src)),
        },
    ] + Seq::<TokenView>::empty() =~= seq![
        TokenView {
            token_type: TokenType::NUMBER,
            lexeme: src,
            line: 1,
            literal: Some(LiteralView::Num(src)),
        },
    ]);
}


/// The precedence level of each binary operator: 0 for `*` and `/`, 1 for
/// `+` and `-`, 2 for the comparisons, 3 for the equalities.
pub open spec fn binary_level(t: TokenType) -> nat {
    if t == TokenType::STAR || t == TokenType::SLASH {
        0
    } else if t == TokenType::PLUS || t == TokenType::MINUS {
        1
    } else if t == TokenType::GREATER || t == TokenType::GREATER_EQUAL || t == TokenType::LESS
        || t == TokenType::LESS_EQUAL {
        2
    } else {
        3
    }
}

/// The ten binary operators.
pub open spec fn is_binary_op(t: TokenType) -> bool {
    ||| t == TokenType::STAR
    ||| t == TokenType::SLASH
    ||| t == TokenType::PLUS
    ||| t == TokenType::MINUS
    ||| t == TokenType::GREATER
    ||| t == TokenType::GREATER_EQUAL
    ||| t == TokenType::LESS
    ||| t == TokenType::LESS_EQUAL
    ||| t == TokenType::BANG_EQUAL
    ||| t == TokenType::EQUAL_EQUAL
}

/// Each binary operator is an operator of its own level and of no other.
proof fn lemma_operator_levels(t: TokenType, k: nat)
    requires
        is_binary_op(t),
        k <= 5,
    ensures
        level_ops(k).contains(t) <==> k == binary_level(t),
{
    let s = level_ops(k);
    if k == binary_level(t) {
        if t == TokenType::SLASH || t == TokenType::GREATER || t == TokenType::BANG_EQUAL || t
            == TokenType::MINUS {
            assert(s[0] == t);
        } else if t == TokenType::STAR || t == TokenType::GREATER_EQUAL || t
            == TokenType::EQUAL_EQUAL || t == TokenType::PLUS {
            assert(s[1] == t);
        } else if t == TokenType::LESS {
            assert(s[2] == t);
        } else {
            assert(s[3] == t);
        }
    } else {
        assert forall|i: int| 0 <= i < s.len() implies s[i] != t by {}
    }
}

/// A number token followed by neither a call nor a property access parses
/// as a unary expression to its literal.
proof fn lemma_number_unary(t: Seq<TokenView>, st: PState)
    requires
        0 <= st.pos < t.len() - 1,
        t[st.pos].token_type == TokenType::NUMBER,
        t[st.pos + 1].token_type != TokenType::LEFT_PAREN,
        t[st.pos + 1].token_type != TokenType::DOT,
    ensures
        p_unary(t, st) == ok_out(adv(t, st), lit(t[st.pos].literal)),
        adv(t, st).pos == st.pos + 1,
{
    let s1 = adv(t, st);
    assert(p_primary(t, st) == ok_out(s1, lit(t[st.pos].literal)));
    assert(p_call_loop(t, s1, lit(t[st.pos].literal)) == ok_out(s1, lit(t[st.pos].literal)));
    assert(p_call(t, st) == ok_out(s1, lit(t[st.pos].literal)));
}

/// A number token followed by neither a call, a property access nor an
/// operator of the levels up to `k` parses at level `k` to its literal.
proof fn lemma_number_operand(t: Seq<TokenView>, st: PState, k: nat)
    requires
        0 <= st.pos < t.len() - 1,
        t[st.pos].token_type == TokenType::NUMBER,
        t[st.pos + 1].token_type != TokenType::LEFT_PAREN,
        t[st.pos + 1].token_type != TokenType::DOT,
        forall|i: nat| i <= k ==> !matches_any(t, adv(t, st), #[trigger] level_ops(i)),
    ensures
        p_level(t, st, k) == ok_out(adv(t, st), lit(t[st.pos].literal)),
    decreases k,
{
    lemma_number_unary(t, st);
    if k > 0 {
        lemma_number_operand(t, st, (k - 1) as nat);
    }
    assert(!matches_any(t, adv(t, st), level_ops(k)));
}

/// From the state after the first operand, the levels from `j` up to `k`
/// leave the parsed binary expression as it is.
proof fn lemma_levels_above(t: Seq<TokenView>, s0: PState, s3: PState, e: ExprV, j: nat, k: nat)
    requires
        j <= k <= 5,
        s0.pos < s3.pos < t.len(),
        p_level(t, s0, j) == ok_out(s3, e),
        forall|i: nat| i <= 5 ==> !matches_any(t, s3, #[trigger] level_ops(i)),
    ensures
        p_level(t, s0, k) == ok_out(s3, e),
    decreases k - j,
{
    if k > j {
        lemma_levels_above(t, s0, s3, e, j, (k - 1) as nat);
        assert(!matches_any(t, s3, level_ops(k)));
    }
}

/// Two numbers joined by a binary operator parse to the binary expression
/// of that operator with the two literals, reading all three tokens and
/// reporting nothing; this holds of every binary operator.
pub proof fn law_binary_operators_parse(a: TokenView, op: TokenView, b: TokenView, eof: TokenView)
    requires
        a.token_type == TokenType::NUMBER,
        b.token_type == TokenType::NUMBER,
        eof.token_type == TokenType::EOF,
        is_binary_op(op.token_type),
    ensures
        p_expression(seq![a, op, b, eof], start_state()) == ok_out(
            PState { pos: 3, had_error: false, reports: Seq::empty() },
            ExprV::Binary {
                left: Box::new(lit(a.literal)),
                operator: op,
                right: Box::new(lit(b.literal)),
            },
        ),
{
    let t = seq![a, op, b, eof];
    let s0 = start_state();
    let s1 = adv(t, s0);
    let s2 = adv(t, s1);
    let s3 = adv(t, s2);
    let j = binary_level(op.token_type);
    assert(s3 == PState { pos: 3, had_error: false, reports: Seq::<crate::errors::LoxResultView>::empty() });
    assert forall|i: nat| i <= 5 implies !matches_any(t, s3, #[trigger] level_ops(i)) by {}
    assert forall|i: nat| i < j implies !matches_any(t, s1, #[trigger] level_ops(i)) by {
        lemma_operator_levels(op.token_type, i);
    }
    lemma_operator_levels(op.token_type, j);
    assert(matches_any(t, s1, level_ops(j)));
    let e = ExprV::Binary {
        left: Box::new(lit(a.literal)),
        operator: op,
        right: Box::new(lit(b.literal)),
    };
    // the second operand, at the operand level of `j`
    assert forall|i: nat| i <= 5 implies !matches_any(t, adv(t, s2), #[trigger] level_ops(i)) by {}
    lemma_number_unary(t, s0);
    lemma_number_unary(t, s2);
    if j == 0 {
    } else {
        lemma_number_operand(t, s2, (j - 1) as nat);
        assert forall|i: nat| i <= (j - 1) as nat implies !matches_any(
            t,
            adv(t, s0),
            #[trigger] level_ops(i),
        ) by {
            lemma_operator_levels(op.token_type, i);
        }
        lemma_number_operand(t, s0, (j - 1) as nat);
    }
    let la = lit(a.literal);
    let lb = lit(b.literal);
    assert(p_operand(t, s0, j) == ok_out(s1, la));
    assert(p_operand(t, s2, j) == ok_out(s3, lb));
    assert(join(j, la, op, lb) == e);
    assert(!matches_any(t, s3, level_ops(j)));
    assert(p_level_loop(t, s3, j, e) == ok_out(s3, e));
    assert(p_level_loop(t, s1, j, la) == ok_out(s3, e));
    assert(p_level(t, s0, j) == ok_out(s3, e));
    lemma_levels_above(t, s0, s3, e, j, 5);
}

} // verus!
