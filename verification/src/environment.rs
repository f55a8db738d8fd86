use vstd::prelude::*;

use crate::entities::{LiteralValue, LiteralView, Token};
use crate::errors::{LoxResult, LoxResultView};
use crate::text::str_eq;

verus! {

/// The bindings of a scope, in the order they were made; a name is bound to
/// the value of its first entry.
pub type Bindings = Seq<(Seq<char>, LiteralView)>;

/// The value that `name` is bound to in `b`, if any.
pub open spec fn lookup(b: Bindings, name: Seq<char>) -> Option<LiteralView>
    decreases b.len(),
{
    if b.len() == 0 {
        None
    } else if b[0].0 == name {
        Some(b[0].1)
    } else {
        lookup(b.drop_first(), name)
    }
}

/// One scope: its bindings, and the scope that encloses it (by handle).
#[derive(Debug)]
pub struct Environment {
    values: Vec<(String, LiteralValue)>,
    enclosing: Option<usize>,
}

/// The model of an [`Environment`].
pub struct EnvironmentView {
    pub values: Bindings,
    pub enclosing: Option<usize>,
}

/// The model of a binding.
pub open spec fn binding_view(p: (String, LiteralValue)) -> (Seq<char>, LiteralView) {
    (p.0@, p.1@)
}

impl View for Environment {
    type V = EnvironmentView;

    closed spec fn view(&self) -> EnvironmentView {
        EnvironmentView {
            values: self.values@.map_values(|p: (String, LiteralValue)| binding_view(p)),
            enclosing: self.enclosing,
        }
    }
}

/// The bindings after binding `name` to `v`: a binding of `name` already
/// there takes the new value, and otherwise the binding is added.
pub open spec fn bind(b: Bindings, name: Seq<char>, v: LiteralView) -> Bindings
    decreases b.len(),
{
    if b.len() == 0 {
        seq![(name, v)]
    } else if b[0].0 == name {
        b.update(0, (name, v))
    } else {
        seq![b[0]] + bind(b.drop_first(), name, v)
    }
}

/// Binding a name gives it the value, and leaves every other name as it was.
pub proof fn lemma_bind(b: Bindings, name: Seq<char>, v: LiteralView, other: Seq<char>)
    ensures
        lookup(bind(b, name, v), name) == Some(v),
        other != name ==> lookup(bind(b, name, v), other) == lookup(b, other),
    decreases b.len(),
{
    if b.len() == 0 {
        let e = Seq::<(Seq<char>, LiteralView)>::empty();
        assert(seq![(name, v)].drop_first() =~= e);
        assert(lookup(e, other) is None);
    } else if b[0].0 == name {
        assert(b.update(0, (name, v)).drop_first() =~= b.drop_first());
        if other != name {
            assert(lookup(b, other) == lookup(b.drop_first(), other));
        }
    } else {
        lemma_bind(b.drop_first(), name, v, other);
        assert((seq![b[0]] + bind(b.drop_first(), name, v)).drop_first() =~= bind(
            b.drop_first(),
            name,
            v,
        ));
        assert((seq![b[0]] + bind(b.drop_first(), name, v))[0] == b[0]);
    }
}

impl Environment {
    /// A scope with no bindings and no enclosing scope.
    pub fn new() -> (r: Environment)
        ensures
            r@.values == Seq::<(Seq<char>, LiteralView)>::empty(),
            r@.enclosing is None,
    {
        let r = Environment { values: Vec::new(), enclosing: None };
        assert(r@.values =~= Seq::<(Seq<char>, LiteralView)>::empty());
        r
    }

    /// A scope with no bindings, enclosed by the scope `enclosing`.
    pub fn new_with_enclosing(enclosing: usize) -> (r: Environment)
        ensures
            r@.values == Seq::<(Seq<char>, LiteralView)>::empty(),
            r@.enclosing == Some(enclosing),
    {
        let r = Environment { values: Vec::new(), enclosing: Some(enclosing) };
        assert(r@.values =~= Seq::<(Seq<char>, LiteralView)>::empty());
        r
    }

    /// The scope that encloses this one.
    pub fn enclosing(&self) -> (r: Option<usize>)
        ensures
            r == self@.enclosing,
    {
        self.enclosing
    }

    /// The position of the first binding of `name` at or after `from`.
    fn position(&self, name: &str) -> (r: Option<usize>)
        ensures
            match r {
                Some(i) => i < self@.values.len() && self@.values[i as int].0 == name@
                    && lookup(self@.values, name@) == Some(self@.values[i as int].1) && (forall|
                    j: int,
                | 0 <= j < i ==> self@.values[j].0 != name@),
                None => lookup(self@.values, name@) is None,
            },
    {
        let ghost b = self@.values;
        let mut i: usize = 0;
        assert(b.skip(0) =~= b);
        while i < self.values.len()
            invariant
                forall|j: int| 0 <= j < i ==> b[j].0 != name@,
                b == self@.values,
                b.len() == self.values@.len(),
                i <= b.len(),
                lookup(b, name@) == lookup(b.skip(i as int), name@),
            decreases self.values@.len() - i,
        {
            assert(b.skip(i as int)[0] == binding_view(self.values@[i as int]));
            assert(b.skip(i as int).drop_first() =~= b.skip(i + 1));
            if str_eq(self.values[i].0.as_str(), name) {
                return Some(i);
            }
            i = i + 1;
        }
        assert(b.skip(i as int).len() == 0);
        None
    }

    /// The value `name` is bound to here, if any.
    pub fn lookup(&self, name: &str) -> (r: Option<LiteralValue>)
        ensures
            match r {
                Some(v) => lookup(self@.values, name@) == Some(v@),
                None => lookup(self@.values, name@) is None,
            },
    {
        match self.position(name) {
            Some(i) => Some(self.values[i].1.dup()),
            None => None,
        }
    }

    /// The names bound here, in the order they were first bound.
    pub fn names(&self) -> (r: Vec<String>)
        ensures
            r@.map_values(|x: String| x@) == self@.values.map_values(
                |p: (Seq<char>, LiteralView)| p.0,
            ),
    {
        let mut r: Vec<String> = Vec::new();
        let mut i: usize = 0;
        while i < self.values.len()
            invariant
                i <= self.values@.len(),
                self@.values.len() == self.values@.len(),
                r@.len() == i,
                forall|j: int| 0 <= j < i ==> (#[trigger] r@[j])@ == self@.values[j].0,
            decreases self.values@.len() - i,
        {
            let name = self.values[i].0.clone();
            assert(self@.values[i as int].0 == self.values@[i as int].0@);
            r.push(name);
            i = i + 1;
        }
        assert(r@.map_values(|x: String| x@) =~= self@.values.map_values(
            |p: (Seq<char>, LiteralView)| p.0,
        ));
        r
    }

    /// Binds `name` to `value` here.
    pub fn define(&mut self, name: &str, value: LiteralValue)
        ensures
            final(self)@.values == bind(old(self)@.values, name@, value@),
            final(self)@.enclosing == old(self)@.enclosing,
    {
        let ghost b = self@.values;
        let ghost v = value@;
        match self.position(name) {
            Some(i) => {
                proof {
                    lemma_bind_at(b, name@, v, i as int);
                }
                self.values.set(i, (String::from_str(name), value));
                assert(self@.values =~= b.update(i as int, (name@, v)));
            },
            None => {
                proof {
                    lemma_bind_absent(b, name@, v);
                }
                self.values.push((String::from_str(name), value));
                assert(self@.values =~= b.push((name@, v)));
            },
        }
    }
}

proof fn lemma_bind_at(b: Bindings, name: Seq<char>, v: LiteralView, i: int)
    requires
        0 <= i < b.len(),
        b[i].0 == name,
        forall|j: int| 0 <= j < i ==> b[j].0 != name,
    ensures
        bind(b, name, v) == b.update(i, (name, v)),
    decreases i,
{
    if i > 0 {
        lemma_bind_at(b.drop_first(), name, v, i - 1);
        assert(seq![b[0]] + b.drop_first().update(i - 1, (name, v)) =~= b.update(i, (name, v)));
    }
}

proof fn lemma_bind_absent(b: Bindings, name: Seq<char>, v: LiteralView)
    requires
        lookup(b, name) is None,
    ensures
        bind(b, name, v) == b.push((name, v)),
    decreases b.len(),
{
    if b.len() > 0 {
        lemma_bind_absent(b.drop_first(), name, v);
        assert(seq![b[0]] + b.drop_first().push((name, v)) =~= b.push((name, v)));
    } else {
        assert(seq![(name, v)] =~= b.push((name, v)));
    }
}

/// The scopes of a run. A scope is known by its handle, its index here;
/// every scope's enclosing scope has a smaller handle, so the chain of
/// enclosing scopes always ends.
#[derive(Debug)]
pub struct Environments {
    scopes: Vec<Environment>,
}

/// The scopes of a run, as models.
pub type Scopes = Seq<EnvironmentView>;

/// Every enclosing scope has a smaller handle.
pub open spec fn wf_scopes(s: Scopes) -> bool {
    forall|i: int| 0 <= i < s.len() ==> (#[trigger] s[i].enclosing matches Some(e) ==> e < i)
}

/// The innermost scope on the chain from scope `i` outwards that binds
/// `name`, if any.
pub open spec fn resolve(s: Scopes, i: int, name: Seq<char>) -> Option<int>
    decreases i,
{
    if !(0 <= i < s.len()) {
        None
    } else if lookup(s[i].values, name) is Some {
        Some(i)
    } else {
        match s[i].enclosing {
            Some(e) => if 0 <= e < i {
                resolve(s, e as int, name)
            } else {
                None
            },
            None => None,
        }
    }
}

/// The value of `name` seen from scope `i`: its binding in the innermost
/// scope that binds it.
pub open spec fn value_of(s: Scopes, i: int, name: Seq<char>) -> Option<LiteralView> {
    match resolve(s, i, name) {
        Some(j) => lookup(s[j].values, name),
        None => None,
    }
}

/// The scope `d` steps out from scope `i`, if the chain is that long.
pub open spec fn ancestor(s: Scopes, i: int, d: nat) -> Option<int>
    decreases d,
{
    if !(0 <= i < s.len()) {
        None
    } else if d == 0 {
        Some(i)
    } else {
        match s[i].enclosing {
            Some(e) => ancestor(s, e as int, (d - 1) as nat),
            None => None,
        }
    }
}

/// The scopes after binding `name` to `v` in scope `i`.
pub open spec fn define_in(s: Scopes, i: int, name: Seq<char>, v: LiteralView) -> Scopes {
    s.update(i, EnvironmentView { values: bind(s[i].values, name, v), enclosing: s[i].enclosing })
}

/// The error for a name that no scope binds.
pub open spec fn undefined_variable(name: crate::entities::TokenView) -> LoxResultView {
    LoxResultView::RuntimeError {
        token: name,
        message: "Undefined variable '"@ + name.lexeme + "'."@,
    }
}

impl View for Environments {
    type V = Scopes;

    closed spec fn view(&self) -> Scopes {
        self.scopes@.map_values(|e: Environment| e@)
    }
}

impl Environments {
    /// The invariant: enclosing scopes have smaller handles.
    pub open spec fn wf(&self) -> bool {
        wf_scopes(self@)
    }

    /// No scopes.
    pub fn new() -> (r: Environments)
        ensures
            r.wf(),
            r@ == Seq::<EnvironmentView>::empty(),
    {
        let r = Environments { scopes: Vec::new() };
        assert(r@ =~= Seq::<EnvironmentView>::empty());
        r
    }

    /// The number of scopes.
    pub fn len(&self) -> (r: usize)
        ensures
            r == self@.len(),
    {
        self.scopes.len()
    }

    /// Adds a scope, whose enclosing scope must exist already; its handle
    /// is returned.
    pub fn push(&mut self, env: Environment) -> (r: usize)
        requires
            old(self).wf(),
            env@.enclosing matches Some(e) ==> e < old(self)@.len(),
        ensures
            final(self).wf(),
            final(self)@ == old(self)@.push(env@),
            r == old(self)@.len(),
    {
        let r = self.scopes.len();
        let ghost ev = env@;
        self.scopes.push(env);
        assert(self@ =~= old(self)@.push(ev));
        r
    }

    /// Binds `name` to `value` in scope `scope`.
    pub fn define(&mut self, scope: usize, name: &str, value: LiteralValue)
        requires
            old(self).wf(),
            scope < old(self)@.len(),
        ensures
            final(self).wf(),
            final(self)@ == old(self)@.update(
                scope as int,
                EnvironmentView {
                    values: bind(old(self)@[scope as int].values, name@, value@),
                    enclosing: old(self)@[scope as int].enclosing,
                },
            ),
    {
        let ghost before = self@;
        self.scopes[scope].define(name, value);
        assert(self@ =~= before.update(
            scope as int,
            EnvironmentView {
                values: bind(before[scope as int].values, name@, value@),
                enclosing: before[scope as int].enclosing,
            },
        ));
    }

    /// The innermost scope from `scope` outwards that binds `name`.
    fn resolve(&self, scope: usize, name: &str) -> (r: Option<usize>)
        requires
            self.wf(),
            scope < self@.len(),
        ensures
            match r {
                Some(j) => resolve(self@, scope as int, name@) == Some(j as int),
                None => resolve(self@, scope as int, name@) is None,
            },
        decreases scope,
    {
        if self.scopes[scope].lookup(name).is_some() {
            Some(scope)
        } else {
            match self.scopes[scope].enclosing() {
                Some(e) => self.resolve(e, name),
                None => None,
            }
        }
    }

    /// The value of the variable `name` seen from scope `scope`; an error
    /// where no scope on the way out binds it.
    pub fn get(&self, scope: usize, name: &Token) -> (r: Result<LiteralValue, LoxResult>)
        requires
            self.wf(),
            scope < self@.len(),
        ensures
            match r {
                Ok(v) => value_of(self@, scope as int, name.lexeme@) == Some(v@),
                Err(e) => value_of(self@, scope as int, name.lexeme@) is None && e@
                    == undefined_variable(name@),
            },
    {
        match self.resolve(scope, name.lexeme.as_str()) {
            Some(j) => {
                proof {
                    lemma_resolve_bound(self@, scope as int, name.lexeme@);
                }
                Ok(self.scopes[j].lookup(name.lexeme.as_str()).unwrap())
            },
            None => Err(Self::undefined(name)),
        }
    }

    /// The error for the undefined variable `name`.
    fn undefined(name: &Token) -> (r: LoxResult)
        ensures
            r@ == undefined_variable(name@),
    {
        let mut m = String::from_str("Undefined variable '");
        m.append(name.lexeme.as_str());
        m.append("'.");
        LoxResult::runtime_error(name, m.as_str())
    }

    /// Gives the variable `name`, seen from scope `scope`, the value
    /// `value` (in the innermost scope that binds it); an error where no
    /// scope on the way out binds it.
    pub fn assign(&mut self, scope: usize, name: &Token, value: LiteralValue) -> (r: Result<
        (),
        LoxResult,
    >)
        requires
            old(self).wf(),
            scope < old(self)@.len(),
        ensures
            final(self).wf(),
            final(self)@.len() == old(self)@.len(),
            match resolve(old(self)@, scope as int, name.lexeme@) {
                Some(j) => r is Ok && final(self)@ == old(self)@.update(
                    j,
                    EnvironmentView {
                        values: bind(old(self)@[j].values, name.lexeme@, value@),
                        enclosing: old(self)@[j].enclosing,
                    },
                ),
                None => r matches Err(e) && e@ == undefined_variable(name@) && final(self)@ == old(
                    self,
                )@,
            },
    {
        match self.resolve(scope, name.lexeme.as_str()) {
            Some(j) => {
                proof {
                    lemma_resolve_bound(self@, scope as int, name.lexeme@);
                }
                self.define(j, name.lexeme.as_str(), value);
                Ok(())
            },
            None => Err(Self::undefined(name)),
        }
    }

    /// The scope `distance` steps out from `scope`, which must exist.
    fn ancestor(&self, scope: usize, distance: usize) -> (r: usize)
        requires
            self.wf(),
            ancestor(self@, scope as int, distance as nat) is Some,
        ensures
            ancestor(self@, scope as int, distance as nat) == Some(r as int),
        decreases distance,
    {
        if distance == 0 {
            scope
        } else {
            let e = self.scopes[scope].enclosing().unwrap();
            self.ancestor(e, distance - 1)
        }
    }

    /// The scope `distance` steps out from `scope`, if the chain is that
    /// long.
    pub fn ancestor_of(&self, scope: usize, distance: usize) -> (r: Option<usize>)
        requires
            self.wf(),
        ensures
            match r {
                Some(a) => ancestor(self@, scope as int, distance as nat) == Some(a as int) && a
                    < self@.len(),
                None => ancestor(self@, scope as int, distance as nat) is None,
            },
        decreases distance,
    {
        if scope >= self.scopes.len() {
            None
        } else if distance == 0 {
            Some(scope)
        } else {
            match self.scopes[scope].enclosing() {
                Some(e) => self.ancestor_of(e, distance - 1),
                None => None,
            }
        }
    }

    /// The value `name` is bound to in scope `scope` itself.
    pub fn lookup_in(&self, scope: usize, name: &str) -> (r: Option<LiteralValue>)
        requires
            scope < self@.len(),
        ensures
            match r {
                Some(v) => lookup(self@[scope as int].values, name@) == Some(v@),
                None => lookup(self@[scope as int].values, name@) is None,
            },
    {
        self.scopes[scope].lookup(name)
    }

    /// The value of `name` in the scope `distance` steps out from `scope`,
    /// which must bind it.
    pub fn get_at(&self, scope: usize, distance: usize, name: &str) -> (r: Result<
        LiteralValue,
        LoxResult,
    >)
        requires
            self.wf(),
            ancestor(self@, scope as int, distance as nat) matches Some(a) && lookup(
                self@[a].values,
                name@,
            ) is Some,
        ensures
            r matches Ok(v) && Some(v@) == lookup(
                self@[ancestor(self@, scope as int, distance as nat)->Some_0].values,
                name@,
            ),
    {
        proof {
            lemma_ancestor_bound(self@, scope as int, distance as nat);
        }
        let a = self.ancestor(scope, distance);
        Ok(self.scopes[a].lookup(name).unwrap())
    }

    /// Binds `name` to `value` in the scope `distance` steps out from
    /// `scope`, which must exist.
    pub fn assign_at(&mut self, scope: usize, distance: usize, name: &Token, value: LiteralValue) -> (r:
        Result<(), LoxResult>)
        requires
            old(self).wf(),
            ancestor(old(self)@, scope as int, distance as nat) is Some,
        ensures
            final(self).wf(),
            final(self)@.len() == old(self)@.len(),
            r is Ok,
            ({
                let a = ancestor(old(self)@, scope as int, distance as nat)->Some_0;
                final(self)@ == old(self)@.update(
                    a,
                    EnvironmentView {
                        values: bind(old(self)@[a].values, name.lexeme@, value@),
                        enclosing: old(self)@[a].enclosing,
                    },
                )
            }),
    {
        proof {
            lemma_ancestor_bound(self@, scope as int, distance as nat);
        }
        let a = self.ancestor(scope, distance);
        self.define(a, name.lexeme.as_str(), value);
        Ok(())
    }
}

pub proof fn lemma_resolve_bound(s: Scopes, i: int, name: Seq<char>)
    ensures
        resolve(s, i, name) matches Some(j) ==> 0 <= j < s.len() && j <= i && lookup(
            s[j].values,
            name,
        ) is Some,
    decreases i,
{
    if 0 <= i < s.len() && lookup(s[i].values, name) is None {
        if let Some(e) = s[i].enclosing {
            if 0 <= e < i {
                lemma_resolve_bound(s, e as int, name);
            }
        }
    }
}

proof fn lemma_ancestor_bound(s: Scopes, i: int, d: nat)
    ensures
        ancestor(s, i, d) matches Some(a) ==> 0 <= a < s.len(),
    decreases d,
{
    if 0 <= i < s.len() && d > 0 {
        if let Some(e) = s[i].enclosing {
            lemma_ancestor_bound(s, e as int, (d - 1) as nat);
        }
    }
}

} // verus!
