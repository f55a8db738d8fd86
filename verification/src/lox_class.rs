use vstd::prelude::*;

use crate::entities::{LiteralValue, LiteralView};
use crate::environment::{bind, lookup, Bindings, Environment, Environments};
use crate::lox_function::{this_scope, Functions, LoxFunctionView};
use crate::lox_instance::{Instances, LoxInstance, LoxInstanceView};

verus! {

/// A class: its name, its methods by name, and its superclass (by handle).
#[derive(Debug)]
pub struct LoxClass {
    name: String,
    methods: Environment,
    superclass: Option<usize>,
}

/// The model of a [`LoxClass`].
pub struct LoxClassView {
    pub name: Seq<char>,
    pub methods: Bindings,
    pub superclass: Option<usize>,
}

impl View for LoxClass {
    type V = LoxClassView;

    closed spec fn view(&self) -> LoxClassView {
        LoxClassView { name: self.name@, methods: self.methods@.values, superclass: self.superclass }
    }
}

/// The bindings made by binding the given names to the given values in turn.
pub open spec fn bind_all(entries: Seq<(Seq<char>, LiteralView)>) -> Bindings
    decreases entries.len(),
{
    if entries.len() == 0 {
        Seq::empty()
    } else {
        bind(bind_all(entries.drop_last()), entries.last().0, entries.last().1)
    }
}

impl LoxClass {
    /// The class `name` with the given methods (a later method of the same
    /// name replaces an earlier one) and superclass.
    pub fn new(name: &str, superclass: Option<usize>, methods: Vec<(String, LiteralValue)>) -> (r:
        LoxClass)
        ensures
            r@ == (LoxClassView {
                name: name@,
                methods: bind_all(
                    methods@.map_values(|p: (String, LiteralValue)| (p.0@, p.1@)),
                ),
                superclass,
            }),
    {
        let mut table = Environment::new();
        let ghost entries = methods@.map_values(|p: (String, LiteralValue)| (p.0@, p.1@));
        let mut i: usize = 0;
        while i < methods.len()
            invariant
                i <= methods@.len(),
                entries == methods@.map_values(|p: (String, LiteralValue)| (p.0@, p.1@)),
                table@.values == bind_all(entries.take(i as int)),
            decreases methods@.len() - i,
        {
            assert(entries.take(i + 1).drop_last() =~= entries.take(i as int));
            table.define(methods[i].0.as_str(), methods[i].1.dup());
            i = i + 1;
        }
        assert(entries.take(methods@.len() as int) =~= entries);
        LoxClass { name: String::from_str(name), methods: table, superclass }
    }

    /// The class's name.
    pub fn name(&self) -> (r: &String)
        ensures
            r@ == self@.name,
    {
        &self.name
    }

    /// The names of the class's own methods, in the order they were first
    /// declared.
    pub fn method_names(&self) -> (r: Vec<String>)
        ensures
            r@.map_values(|x: String| x@) == self@.methods.map_values(
                |p: (Seq<char>, LiteralView)| p.0,
            ),
    {
        self.methods.names()
    }

    /// The superclass's handle.
    pub fn superclass(&self) -> (r: Option<usize>)
        ensures
            r == self@.superclass,
    {
        self.superclass
    }
}

/// The classes of a run, each known by its handle (its index); a
/// superclass always has a smaller handle than its subclasses.
#[derive(Debug)]
pub struct Classes {
    classes: Vec<LoxClass>,
}

/// Every superclass has a smaller handle.
pub open spec fn wf_classes(s: Seq<LoxClassView>) -> bool {
    forall|i: int| 0 <= i < s.len() ==> (#[trigger] s[i].superclass matches Some(e) ==> e < i)
}

/// The method `name` of class `c`: its own, or else its superclass's.
pub open spec fn method_of(s: Seq<LoxClassView>, c: int, name: Seq<char>) -> Option<LiteralView>
    decreases c,
{
    if !(0 <= c < s.len()) {
        None
    } else if lookup(s[c].methods, name) is Some {
        lookup(s[c].methods, name)
    } else {
        match s[c].superclass {
            Some(e) => if 0 <= e < c {
                method_of(s, e as int, name)
            } else {
                None
            },
            None => None,
        }
    }
}

/// The number of arguments a call of class `c` takes: the arity of its
/// `init` method (a function), or none.
pub open spec fn class_arity(classes: Seq<LoxClassView>, functions: Seq<LoxFunctionView>, c: int) -> nat {
    match method_of(classes, c, "init"@) {
        Some(LiteralView::Func(h)) => if h < functions.len() {
            functions[h as int].params.len()
        } else {
            0
        },
        _ => 0,
    }
}

impl View for Classes {
    type V = Seq<LoxClassView>;

    closed spec fn view(&self) -> Seq<LoxClassView> {
        self.classes@.map_values(|c: LoxClass| c@)
    }
}

impl Classes {
    /// No classes.
    pub fn new() -> (r: Classes)
        ensures
            r@ == Seq::<LoxClassView>::empty(),
    {
        let r = Classes { classes: Vec::new() };
        assert(r@ =~= Seq::<LoxClassView>::empty());
        r
    }

    /// The number of classes.
    pub fn len(&self) -> (r: usize)
        ensures
            r == self@.len(),
    {
        self.classes.len()
    }

    /// Adds a class, whose superclass must exist already; its handle is
    /// returned.
    pub fn push(&mut self, c: LoxClass) -> (r: usize)
        requires
            wf_classes(old(self)@),
            c@.superclass matches Some(e) ==> e < old(self)@.len(),
        ensures
            wf_classes(final(self)@),
            final(self)@ == old(self)@.push(c@),
            r == old(self)@.len(),
    {
        let r = self.classes.len();
        let ghost cv = c@;
        self.classes.push(c);
        assert(self@ =~= old(self)@.push(cv));
        r
    }

    /// The class with handle `h`.
    pub fn get(&self, h: usize) -> (r: &LoxClass)
        requires
            h < self@.len(),
        ensures
            r@ == self@[h as int],
    {
        &self.classes[h]
    }

    /// The method `name` of class `class`: its own, or else its
    /// superclass's.
    pub fn find_method(&self, class: usize, name: &str) -> (r: Option<LiteralValue>)
        requires
            wf_classes(self@),
            class < self@.len(),
        ensures
            match r {
                Some(v) => method_of(self@, class as int, name@) == Some(v@),
                None => method_of(self@, class as int, name@) is None,
            },
        decreases class,
    {
        if let Some(method) = self.classes[class].methods.lookup(name) {
            Some(method)
        } else if let Some(superclass) = self.classes[class].superclass {
            self.find_method(superclass, name)
        } else {
            None
        }
    }

    /// Calls class `class`: makes a new instance of it, with no fields, and,
    /// where the class has an `init` method (a function), that method bound
    /// to the new instance, for the caller to run with the call's
    /// arguments. The instance and the bound initializer are returned.
    pub fn instantiate(
        &self,
        class: usize,
        instances: &mut Instances,
        functions: &mut Functions,
        envs: &mut Environments,
    ) -> (r: (LiteralValue, Option<LiteralValue>))
        requires
            wf_classes(self@),
            class < self@.len(),
            old(envs).wf(),
            method_of(self@, class as int, "init"@) matches Some(LiteralView::Func(h)) ==> (h
                < old(functions)@.len() && old(functions)@[h as int].closure < old(envs)@.len()),
        ensures
            final(instances)@ == old(instances)@.push(
                LoxInstanceView { klass: class, fields: Seq::empty() },
            ),
            r.0@ == LiteralView::Instance(old(instances)@.len() as usize),
            final(envs).wf(),
            match method_of(self@, class as int, "init"@) {
                Some(LiteralView::Func(h)) => {
                    &&& final(envs)@ == old(envs)@.push(
                        this_scope(r.0@, old(functions)@[h as int].closure),
                    )
                    &&& final(functions)@ == old(functions)@.push(
                        LoxFunctionView {
                            closure: old(envs)@.len() as usize,
                            ..old(functions)@[h as int]
                        },
                    )
                    &&& r.1 matches Some(init) && init@ == LiteralView::Func(
                        old(functions)@.len() as usize,
                    )
                },
                _ => {
                    &&& final(envs)@ == old(envs)@
                    &&& final(functions)@ == old(functions)@
                    &&& r.1 is None
                },
            },
    {
        let handle = instances.push(LoxInstance::new(class));
        let instance = LiteralValue::Instance(handle);
        match self.find_method(class, "init") {
            Some(LiteralValue::Func(h)) => {
                let init = functions.bind(h, instance.dup(), envs);
                (instance, Some(init))
            },
            _ => (instance, None),
        }
    }

    /// The number of arguments a call of class `class` takes: the arity of
    /// its `init` method (a function), or none.
    pub fn arity(&self, class: usize, functions: &Functions) -> (r: usize)
        requires
            wf_classes(self@),
            class < self@.len(),
        ensures
            r == class_arity(self@, functions@, class as int),
    {
        if let Some(LiteralValue::Func(h)) = self.find_method(class, "init") {
            if h < functions.len() {
                return functions.get(h).arity();
            }
        }
        0
    }
}

} // verus!
