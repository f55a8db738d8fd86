use vstd::prelude::*;

use crate::entities::{LiteralValue, LiteralView, Token, TokenView};
use crate::environment::{bind, lookup, Bindings, Environment, Environments};
use crate::lox_function::{this_scope, Functions, LoxFunctionView};
use crate::errors::{LoxResult, LoxResultView};
use crate::lox_class::{method_of, wf_classes, Classes, LoxClassView};

verus! {

/// An instance: its class (by handle) and its fields.
#[derive(Debug)]
pub struct LoxInstance {
    klass: usize,
    fields: Environment,
}

/// The model of a [`LoxInstance`].
pub struct LoxInstanceView {
    pub klass: usize,
    pub fields: Bindings,
}

impl View for LoxInstance {
    type V = LoxInstanceView;

    closed spec fn view(&self) -> LoxInstanceView {
        LoxInstanceView { klass: self.klass, fields: self.fields@.values }
    }
}

impl LoxInstance {
    /// A new instance of class `klass`, with no fields.
    pub fn new(klass: usize) -> (r: LoxInstance)
        ensures
            r@ == (LoxInstanceView { klass, fields: Seq::empty() }),
    {
        LoxInstance { klass, fields: Environment::new() }
    }

    /// The instance's class.
    pub fn klass(&self) -> (r: usize)
        ensures
            r == self@.klass,
    {
        self.klass
    }
}

/// What reading a property of an instance finds.
pub enum Property {
    /// The value of a field.
    Field(LiteralValue),
    /// A method of the instance's class, still to be bound to the instance.
    Method(LiteralValue),
}

/// The model of a [`Property`].
pub enum PropertyView {
    Field(LiteralView),
    Method(LiteralView),
}

impl View for Property {
    type V = PropertyView;

    open spec fn view(&self) -> PropertyView {
        match self {
            Property::Field(v) => PropertyView::Field(v@),
            Property::Method(v) => PropertyView::Method(v@),
        }
    }
}

/// The error for a property that an instance lacks.
pub open spec fn undefined_property(name: TokenView) -> LoxResultView {
    LoxResultView::RuntimeError {
        token: name,
        message: "Undefined property '"@ + name.lexeme + "'."@,
    }
}

/// Reading the property `name` of an instance: a field of that name, or
/// else a method of its class, or else an error.
pub open spec fn property_of(
    classes: Seq<LoxClassView>,
    inst: LoxInstanceView,
    name: TokenView,
) -> Result<PropertyView, LoxResultView> {
    match lookup(inst.fields, name.lexeme) {
        Some(v) => Ok(PropertyView::Field(v)),
        None => match method_of(classes, inst.klass as int, name.lexeme) {
            Some(m) => Ok(PropertyView::Method(m)),
            None => Err(undefined_property(name)),
        },
    }
}

/// The instances of a run, each known by its handle (its index).
#[derive(Debug)]
pub struct Instances {
    instances: Vec<LoxInstance>,
}

impl View for Instances {
    type V = Seq<LoxInstanceView>;

    closed spec fn view(&self) -> Seq<LoxInstanceView> {
        self.instances@.map_values(|i: LoxInstance| i@)
    }
}

impl Instances {
    /// No instances.
    pub fn new() -> (r: Instances)
        ensures
            r@ == Seq::<LoxInstanceView>::empty(),
    {
        let r = Instances { instances: Vec::new() };
        assert(r@ =~= Seq::<LoxInstanceView>::empty());
        r
    }

    /// Adds an instance; its handle is returned.
    pub fn push(&mut self, i: LoxInstance) -> (r: usize)
        ensures
            final(self)@ == old(self)@.push(i@),
            r == old(self)@.len(),
    {
        let r = self.instances.len();
        let ghost iv = i@;
        self.instances.push(i);
        assert(self@ =~= old(self)@.push(iv));
        r
    }

    /// The number of instances.
    pub fn len(&self) -> (r: usize)
        ensures
            r == self@.len(),
    {
        self.instances.len()
    }

    /// The instance with handle `h`.
    pub fn instance(&self, h: usize) -> (r: &LoxInstance)
        requires
            h < self@.len(),
        ensures
            r@ == self@[h as int],
    {
        &self.instances[h]
    }

    /// Finds the property `name` of instance `inst`: a field, or a method
    /// still to be bound.
    pub fn property(&self, inst: usize, name: &Token, classes: &Classes) -> (r: Result<
        Property,
        LoxResult,
    >)
        requires
            inst < self@.len(),
            wf_classes(classes@),
            self@[inst as int].klass < classes@.len(),
        ensures
            match r {
                Ok(p) => property_of(classes@, self@[inst as int], name@) == Ok::<
                    PropertyView,
                    LoxResultView,
                >(p@),
                Err(e) => property_of(classes@, self@[inst as int], name@) == Err::<
                    PropertyView,
                    LoxResultView,
                >(e@),
            },
    {
        let this = &self.instances[inst];
        if let Some(v) = this.fields.lookup(name.lexeme.as_str()) {
            Ok(Property::Field(v))
        } else if let Some(m) = classes.find_method(this.klass, name.lexeme.as_str()) {
            Ok(Property::Method(m))
        } else {
            let mut msg = String::from_str("Undefined property '");
            msg.append(name.lexeme.as_str());
            msg.append("'.");
            Err(LoxResult::runtime_error(name, msg.as_str()))
        }
    }

    /// Reads the property `name` of instance `inst`: the value of its field
    /// of that name, or else its class's method of that name bound to the
    /// instance, or else the error for an undefined property.
    pub fn get(
        &self,
        inst: usize,
        name: &Token,
        classes: &Classes,
        functions: &mut Functions,
        envs: &mut Environments,
    ) -> (r: Result<LiteralValue, LoxResult>)
        requires
            inst < self@.len(),
            wf_classes(classes@),
            self@[inst as int].klass < classes@.len(),
            old(envs).wf(),
            property_of(classes@, self@[inst as int], name@) matches Ok(PropertyView::Method(m))
                ==> (m matches LiteralView::Func(h) && h < old(functions)@.len() && old(
                functions,
            )@[h as int].closure < old(envs)@.len()),
        ensures
            final(envs).wf(),
            match property_of(classes@, self@[inst as int], name@) {
                Ok(PropertyView::Field(v)) => {
                    &&& r matches Ok(x) && x@ == v
                    &&& final(envs)@ == old(envs)@
                    &&& final(functions)@ == old(functions)@
                },
                Ok(PropertyView::Method(m)) => {
                    let h = m->Func_0;
                    &&& final(envs)@ == old(envs)@.push(
                        this_scope(LiteralView::Instance(inst), old(functions)@[h as int].closure),
                    )
                    &&& final(functions)@ == old(functions)@.push(
                        LoxFunctionView {
                            closure: old(envs)@.len() as usize,
                            ..old(functions)@[h as int]
                        },
                    )
                    &&& r matches Ok(x) && x@ == LiteralView::Func(old(functions)@.len() as usize)
                },
                Err(e) => {
                    &&& r matches Err(x) && x@ == e
                    &&& final(envs)@ == old(envs)@
                    &&& final(functions)@ == old(functions)@
                },
            },
    {
        match self.property(inst, name, classes) {
            Ok(Property::Field(v)) => Ok(v),
            Ok(Property::Method(LiteralValue::Func(h))) => Ok(
                functions.bind(h, LiteralValue::Instance(inst), envs),
            ),
            Ok(Property::Method(_)) => {
                proof {
                    assert(false);
                }
                Err(LoxResult::fail())
            },
            Err(e) => Err(e),
        }
    }

    /// Sets the field `name` of instance `inst` to `value`.
    pub fn set(&mut self, inst: usize, name: &Token, value: LiteralValue)
        requires
            inst < old(self)@.len(),
        ensures
            final(self)@ == old(self)@.update(
                inst as int,
                LoxInstanceView {
                    klass: old(self)@[inst as int].klass,
                    fields: bind(old(self)@[inst as int].fields, name.lexeme@, value@),
                },
            ),
    {
        let ghost before = self@;
        self.instances[inst].fields.define(name.lexeme.as_str(), value);
        assert(self@ =~= before.update(
            inst as int,
            LoxInstanceView {
                klass: before[inst as int].klass,
                fields: bind(before[inst as int].fields, name.lexeme@, value@),
            },
        ));
    }
}

} // verus!
