//! Domain objects: objects that carry a class/script registry into the
//! object system.
use vstd::prelude::*;
use crate::avm_string::AvmString;
use crate::object::{CoreView, ObjectCore, Property, PropertyView, props_view};
use crate::value::{namespace_view, DomainId, Error, Namespace, ObjectId, QName, Value, ValueView};

verus! {

/// A class object and the prototype its instances get.
#[derive(Clone, Copy, PartialEq, Eq, Structural, Debug)]
pub struct ClassPair {
    pub class: ObjectId,
    pub proto: ObjectId,
}

/// The system classes a domain object can be built for.
#[derive(Clone, Copy, PartialEq, Eq, Structural, Debug)]
pub struct SystemClasses {
    pub application_domain: ClassPair,
    pub global: ClassPair,
}

/// What a constructor's lexical scope holds at its base.
#[derive(Clone, Copy, Debug, PartialEq, Eq, Structural)]
pub enum ClassScope {
    /// The constructor has no scope at all.
    Empty,
    /// The global object at the bottom of the scope, and the registry it
    /// carries, if it is a domain object.
    Globals(Option<DomainId>),
}

/// The object state after declaring each trait in turn.
pub open spec fn install_all(core: CoreView, traits: Seq<PropertyView>) -> CoreView
    decreases traits.len(),
{
    if traits.len() == 0 {
        core
    } else {
        let t = traits.last();
        install_all(core, traits.drop_last()).with_trait(t.name, t.value, t.is_final, t.overwritable)
    }
}

/// The local name `constructor`.
pub open spec fn constructor_local() -> Seq<u16> {
    seq![99u16, 111, 110, 115, 116, 114, 117, 99, 116, 111, 114]
}

pub open spec fn constructor_name() -> ((int, Seq<u16>), Seq<u16>) {
    (namespace_view(Namespace::Public), constructor_local())
}

/// The `constructor` an object sees: its own, else the inherited one.
pub open spec fn constructor_of(core: CoreView, inherited: ValueView) -> ValueView {
    match core.lookup(constructor_name()) {
        Some(v) => v,
        None => inherited,
    }
}

/// An object holding a reference to a registry.
pub struct DomainObject {
    pub base: ObjectCore,
    pub domain: DomainId,
}

/// What allocation for a constructor and prototype gives: an error when
/// the constructor's scope has no registry at its base, else a fresh
/// object linked to both that holds the registry.
pub open spec fn allocated(
    r: Result<DomainObject, Error>,
    scope: ClassScope,
    class: ObjectId,
    proto: ObjectId,
) -> bool {
    match scope {
        ClassScope::Empty => r == Err::<DomainObject, Error>(Error::EmptyScope),
        ClassScope::Globals(None) => r == Err::<DomainObject, Error>(Error::MissingDomain),
        ClassScope::Globals(Some(d)) => match r {
            Ok(o) => o.domain == d && o.base@ == (CoreView {
                proto: Some(proto),
                class: Some(class),
                sealed: false,
                props: Seq::empty(),
            }) && o.base@.wf(),
            Err(_) => false,
        },
    }
}

/// Allocates a domain object for a constructor and prototype. The registry
/// is the one at the base of the constructor's scope; without one there is
/// nothing to hold and the runtime is wired wrongly.
pub fn appdomain_allocator(class: ObjectId, proto: ObjectId, scope: ClassScope) -> (r: Result<
    DomainObject,
    Error,
>)
    ensures
        allocated(r, scope, class, proto),
{
    let domain = match scope {
        ClassScope::Empty => return Err(Error::EmptyScope),
        ClassScope::Globals(None) => return Err(Error::MissingDomain),
        ClassScope::Globals(Some(d)) => d,
    };
    Ok(DomainObject { base: ObjectCore::base_new(Some(proto), Some(class), false), domain })
}

impl DomainObject {
    /// A domain object with no prototype and no class link, for use while
    /// the runtime starts and no classes exist yet; the caller wires both
    /// later.
    pub fn from_early_domain(domain: DomainId) -> (r: DomainObject)
        ensures
            r.domain == domain,
            r.base@ == (CoreView { proto: None, class: None, sealed: false, props: Seq::empty() }),
            r.base@.wf(),
    {
        DomainObject { base: ObjectCore::base_new(None, None, false), domain }
    }

    /// A domain object for a class, with the class's traits declared. The
    /// caller then runs the class's instance initializer on it.
    fn for_class(pair: ClassPair, traits: &Vec<Property>, domain: DomainId) -> (r: DomainObject)
        ensures
            r.domain == domain,
            r.base@ == install_all(
                CoreView {
                    proto: Some(pair.proto),
                    class: Some(pair.class),
                    sealed: false,
                    props: Seq::empty(),
                },
                props_view(traits@),
            ),
            r.base@.wf(),
    {
        let mut base = ObjectCore::base_new(Some(pair.proto), Some(pair.class), false);
        let ghost start = base@;
        let mut i: usize = 0;
        while i < traits.len()
            invariant
                i <= traits@.len(),
                base@ == install_all(start, props_view(traits@).subrange(0, i as int)),
                base@.wf(),
            decreases traits@.len() - i,
        {
            let t = &traits[i];
            base.install_trait(&t.name, t.value.duplicate(), t.is_final, t.overwritable);
            assert(props_view(traits@).subrange(0, i + 1).drop_last() =~= props_view(
                traits@,
            ).subrange(0, i as int));
            i = i + 1;
        }
        assert(props_view(traits@).subrange(0, i as int) =~= props_view(traits@));
        DomainObject { base, domain }
    }

    /// The object of the `ApplicationDomain` class for a registry, with the
    /// class's instance traits declared.
    pub fn from_domain(classes: &SystemClasses, traits: &Vec<Property>, domain: DomainId) -> (r:
        DomainObject)
        ensures
            r.domain == domain,
            r.base@ == install_all(
                CoreView {
                    proto: Some(classes.application_domain.proto),
                    class: Some(classes.application_domain.class),
                    sealed: false,
                    props: Seq::empty(),
                },
                props_view(traits@),
            ),
            r.base@.wf(),
    {
        Self::for_class(classes.application_domain, traits, domain)
    }

    /// The global object of a script unit, for a registry that serves as
    /// its scope of last resort, with the global class's traits declared.
    pub fn script_global(classes: &SystemClasses, traits: &Vec<Property>, domain: DomainId) -> (r:
        DomainObject)
        ensures
            r.domain == domain,
            r.base@ == install_all(
                CoreView {
                    proto: Some(classes.global.proto),
                    class: Some(classes.global.class),
                    sealed: false,
                    props: Seq::empty(),
                },
                props_view(traits@),
            ),
            r.base@.wf(),
    {
        Self::for_class(classes.global, traits, domain)
    }

    pub fn as_application_domain(&self) -> (r: DomainId)
        ensures
            r == self.domain,
    {
        self.domain
    }

    /// The object itself, as a value.
    pub fn value_of(&self, this: ObjectId) -> (r: Value)
        ensures
            r@ == ValueView::Object(this),
    {
        Value::Object(this)
    }

    /// The object's `constructor`: its own property if it has one, else the
    /// value the prototype chain gives.
    pub fn resolve_constructor(&self, inherited: Value) -> (r: Value)
        ensures
            r@ == constructor_of(self.base@, inherited@),
    {
        let name = QName::public(AvmString::from_units(
            vec![99u16, 111, 110, 115, 116, 114, 117, 99, 116, 111, 114],
        ));
        assert(name@ == constructor_name());
        match self.base.get_property_local(&name) {
            Some(v) => v,
            None => inherited,
        }
    }

    /// A child object for the prototype chain: allocated as its constructor
    /// allocates, with this object as prototype. The constructor is found
    /// first, then `scope` is the one of that constructor.
    pub fn derive(&self, this: ObjectId, inherited_constructor: Value, scope: ClassScope) -> (r:
        Result<DomainObject, Error>)
        ensures
            ({
                match constructor_of(self.base@, inherited_constructor@) {
                    ValueView::Undefined => r == Err::<DomainObject, Error>(Error::NotAnObject),
                    ValueView::Null => r == Err::<DomainObject, Error>(Error::NotAnObject),
                    ValueView::Object(class) => allocated(r, scope, class, this),
                    _ => r == Err::<DomainObject, Error>(Error::EmptyScope),
                }
            }),
    {
        let constr = self.resolve_constructor(inherited_constructor);
        match constr {
            Value::Undefined => Err(Error::NotAnObject),
            Value::Null => Err(Error::NotAnObject),
            Value::Object(class) => appdomain_allocator(class, this, scope),
            _ => Err(Error::EmptyScope),
        }
    }
}

} // verus!
