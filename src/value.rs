//! Runtime values, property names and object handles.
use vstd::prelude::*;
use crate::avm_string::AvmString;

verus! {

/// A handle to an object held by the runtime's object store.
#[derive(Clone, Copy, PartialEq, Eq, Structural, Debug)]
pub struct ObjectId {
    pub id: usize,
}

/// A handle to a class/script registry.
#[derive(Clone, Copy, PartialEq, Eq, Structural, Debug)]
pub struct DomainId {
    pub id: usize,
}

/// The namespace part of a property name.
#[derive(Debug, PartialEq, Eq)]
pub enum Namespace {
    Public,
    Internal(AvmString),
    Private(AvmString),
    Uri(AvmString),
}

/// The mathematical form of a namespace: its kind and its name.
pub open spec fn namespace_view(ns: Namespace) -> (int, Seq<u16>) {
    match ns {
        Namespace::Public => (0, Seq::empty()),
        Namespace::Internal(s) => (1, s@),
        Namespace::Private(s) => (2, s@),
        Namespace::Uri(s) => (3, s@),
    }
}

impl Namespace {
    pub open spec fn spec_is_public(&self) -> bool {
        self is Public
    }

    pub fn is_public(&self) -> (r: bool)
        ensures
            r == self.spec_is_public(),
    {
        match self {
            Namespace::Public => true,
            _ => false,
        }
    }

    /// A copy of this namespace.
    pub fn duplicate(&self) -> (r: Namespace)
        ensures
            namespace_view(r) == namespace_view(*self),
    {
        match self {
            Namespace::Public => Namespace::Public,
            Namespace::Internal(s) => Namespace::Internal(s.duplicate()),
            Namespace::Private(s) => Namespace::Private(s.duplicate()),
            Namespace::Uri(s) => Namespace::Uri(s.duplicate()),
        }
    }

    /// Whether both namespaces are of the same kind and name.
    pub fn equals(&self, other: &Namespace) -> (r: bool)
        ensures
            r == (namespace_view(*self) == namespace_view(*other)),
    {
        match (self, other) {
            (Namespace::Public, Namespace::Public) => true,
            (Namespace::Internal(a), Namespace::Internal(b)) => a.equals(b),
            (Namespace::Private(a), Namespace::Private(b)) => a.equals(b),
            (Namespace::Uri(a), Namespace::Uri(b)) => a.equals(b),
            _ => false,
        }
    }
}

/// A property name: a namespace and a local name.
#[derive(Debug, PartialEq, Eq)]
pub struct QName {
    pub namespace: Namespace,
    pub local_name: AvmString,
}

impl View for QName {
    type V = ((int, Seq<u16>), Seq<u16>);

    open spec fn view(&self) -> ((int, Seq<u16>), Seq<u16>) {
        (namespace_view(self.namespace), self.local_name@)
    }
}

impl QName {
    pub fn new(namespace: Namespace, local_name: AvmString) -> (r: QName)
        ensures
            r@ == (namespace_view(namespace), local_name@),
    {
        QName { namespace, local_name }
    }

    /// A name in the public namespace.
    pub fn public(local_name: AvmString) -> (r: QName)
        ensures
            r.namespace is Public,
            r@ == (namespace_view(Namespace::Public), local_name@),
    {
        QName { namespace: Namespace::Public, local_name }
    }

    pub fn duplicate(&self) -> (r: QName)
        ensures
            r@ == self@,
            r.namespace.spec_is_public() == self.namespace.spec_is_public(),
    {
        QName { namespace: self.namespace.duplicate(), local_name: self.local_name.duplicate() }
    }

    pub fn equals(&self, other: &QName) -> (r: bool)
        ensures
            r == (self@ == other@),
    {
        self.namespace.equals(&other.namespace) && self.local_name.equals(&other.local_name)
    }
}

/// A runtime value. Numbers with a fractional part are the interpreter's
/// concern and do not occur here.
#[derive(Debug, PartialEq, Eq)]
pub enum Value {
    Undefined,
    Null,
    Bool(bool),
    Integer(i32),
    Unsigned(u32),
    String(AvmString),
    Object(ObjectId),
}

/// The mathematical form of a value: strings by their code units.
pub enum ValueView {
    Undefined,
    Null,
    Bool(bool),
    Integer(i32),
    Unsigned(u32),
    String(Seq<u16>),
    Object(ObjectId),
}

impl View for Value {
    type V = ValueView;

    open spec fn view(&self) -> ValueView {
        match self {
            Value::Undefined => ValueView::Undefined,
            Value::Null => ValueView::Null,
            Value::Bool(b) => ValueView::Bool(*b),
            Value::Integer(i) => ValueView::Integer(*i),
            Value::Unsigned(u) => ValueView::Unsigned(*u),
            Value::String(s) => ValueView::String(s@),
            Value::Object(o) => ValueView::Object(*o),
        }
    }
}

impl Value {
    pub fn duplicate(&self) -> (r: Value)
        ensures
            r@ == self@,
    {
        match self {
            Value::Undefined => Value::Undefined,
            Value::Null => Value::Null,
            Value::Bool(b) => Value::Bool(*b),
            Value::Integer(i) => Value::Integer(*i),
            Value::Unsigned(u) => Value::Unsigned(*u),
            Value::String(s) => Value::String(s.duplicate()),
            Value::Object(o) => Value::Object(*o),
        }
    }
}

/// Failures reported by property and construction operations.
#[derive(Clone, Copy, PartialEq, Eq, Structural, Debug)]
pub enum Error {
    /// A new property was written on an object whose class is sealed.
    SealedObject,
    /// A value that must be an object was undefined or null.
    NotAnObject,
    /// A value held a string or an object where the runtime's numeric
    /// conversion would be needed.
    NeedsNumericConversion,
    /// A constructor has no enclosing scope.
    EmptyScope,
    /// A constructor's scope has no registry at its base.
    MissingDomain,
}

} // verus!
