//! Class metadata: a class's name, attributes, instance allocator and
//! native members.
use vstd::prelude::*;
use crate::avm_string::AvmString;
use crate::value::QName;

verus! {

/// Attribute flags of a class.
#[derive(Clone, Copy, Debug, PartialEq, Eq, Structural)]
pub struct ClassAttributes {
    /// The class cannot be subclassed.
    pub is_final: bool,
    /// Instances cannot gain dynamic properties.
    pub sealed: bool,
}

/// The allocator a class uses for its instances.
#[derive(Clone, Copy, Debug, PartialEq, Eq, Structural)]
pub enum InstanceAllocator {
    Script,
    Primitive,
    ByteArray,
    AppDomain,
}

/// The native methods of the `String` class.
#[derive(Clone, Copy, Debug, PartialEq, Eq, Structural)]
pub enum NativeMethod {
    StringInstanceInit,
    StringClassInit,
    StringLength,
    StringCharAt,
    StringCharCodeAt,
    StringSplit,
}

/// A public instance property served by native accessors.
#[derive(Debug, PartialEq, Eq)]
pub struct NativeProperty {
    pub name: AvmString,
    pub getter: Option<NativeMethod>,
    pub setter: Option<NativeMethod>,
}

/// A native instance method in the AS3 namespace.
#[derive(Debug, PartialEq, Eq)]
pub struct NativeMethodEntry {
    pub name: AvmString,
    pub method: NativeMethod,
}

/// The static description of a class.
#[derive(Debug, PartialEq, Eq)]
pub struct Class {
    pub name: QName,
    pub super_name: Option<QName>,
    pub instance_init: NativeMethod,
    pub class_init: NativeMethod,
    pub attributes: ClassAttributes,
    pub allocator: InstanceAllocator,
    pub instance_properties: Vec<NativeProperty>,
    pub instance_methods: Vec<NativeMethodEntry>,
}

} // verus!
