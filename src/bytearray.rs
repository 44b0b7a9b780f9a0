//! Byte-array objects: a growable byte buffer laid over the public,
//! decimal-indexed property names.
use vstd::prelude::*;
use crate::avm_string::{index_of_name, AvmString};
use crate::object::{after_set, refuses_new, CoreView, ObjectCore};
use crate::value::{namespace_view, Error, Namespace, ObjectId, QName, Value, ValueView};

verus! {

/// The bytes after `b` is stored at `i`: a store past the end first fills
/// the gap with zeros.
pub open spec fn stored_bytes(s: Seq<u8>, i: int, b: u8) -> Seq<u8> {
    if i < s.len() {
        s.update(i, b)
    } else {
        s + Seq::new((i - s.len()) as nat, |j: int| 0u8) + seq![b]
    }
}

/// The byte at `i`, if `i` is in bounds.
pub open spec fn byte_at(s: Seq<u8>, i: int) -> Option<u8> {
    if 0 <= i < s.len() {
        Some(s[i])
    } else {
        None
    }
}

/// The low eight bits of a value.
pub open spec fn low_byte(v: u32) -> u8 {
    (v % 256) as u8
}

/// A growable buffer of bytes.
#[derive(Debug, PartialEq, Eq)]
pub struct ByteArrayStorage {
    pub bytes: Vec<u8>,
}

impl View for ByteArrayStorage {
    type V = Seq<u8>;

    open spec fn view(&self) -> Seq<u8> {
        self.bytes@
    }
}

impl ByteArrayStorage {
    pub fn new() -> (r: ByteArrayStorage)
        ensures
            r@ == Seq::<u8>::empty(),
    {
        ByteArrayStorage { bytes: Vec::new() }
    }

    pub fn len(&self) -> (r: usize)
        ensures
            r == self@.len(),
    {
        self.bytes.len()
    }

    pub fn get(&self, index: usize) -> (r: Option<u8>)
        ensures
            r == byte_at(self@, index as int),
    {
        if index < self.bytes.len() {
            Some(self.bytes[index])
        } else {
            None
        }
    }

    /// Stores `b` at `index`, growing the buffer with zeros when needed.
    pub fn set(&mut self, index: usize, b: u8)
        requires
            index < usize::MAX,
        ensures
            final(self)@ == stored_bytes(old(self)@, index as int, b),
    {
        if index < self.bytes.len() {
            self.bytes[index] = b;
            return;
        }
        let ghost start = self.bytes@;
        while self.bytes.len() < index
            invariant
                start.len() <= self.bytes@.len() <= index,
                self.bytes@ == start + Seq::new(
                    (self.bytes@.len() - start.len()) as nat,
                    |j: int| 0u8,
                ),
            decreases index - self.bytes@.len(),
        {
            self.bytes.push(0);
            assert(self.bytes@ =~= start + Seq::new(
                (self.bytes@.len() - start.len()) as nat,
                |j: int| 0u8,
            ));
        }
        self.bytes.push(b);
    }

    /// Clears the byte at `index` to zero; the length stays.
    pub fn delete(&mut self, index: usize)
        ensures
            index < old(self)@.len() ==> final(self)@ == old(self)@.update(index as int, 0),
            index >= old(self)@.len() ==> final(self)@ == old(self)@,
    {
        if index < self.bytes.len() {
            self.bytes[index] = 0;
        }
    }
}

/// The number a value stands for where its conversion needs no parsing.
pub open spec fn numeric_of(v: ValueView) -> int {
    match v {
        ValueView::Bool(b) => if b {
            1
        } else {
            0
        },
        ValueView::Integer(x) => x as int,
        ValueView::Unsigned(u) => u as int,
        _ => 0,
    }
}

/// Writing a value at a buffer index and reading that index back gives the
/// value modulo 256, as `set_property_local` stores it and
/// `get_property_local` reads it.
pub proof fn lemma_get_after_set(s: Seq<u8>, i: nat, v: ValueView)
    requires
        u32_of(v) is Some,
    ensures
        byte_at(stored_bytes(s, i as int, low_byte(u32_of(v)->0)), i as int) == Some(
            low_byte(u32_of(v)->0),
        ),
        low_byte(u32_of(v)->0) as int == numeric_of(v) % 256,
{
    if let ValueView::Integer(x) = v {
        if x < 0 {
            vstd::arithmetic::div_mod::lemma_mod_multiples_vanish(16777216, x as int, 256);
        }
    }
}

/// A write past the end keeps the old bytes, leaves zero at every index
/// between the old end and the written one, and stores the byte there.
pub proof fn lemma_set_pads_with_zero(s: Seq<u8>, i: nat, b: u8)
    requires
        i >= s.len(),
    ensures
        stored_bytes(s, i as int, b).len() == i + 1,
        forall|j: int| 0 <= j < s.len() ==> #[trigger] stored_bytes(s, i as int, b)[j] == s[j],
        forall|j: int| s.len() <= j < i ==> #[trigger] stored_bytes(s, i as int, b)[j] == 0,
        stored_bytes(s, i as int, b)[i as int] == b,
{
}

/// The index that a name routes to the buffer: a public name whose local
/// part is a decimal index.
pub open spec fn buffer_index(ns_public: bool, local: Seq<u16>) -> Option<nat> {
    if ns_public {
        index_of_name(local)
    } else {
        None
    }
}

/// Whether a local name is an index inside a buffer of length `len`.
pub open spec fn indexes_buffer(local: Seq<u16>, len: nat) -> bool {
    match index_of_name(local) {
        Some(i) => i < len,
        None => false,
    }
}

pub open spec fn routed(name: &QName) -> Option<nat> {
    buffer_index(name.namespace.spec_is_public(), name.local_name@)
}

/// The unsigned 32-bit form of a value whose conversion needs no numeric
/// parsing: undefined and null are zero, integers wrap.
pub open spec fn u32_of(v: ValueView) -> Option<u32> {
    match v {
        ValueView::Undefined => Some(0),
        ValueView::Null => Some(0),
        ValueView::Bool(b) => Some(if b { 1 } else { 0 }),
        ValueView::Integer(i) => Some(
            (if i < 0 { i as int + 0x1_0000_0000 } else { i as int }) as u32,
        ),
        ValueView::Unsigned(u) => Some(u),
        _ => None,
    }
}

/// Converts a value to an unsigned 32-bit integer. Strings and objects need
/// the runtime's numeric conversion and are refused.
pub fn coerce_to_u32(v: &Value) -> (r: Result<u32, Error>)
    ensures
        r matches Ok(n) ==> u32_of(v@) == Some(n),
        r is Err ==> u32_of(v@) is None && r == Err::<u32, Error>(Error::NeedsNumericConversion),
{
    match v {
        Value::Undefined => Ok(0),
        Value::Null => Ok(0),
        Value::Bool(b) => Ok(if *b { 1 } else { 0 }),
        Value::Integer(i) => {
            if *i < 0 {
                let m: u32 = (-(*i as i64) - 1) as u32;
                Ok(u32::MAX - m)
            } else {
                Ok(*i as u32)
            }
        },
        Value::Unsigned(u) => Ok(*u),
        _ => Err(Error::NeedsNumericConversion),
    }
}

/// An object whose public decimal-indexed properties live in a byte buffer.
pub struct ByteArrayObject {
    pub base: ObjectCore,
    pub storage: ByteArrayStorage,
}

/// A byte-array object allocated for a class and its prototype, with an
/// empty buffer.
pub fn bytearray_allocator(class: ObjectId, proto: ObjectId) -> (r: ByteArrayObject)
    ensures
        r.base@ == (CoreView {
            proto: Some(proto),
            class: Some(class),
            sealed: false,
            props: Seq::empty(),
        }),
        r.storage@.len() == 0,
        r.base@.wf(),
{
    ByteArrayObject {
        base: ObjectCore::base_new(Some(proto), Some(class), false),
        storage: ByteArrayStorage::new(),
    }
}

impl ByteArrayObject {
    /// The buffer index a name denotes, if the buffer serves it.
    pub fn route(name: &QName) -> (r: Option<usize>)
        ensures
            r matches Some(i) ==> routed(name) == Some(i as nat),
            r is None ==> routed(name) is None,
    {
        if name.namespace.is_public() {
            name.local_name.parse_index()
        } else {
            None
        }
    }

    /// Reads an own property: an index reads the buffer, as an unsigned
    /// value, or undefined past its end; other names read the table, and a
    /// missing one is undefined.
    pub fn get_property_local(&self, name: &QName) -> (r: Value)
        ensures
            routed(name) matches Some(i) ==> r@ == match byte_at(self.storage@, i as int) {
                Some(b) => ValueView::Unsigned(b as u32),
                None => ValueView::Undefined,
            },
            routed(name) is None ==> r@ == match self.base@.lookup(name@) {
                Some(v) => v,
                None => ValueView::Undefined,
            },
    {
        match Self::route(name) {
            Some(i) => match self.storage.get(i) {
                Some(b) => Value::Unsigned(b as u32),
                None => Value::Undefined,
            },
            None => match self.base.get_property_local(name) {
                Some(v) => v,
                None => Value::Undefined,
            },
        }
    }

    /// Writes an own property: an index stores the value's low byte in the
    /// buffer; other names go to the table, where a locked final property
    /// keeps its value. The index `usize::MAX` is out: no buffer can grow
    /// past it.
    pub fn set_property_local(&mut self, name: &QName, value: Value) -> (r: Result<(), Error>)
        requires
            routed(name) != Some(usize::MAX as nat),
        ensures
            routed(name) matches Some(i) ==> match u32_of(value@) {
                Some(n) => r is Ok && final(self).storage@ == stored_bytes(
                    old(self).storage@,
                    i as int,
                    low_byte(n),
                ) && final(self).base@ == old(self).base@,
                None => r == Err::<(), Error>(Error::NeedsNumericConversion) && final(self).storage@
                    == old(self).storage@ && final(self).base@ == old(self).base@,
            },
            routed(name) is None ==> final(self).storage@ == old(self).storage@ && final(self).base@
                == after_set(old(self).base@, name@, value@) && (r is Err <==> refuses_new(
                old(self).base@,
                name@,
            )) && (r is Err ==> r == Err::<(), Error>(Error::SealedObject)),
            old(self).base@.wf() ==> final(self).base@.wf(),
    {
        match Self::route(name) {
            Some(i) => {
                let n = coerce_to_u32(&value)?;
                self.storage.set(i, (n % 256) as u8);
                Ok(())
            },
            None => self.base.set_property_local(name, value),
        }
    }

    /// Writes an own property during construction: as `set_property_local`,
    /// but flags are not consulted.
    pub fn init_property_local(&mut self, name: &QName, value: Value) -> (r: Result<(), Error>)
        requires
            routed(name) != Some(usize::MAX as nat),
        ensures
            routed(name) matches Some(i) ==> match u32_of(value@) {
                Some(n) => r is Ok && final(self).storage@ == stored_bytes(
                    old(self).storage@,
                    i as int,
                    low_byte(n),
                ) && final(self).base@ == old(self).base@,
                None => r == Err::<(), Error>(Error::NeedsNumericConversion) && final(self).storage@
                    == old(self).storage@ && final(self).base@ == old(self).base@,
            },
            routed(name) is None ==> r is Ok && final(self).storage@ == old(self).storage@
                && final(self).base@ == old(self).base@.with_value(name@, value@, false, true),
            old(self).base@.wf() ==> final(self).base@.wf(),
    {
        match Self::route(name) {
            Some(i) => {
                let n = coerce_to_u32(&value)?;
                self.storage.set(i, (n % 256) as u8);
                Ok(())
            },
            None => {
                self.base.init_property_local(name, value);
                Ok(())
            },
        }
    }

    pub fn is_property_overwritable(&self, name: &QName) -> (r: bool)
        ensures
            r == (!self.base@.has(name@) || self.base@.props[self.base@.find(name@)].overwritable),
    {
        self.base.is_property_overwritable(name)
    }

    pub fn is_property_final(&self, name: &QName) -> (r: bool)
        ensures
            r == (self.base@.has(name@) && self.base@.props[self.base@.find(name@)].is_final),
    {
        self.base.is_property_final(name)
    }

    /// Deletes an own property: an index clears its byte in place and reports
    /// whether there was one; other names leave the table.
    pub fn delete_property(&mut self, name: &QName) -> (r: bool)
        ensures
            routed(name) matches Some(i) ==> (r == (i < old(self).storage@.len()) && final(self).base@
                == old(self).base@ && final(self).storage@ == if i < old(self).storage@.len() {
                old(self).storage@.update(i as int, 0)
            } else {
                old(self).storage@
            }),
            routed(name) is None ==> r == old(self).base@.has(name@) && final(self).base@ == old(
                self,
            ).base@.without(name@) && final(self).storage@ == old(self).storage@,
            old(self).base@.wf() ==> final(self).base@.wf(),
    {
        match Self::route(name) {
            Some(i) => {
                let present = self.storage.get(i).is_some();
                self.storage.delete(i);
                present
            },
            None => self.base.delete_property(name),
        }
    }

    /// Whether an own property exists: an index exists when in bounds.
    pub fn has_own_property(&self, name: &QName) -> (r: bool)
        ensures
            routed(name) matches Some(i) ==> r == (i < self.storage@.len()),
            routed(name) is None ==> r == self.base@.has(name@),
    {
        match Self::route(name) {
            Some(i) => self.storage.get(i).is_some(),
            None => self.base.has_own_property(name),
        }
    }

    /// The namespace of an own property with this local name: the public one
    /// for an in-bounds index, else the table's answer.
    pub fn resolve_any(&self, local_name: &AvmString) -> (r: Option<Namespace>)
        ensures
            indexes_buffer(local_name@, self.storage@.len()) ==> (r matches Some(ns)
                && ns is Public),
            !indexes_buffer(local_name@, self.storage@.len()) ==> (r matches Some(ns)
                ==> self.base@.namespace_for(local_name@) == Some(namespace_view(ns))),
            !indexes_buffer(local_name@, self.storage@.len()) ==> (r is None
                <==> self.base@.namespace_for(local_name@) is None),
    {
        if let Some(i) = local_name.parse_index() {
            if self.storage.get(i).is_some() {
                return Some(Namespace::Public);
            }
        }
        self.base.resolve_any(local_name)
    }

    /// A child object for the prototype chain: its prototype is `this`, it
    /// has no class link and its buffer is empty, whatever this one holds.
    pub fn derive(&self, this: ObjectId) -> (r: ByteArrayObject)
        ensures
            r.base@ == (CoreView {
                proto: Some(this),
                class: None,
                sealed: false,
                props: Seq::empty(),
            }),
            r.storage@ == Seq::<u8>::empty(),
            r.base@.wf(),
    {
        ByteArrayObject {
            base: ObjectCore::base_new(Some(this), None, false),
            storage: ByteArrayStorage::new(),
        }
    }

    /// The object itself, as a value.
    pub fn value_of(&self, this: ObjectId) -> (r: Value)
        ensures
            r@ == ValueView::Object(this),
    {
        Value::Object(this)
    }

    pub fn as_bytearray(&self) -> (r: &ByteArrayStorage)
        ensures
            r@ == self.storage@,
    {
        &self.storage
    }

    pub fn as_bytearray_mut(&mut self) -> (r: &mut ByteArrayStorage)
        ensures
            *r == old(self).storage,
            final(r)@ == final(self).storage@,
            final(self).base@ == old(self).base@,
    {
        &mut self.storage
    }
}

} // verus!
