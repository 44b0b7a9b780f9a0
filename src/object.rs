//! The state every object shares: prototype and class links and a table of
//! named properties with their flags.
use vstd::prelude::*;
use crate::avm_string::AvmString;
use crate::value::{namespace_view, Error, Namespace, ObjectId, QName, Value, ValueView};

verus! {

pub type NameView = ((int, Seq<u16>), Seq<u16>);

/// A property: its name, its value, whether it is final, and whether a
/// final property may still be overwritten.
#[derive(Debug, PartialEq, Eq)]
pub struct Property {
    pub name: QName,
    pub value: Value,
    pub is_final: bool,
    pub overwritable: bool,
}

pub struct PropertyView {
    pub name: NameView,
    pub value: ValueView,
    pub is_final: bool,
    pub overwritable: bool,
}

impl View for Property {
    type V = PropertyView;

    open spec fn view(&self) -> PropertyView {
        PropertyView {
            name: self.name@,
            value: self.value@,
            is_final: self.is_final,
            overwritable: self.overwritable,
        }
    }
}

pub open spec fn props_view(props: Seq<Property>) -> Seq<PropertyView> {
    props.map_values(|p: Property| p@)
}

/// The position of the last entry named `k`, or -1.
pub open spec fn index_of(props: Seq<PropertyView>, k: NameView) -> int
    decreases props.len(),
{
    if props.len() == 0 {
        -1
    } else if props.last().name == k {
        props.len() - 1
    } else {
        index_of(props.drop_last(), k)
    }
}

/// The position of the last entry whose local name is `local`, or -1.
pub open spec fn index_of_local(props: Seq<PropertyView>, local: Seq<u16>) -> int
    decreases props.len(),
{
    if props.len() == 0 {
        -1
    } else if props.last().name.1 == local {
        props.len() - 1
    } else {
        index_of_local(props.drop_last(), local)
    }
}

proof fn lemma_index_of_range(props: Seq<PropertyView>, k: NameView)
    ensures
        -1 <= index_of(props, k) < props.len(),
        index_of(props, k) >= 0 ==> props[index_of(props, k)].name == k,
        index_of(props, k) == -1 ==> forall|j: int| 0 <= j < props.len() ==> props[j].name != k,
    decreases props.len(),
{
    if props.len() > 0 {
        lemma_index_of_range(props.drop_last(), k);
        assert forall|j: int| 0 <= j < props.len() && index_of(props, k) == -1 implies props[j].name
            != k by {
            if j < props.len() - 1 {
                assert(props.drop_last()[j] == props[j]);
            }
        }
    }
}

pub struct CoreView {
    pub proto: Option<ObjectId>,
    pub class: Option<ObjectId>,
    pub sealed: bool,
    pub props: Seq<PropertyView>,
}

/// The base record of every object.
pub struct ObjectCore {
    pub proto: Option<ObjectId>,
    pub class: Option<ObjectId>,
    /// Whether the object's class forbids new dynamic properties.
    pub sealed: bool,
    pub props: Vec<Property>,
}

impl View for ObjectCore {
    type V = CoreView;

    open spec fn view(&self) -> CoreView {
        CoreView {
            proto: self.proto,
            class: self.class,
            sealed: self.sealed,
            props: props_view(self.props@),
        }
    }
}

impl CoreView {
    /// No two properties share a name.
    pub open spec fn wf(self) -> bool {
        forall|i: int, j: int|
            0 <= i < j < self.props.len() ==> #[trigger] self.props[i].name
                != #[trigger] self.props[j].name
    }

    pub open spec fn find(self, k: NameView) -> int {
        index_of(self.props, k)
    }

    /// The value stored under `k`, if any.
    pub open spec fn lookup(self, k: NameView) -> Option<ValueView> {
        if self.find(k) >= 0 {
            Some(self.props[self.find(k)].value)
        } else {
            None
        }
    }

    pub open spec fn has(self, k: NameView) -> bool {
        self.find(k) >= 0
    }

    /// Whether `k` is declared final and may not be overwritten.
    pub open spec fn is_locked(self, k: NameView) -> bool {
        self.has(k) && self.props[self.find(k)].is_final && !self.props[self.find(k)].overwritable
    }

    /// The same object with the value under `k` replaced, flags kept, or a
    /// new entry with the given flags where `k` is absent.
    pub open spec fn with_value(self, k: NameView, v: ValueView, is_final: bool, overwritable: bool) -> CoreView {
        if self.has(k) {
            CoreView {
                props: self.props.update(
                    self.find(k),
                    PropertyView { value: v, ..self.props[self.find(k)] },
                ),
                ..self
            }
        } else {
            CoreView {
                props: self.props.push(
                    PropertyView { name: k, value: v, is_final, overwritable },
                ),
                ..self
            }
        }
    }

    /// The same object with `k` declared anew with the given value and flags.
    pub open spec fn with_trait(self, k: NameView, v: ValueView, is_final: bool, overwritable: bool) -> CoreView {
        let p = PropertyView { name: k, value: v, is_final, overwritable };
        if self.has(k) {
            CoreView { props: self.props.update(self.find(k), p), ..self }
        } else {
            CoreView { props: self.props.push(p), ..self }
        }
    }

    pub open spec fn without(self, k: NameView) -> CoreView {
        if self.has(k) {
            CoreView { props: self.props.remove(self.find(k)), ..self }
        } else {
            self
        }
    }

    /// The namespace of a property with the given local name, if any.
    pub open spec fn namespace_for(self, local: Seq<u16>) -> Option<(int, Seq<u16>)> {
        let i = index_of_local(self.props, local);
        if i >= 0 {
            Some(self.props[i].name.0)
        } else {
            None
        }
    }
}

/// Whether a write to `k` would add a property to a sealed object.
pub open spec fn refuses_new(c: CoreView, k: NameView) -> bool {
    !c.has(k) && c.sealed
}

/// The object after a write of `v` to `k`: unchanged where `k` is locked or
/// the write is refused, else `k` holds `v`.
pub open spec fn after_set(c: CoreView, k: NameView, v: ValueView) -> CoreView {
    if c.is_locked(k) || refuses_new(c, k) {
        c
    } else {
        c.with_value(k, v, false, true)
    }
}

proof fn lemma_index_of_update(s: Seq<PropertyView>, k: NameView, p: PropertyView)
    requires
        index_of(s, k) >= 0,
        p.name == k,
    ensures
        index_of(s.update(index_of(s, k), p), k) == index_of(s, k),
    decreases s.len(),
{
    let i = index_of(s, k);
    lemma_index_of_range(s, k);
    if s.last().name != k {
        lemma_index_of_update(s.drop_last(), k, p);
        assert(s.update(i, p).drop_last() =~= s.drop_last().update(i, p));
    }
}

/// A write that is neither locked nor refused is read back: the property
/// then holds the written value.
pub proof fn lemma_table_get_after_set(c: CoreView, k: NameView, v: ValueView)
    requires
        !c.is_locked(k),
        !refuses_new(c, k),
    ensures
        after_set(c, k, v).lookup(k) == Some(v),
{
    lemma_index_of_range(c.props, k);
    if c.has(k) {
        lemma_index_of_update(c.props, k, PropertyView { value: v, ..c.props[c.find(k)] });
    } else {
        let p = PropertyView { name: k, value: v, is_final: false, overwritable: true };
        assert(c.props.push(p).drop_last() =~= c.props);
    }
}

/// Writing never breaks the uniqueness of names.
proof fn lemma_with_value_wf(c: CoreView, k: NameView, v: ValueView, f: bool, o: bool)
    requires
        c.wf(),
    ensures
        c.with_value(k, v, f, o).wf(),
        c.with_trait(k, v, f, o).wf(),
{
    lemma_index_of_range(c.props, k);
    let r = c.with_value(k, v, f, o);
    let t = c.with_trait(k, v, f, o);
    assert forall|i: int, j: int| 0 <= i < j < r.props.len() implies #[trigger] r.props[i].name
        != #[trigger] r.props[j].name by {
        if !c.has(k) && j == c.props.len() {
            assert(c.props[i].name != k);
        }
    }
    assert forall|i: int, j: int| 0 <= i < j < t.props.len() implies #[trigger] t.props[i].name
        != #[trigger] t.props[j].name by {
        if !c.has(k) && j == c.props.len() {
            assert(c.props[i].name != k);
        }
    }
}

/// A write to a final property that may not be overwritten leaves its value
/// and the whole object as they were.
pub proof fn lemma_locked_write_keeps_value(c: CoreView, k: NameView, v: ValueView)
    requires
        c.is_locked(k),
    ensures
        after_set(c, k, v) == c,
        after_set(c, k, v).lookup(k) == c.lookup(k),
{
}

impl ObjectCore {
    /// A fresh object with the given links and no properties.
    pub fn base_new(proto: Option<ObjectId>, class: Option<ObjectId>, sealed: bool) -> (r: ObjectCore)
        ensures
            r@ == (CoreView { proto, class, sealed, props: Seq::empty() }),
            r@.wf(),
    {
        let r = ObjectCore { proto, class, sealed, props: Vec::new() };
        assert(props_view(r.props@) =~= Seq::<PropertyView>::empty());
        r
    }

    /// The position of the entry named `name`.
    pub fn find(&self, name: &QName) -> (r: Option<usize>)
        ensures
            r matches Some(i) ==> i as int == self@.find(name@) && i < self.props@.len(),
            r is None ==> self@.find(name@) == -1,
    {
        let mut i: usize = self.props.len();
        proof {
            assert(props_view(self.props@).subrange(0, i as int) =~= props_view(self.props@));
        }
        while i > 0
            invariant
                i <= self.props@.len(),
                index_of(props_view(self.props@), name@) == index_of(
                    props_view(self.props@).subrange(0, i as int),
                    name@,
                ),
            decreases i,
        {
            let ghost pre = props_view(self.props@).subrange(0, i as int);
            if self.props[i - 1].name.equals(name) {
                return Some(i - 1);
            }
            assert(pre.drop_last() =~= props_view(self.props@).subrange(0, i - 1));
            i = i - 1;
        }
        None
    }

    /// The value of an own property, or `None` when there is none.
    pub fn get_property_local(&self, name: &QName) -> (r: Option<Value>)
        ensures
            r matches Some(v) ==> self@.lookup(name@) == Some(v@),
            r is None ==> self@.lookup(name@) is None,
    {
        match self.find(name) {
            Some(i) => Some(self.props[i].value.duplicate()),
            None => None,
        }
    }

    /// Writes an own property. A final property that may not be overwritten
    /// keeps its value, silently; a new property on a sealed object is
    /// refused.
    pub fn set_property_local(&mut self, name: &QName, value: Value) -> (r: Result<(), Error>)
        ensures
            final(self)@ == after_set(old(self)@, name@, value@),
            r is Err <==> refuses_new(old(self)@, name@),
            r is Err ==> r == Err::<(), Error>(Error::SealedObject),
            old(self)@.wf() ==> final(self)@.wf(),
    {
        proof {
            if old(self)@.wf() {
                lemma_with_value_wf(old(self)@, name@, value@, false, true);
            }
        }
        match self.find(name) {
            Some(i) => {
                if self.props[i].is_final && !self.props[i].overwritable {
                    return Ok(());
                }
                self.replace_value(i, value);
                Ok(())
            },
            None => {
                if self.sealed {
                    return Err(Error::SealedObject);
                }
                self.append(name, value, false, true);
                Ok(())
            },
        }
    }

    /// Writes an own property during construction: flags are not consulted.
    pub fn init_property_local(&mut self, name: &QName, value: Value)
        ensures
            final(self)@ == old(self)@.with_value(name@, value@, false, true),
            old(self)@.wf() ==> final(self)@.wf(),
    {
        proof {
            if old(self)@.wf() {
                lemma_with_value_wf(old(self)@, name@, value@, false, true);
            }
        }
        match self.find(name) {
            Some(i) => self.replace_value(i, value),
            None => self.append(name, value, false, true),
        }
    }

    /// Declares a property with its value and flags, as a class's traits do.
    pub fn install_trait(&mut self, name: &QName, value: Value, is_final: bool, overwritable: bool)
        ensures
            final(self)@ == old(self)@.with_trait(name@, value@, is_final, overwritable),
            old(self)@.wf() ==> final(self)@.wf(),
    {
        proof {
            if old(self)@.wf() {
                lemma_with_value_wf(old(self)@, name@, value@, is_final, overwritable);
            }
        }
        let p = Property { name: name.duplicate(), value, is_final, overwritable };
        match self.find(name) {
            Some(i) => {
                let ghost before = self.props@;
                self.props[i] = p;
                assert(props_view(self.props@) =~= props_view(before).update(i as int, p@));
            },
            None => {
                let ghost before = self.props@;
                self.props.push(p);
                assert(props_view(self.props@) =~= props_view(before).push(p@));
            },
        }
    }

    fn replace_value(&mut self, i: usize, value: Value)
        requires
            i < old(self).props@.len(),
        ensures
            final(self)@ == (CoreView {
                props: old(self)@.props.update(
                    i as int,
                    PropertyView { value: value@, ..old(self)@.props[i as int] },
                ),
                ..old(self)@
            }),
    {
        let ghost before = self.props@;
        let p = Property {
            name: self.props[i].name.duplicate(),
            value,
            is_final: self.props[i].is_final,
            overwritable: self.props[i].overwritable,
        };
        self.props[i] = p;
        assert(props_view(self.props@) =~= props_view(before).update(
            i as int,
            PropertyView { value: value@, ..props_view(before)[i as int] },
        ));
    }

    fn append(&mut self, name: &QName, value: Value, is_final: bool, overwritable: bool)
        ensures
            final(self)@ == (CoreView {
                props: old(self)@.props.push(
                    PropertyView { name: name@, value: value@, is_final, overwritable },
                ),
                ..old(self)@
            }),
    {
        let ghost before = self.props@;
        let p = Property { name: name.duplicate(), value, is_final, overwritable };
        self.props.push(p);
        assert(props_view(self.props@) =~= props_view(before).push(p@));
    }

    /// Removes an own property; says whether there was one.
    pub fn delete_property(&mut self, name: &QName) -> (r: bool)
        ensures
            r == old(self)@.has(name@),
            final(self)@ == old(self)@.without(name@),
            old(self)@.wf() ==> final(self)@.wf(),
    {
        match self.find(name) {
            Some(i) => {
                let ghost before = self.props@;
                self.props.remove(i);
                assert(props_view(self.props@) =~= props_view(before).remove(i as int));
                proof {
                    let s = props_view(before);
                    let r = s.remove(i as int);
                    if old(self)@.wf() {
                        assert forall|a: int, b: int| 0 <= a < b < r.len() implies #[trigger] r[a].name
                            != #[trigger] r[b].name by {
                            let a2 = if a < i { a } else { a + 1 };
                            let b2 = if b < i { b } else { b + 1 };
                            assert(r[a] == s[a2] && r[b] == s[b2]);
                        }
                    }
                }
                true
            },
            None => false,
        }
    }

    pub fn has_own_property(&self, name: &QName) -> (r: bool)
        ensures
            r == self@.has(name@),
    {
        self.find(name).is_some()
    }

    /// Whether `name` is declared final; an absent property is not.
    pub fn is_property_final(&self, name: &QName) -> (r: bool)
        ensures
            r == (self@.has(name@) && self@.props[self@.find(name@)].is_final),
    {
        match self.find(name) {
            Some(i) => self.props[i].is_final,
            None => false,
        }
    }

    /// Whether a write to `name` may take place; an absent property may be
    /// written.
    pub fn is_property_overwritable(&self, name: &QName) -> (r: bool)
        ensures
            r == (!self@.has(name@) || self@.props[self@.find(name@)].overwritable),
    {
        match self.find(name) {
            Some(i) => self.props[i].overwritable,
            None => true,
        }
    }

    /// The namespace under which a property with this local name exists.
    pub fn resolve_any(&self, local_name: &AvmString) -> (r: Option<Namespace>)
        ensures
            r matches Some(ns) ==> self@.namespace_for(local_name@) == Some(namespace_view(ns)),
            r is None ==> self@.namespace_for(local_name@) is None,
    {
        let mut i: usize = self.props.len();
        proof {
            assert(props_view(self.props@).subrange(0, i as int) =~= props_view(self.props@));
        }
        while i > 0
            invariant
                i <= self.props@.len(),
                index_of_local(props_view(self.props@), local_name@) == index_of_local(
                    props_view(self.props@).subrange(0, i as int),
                    local_name@,
                ),
            decreases i,
        {
            let ghost pre = props_view(self.props@).subrange(0, i as int);
            if self.props[i - 1].name.local_name.equals(local_name) {
                return Some(self.props[i - 1].name.namespace.duplicate());
            }
            assert(pre.drop_last() =~= props_view(self.props@).subrange(0, i - 1));
            i = i - 1;
        }
        None
    }
}

} // verus!
