use avm2::avm_string::AvmString;
use avm2::bytearray::{bytearray_allocator, coerce_to_u32, ByteArrayObject, ByteArrayStorage};
use avm2::value::{Error, Namespace, ObjectId, QName, Value};

fn public(text: &str) -> QName {
    QName::public(AvmString::from_str(text))
}

fn fresh() -> ByteArrayObject {
    bytearray_allocator(ObjectId { id: 1 }, ObjectId { id: 2 })
}

#[test]
fn storage_get_after_set_is_low_byte() {
    let mut st = ByteArrayStorage::new();
    st.set(0, 7);
    assert_eq!(st.get(0), Some(7));
    let mut obj = fresh();
    obj.set_property_local(&public("0"), Value::Unsigned(300)).unwrap();
    assert_eq!(obj.get_property_local(&public("0")), Value::Unsigned(44));
    obj.set_property_local(&public("1"), Value::Integer(-1)).unwrap();
    assert_eq!(obj.get_property_local(&public("1")), Value::Unsigned(255));
    obj.set_property_local(&public("2"), Value::Bool(true)).unwrap();
    assert_eq!(obj.get_property_local(&public("2")), Value::Unsigned(1));
}

#[test]
fn set_past_end_pads_with_zero() {
    let mut st = ByteArrayStorage::new();
    st.set(1, 9);
    st.set(5, 3);
    assert_eq!(st.bytes, vec![0, 9, 0, 0, 0, 3]);
    assert_eq!(st.len(), 6);
    assert_eq!(st.get(6), None);
}

#[test]
fn get_past_end_is_undefined() {
    let obj = fresh();
    assert_eq!(obj.get_property_local(&public("4")), Value::Undefined);
    assert!(!obj.has_own_property(&public("4")));
}

#[test]
fn derive_has_empty_storage() {
    let mut obj = fresh();
    obj.set_property_local(&public("3"), Value::Unsigned(8)).unwrap();
    let child = obj.derive(ObjectId { id: 9 });
    assert_eq!(child.storage.len(), 0);
    assert_eq!(child.base.proto, Some(ObjectId { id: 9 }));
    assert_eq!(child.base.class, None);
    assert_eq!(obj.storage.len(), 4);
}

#[test]
fn allocator_links_class_and_proto() {
    let obj = fresh();
    assert_eq!(obj.base.class, Some(ObjectId { id: 1 }));
    assert_eq!(obj.base.proto, Some(ObjectId { id: 2 }));
    assert_eq!(obj.as_bytearray().len(), 0);
    assert_eq!(obj.value_of(ObjectId { id: 5 }), Value::Object(ObjectId { id: 5 }));
}

#[test]
fn index_names_route_to_buffer() {
    assert_eq!(ByteArrayObject::route(&public("12")), Some(12));
    assert_eq!(ByteArrayObject::route(&public("+7")), Some(7));
    assert_eq!(ByteArrayObject::route(&public("007")), Some(7));
    assert_eq!(ByteArrayObject::route(&public("")), None);
    assert_eq!(ByteArrayObject::route(&public("+")), None);
    assert_eq!(ByteArrayObject::route(&public("-1")), None);
    assert_eq!(ByteArrayObject::route(&public("1a")), None);
    assert_eq!(ByteArrayObject::route(&public("99999999999999999999999")), None);
    let private = QName::new(Namespace::Private(AvmString::from_str("C")), AvmString::from_str("1"));
    assert_eq!(ByteArrayObject::route(&private), None);
}

#[test]
fn other_names_use_the_table() {
    let mut obj = fresh();
    obj.set_property_local(&public("name"), Value::Integer(5)).unwrap();
    assert_eq!(obj.get_property_local(&public("name")), Value::Integer(5));
    assert_eq!(obj.storage.len(), 0);
    let private = QName::new(Namespace::Private(AvmString::from_str("C")), AvmString::from_str("1"));
    obj.init_property_local(&private, Value::Null).unwrap();
    assert_eq!(obj.get_property_local(&private), Value::Null);
    assert_eq!(obj.get_property_local(&public("1")), Value::Undefined);
    assert!(obj.has_own_property(&private));
    assert!(obj.delete_property(&private));
    assert!(!obj.has_own_property(&private));
    assert!(!obj.delete_property(&private));
}

#[test]
fn string_value_needs_numeric_conversion() {
    let mut obj = fresh();
    let r = obj.set_property_local(&public("0"), Value::String(AvmString::from_str("1")));
    assert_eq!(r, Err(Error::NeedsNumericConversion));
    assert_eq!(obj.storage.len(), 0);
    assert_eq!(coerce_to_u32(&Value::Object(ObjectId { id: 0 })), Err(Error::NeedsNumericConversion));
}

#[test]
fn coerce_to_u32_wraps_integers() {
    assert_eq!(coerce_to_u32(&Value::Undefined), Ok(0));
    assert_eq!(coerce_to_u32(&Value::Null), Ok(0));
    assert_eq!(coerce_to_u32(&Value::Bool(true)), Ok(1));
    assert_eq!(coerce_to_u32(&Value::Integer(-2)), Ok(4294967294));
    assert_eq!(coerce_to_u32(&Value::Integer(i32::MIN)), Ok(2147483648));
    assert_eq!(coerce_to_u32(&Value::Unsigned(77)), Ok(77));
}

#[test]
fn init_writes_buffer_too() {
    let mut obj = fresh();
    obj.init_property_local(&public("2"), Value::Unsigned(258)).unwrap();
    assert_eq!(obj.storage.bytes, vec![0, 0, 2]);
}

#[test]
fn delete_index_clears_byte_in_place() {
    let mut obj = fresh();
    obj.set_property_local(&public("1"), Value::Unsigned(5)).unwrap();
    assert!(obj.delete_property(&public("1")));
    assert_eq!(obj.storage.bytes, vec![0, 0]);
    assert!(!obj.delete_property(&public("8")));
    assert_eq!(obj.storage.len(), 2);
}

#[test]
fn resolve_any_sees_buffer_indices() {
    let mut obj = fresh();
    obj.set_property_local(&public("0"), Value::Unsigned(1)).unwrap();
    assert_eq!(obj.resolve_any(&AvmString::from_str("0")), Some(Namespace::Public));
    assert_eq!(obj.resolve_any(&AvmString::from_str("1")), None);
    let internal = QName::new(Namespace::Internal(AvmString::from_str("p")), AvmString::from_str("x"));
    obj.init_property_local(&internal, Value::Null).unwrap();
    assert_eq!(
        obj.resolve_any(&AvmString::from_str("x")),
        Some(Namespace::Internal(AvmString::from_str("p")))
    );
}

#[test]
fn flags_of_buffer_names_come_from_the_table() {
    let obj = fresh();
    assert!(!obj.is_property_final(&public("0")));
    assert!(obj.is_property_overwritable(&public("0")));
}

#[test]
fn bytearray_mut_gives_the_buffer() {
    let mut obj = fresh();
    obj.as_bytearray_mut().set(0, 4);
    assert_eq!(obj.get_property_local(&public("0")), Value::Unsigned(4));
}
