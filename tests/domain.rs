use avm2::avm_string::AvmString;
use avm2::domain::{appdomain_allocator, ClassPair, ClassScope, DomainObject, SystemClasses};
use avm2::object::Property;
use avm2::value::{DomainId, Error, ObjectId, QName, Value};

fn classes() -> SystemClasses {
    SystemClasses {
        application_domain: ClassPair { class: ObjectId { id: 10 }, proto: ObjectId { id: 11 } },
        global: ClassPair { class: ObjectId { id: 20 }, proto: ObjectId { id: 21 } },
    }
}

fn trait_named(text: &str, v: Value) -> Property {
    Property { name: QName::public(AvmString::from_str(text)), value: v, is_final: true, overwritable: false }
}

#[test]
fn early_domain_has_no_links() {
    let d = DomainObject::from_early_domain(DomainId { id: 4 });
    assert_eq!(d.base.proto, None);
    assert_eq!(d.base.class, None);
    assert_eq!(d.as_application_domain(), DomainId { id: 4 });
}

#[test]
fn from_domain_uses_application_domain_class() {
    let traits = vec![trait_named("a", Value::Integer(1))];
    let d = DomainObject::from_domain(&classes(), &traits, DomainId { id: 2 });
    assert_eq!(d.base.class, Some(ObjectId { id: 10 }));
    assert_eq!(d.base.proto, Some(ObjectId { id: 11 }));
    assert_eq!(d.base.get_property_local(&QName::public(AvmString::from_str("a"))), Some(Value::Integer(1)));
    assert!(d.base.is_property_final(&QName::public(AvmString::from_str("a"))));
}

#[test]
fn script_global_uses_global_class() {
    let d = DomainObject::script_global(&classes(), &Vec::new(), DomainId { id: 3 });
    assert_eq!(d.base.class, Some(ObjectId { id: 20 }));
    assert_eq!(d.base.proto, Some(ObjectId { id: 21 }));
    assert_eq!(d.as_application_domain(), DomainId { id: 3 });
    assert_eq!(d.value_of(ObjectId { id: 8 }), Value::Object(ObjectId { id: 8 }));
}

#[test]
fn allocator_needs_a_domain() {
    let c = ObjectId { id: 1 };
    let p = ObjectId { id: 2 };
    assert!(matches!(appdomain_allocator(c, p, ClassScope::Empty), Err(Error::EmptyScope)));
    assert!(matches!(appdomain_allocator(c, p, ClassScope::Globals(None)), Err(Error::MissingDomain)));
    let d = appdomain_allocator(c, p, ClassScope::Globals(Some(DomainId { id: 5 }))).unwrap();
    assert_eq!(d.domain, DomainId { id: 5 });
    assert_eq!(d.base.class, Some(c));
    assert_eq!(d.base.proto, Some(p));
}

#[test]
fn derive_uses_inherited_constructor() {
    let d = DomainObject::from_early_domain(DomainId { id: 1 });
    let child = d
        .derive(ObjectId { id: 7 }, Value::Object(ObjectId { id: 30 }), ClassScope::Globals(Some(DomainId { id: 6 })))
        .unwrap();
    assert_eq!(child.base.proto, Some(ObjectId { id: 7 }));
    assert_eq!(child.base.class, Some(ObjectId { id: 30 }));
    assert_eq!(child.domain, DomainId { id: 6 });
}

#[test]
fn derive_prefers_own_constructor() {
    let mut d = DomainObject::from_early_domain(DomainId { id: 1 });
    d.base.init_property_local(&QName::public(AvmString::from_str("constructor")), Value::Object(ObjectId { id: 40 }));
    let child = d
        .derive(ObjectId { id: 7 }, Value::Object(ObjectId { id: 30 }), ClassScope::Globals(Some(DomainId { id: 6 })))
        .unwrap();
    assert_eq!(child.base.class, Some(ObjectId { id: 40 }));
}

#[test]
fn derive_errors() {
    let d = DomainObject::from_early_domain(DomainId { id: 1 });
    let this = ObjectId { id: 7 };
    assert!(matches!(d.derive(this, Value::Undefined, ClassScope::Empty), Err(Error::NotAnObject)));
    assert!(matches!(d.derive(this, Value::Null, ClassScope::Empty), Err(Error::NotAnObject)));
    assert!(matches!(
        d.derive(this, Value::Object(ObjectId { id: 3 }), ClassScope::Globals(None)),
        Err(Error::MissingDomain)
    ));
    assert!(matches!(d.derive(this, Value::Integer(1), ClassScope::Globals(None)), Err(Error::EmptyScope)));
}
