use avm2::avm_string::AvmString;
use avm2::string_methods::{
    char_at, char_code_at, class_init, instance_init, length, split, CharCode, IndexArg,
};
use avm2::class::{InstanceAllocator, NativeMethod};
use avm2::value::{Namespace, ObjectId, Value};

fn s(text: &str) -> AvmString {
    AvmString::from_str(text)
}

fn texts(parts: &[Value]) -> Vec<String> {
    parts
        .iter()
        .map(|p| match p {
            Value::String(x) => String::from_utf16(&x.units).unwrap(),
            other => panic!("not a string: {:?}", other),
        })
        .collect()
}

fn split_text(text: &str, delimiter: Option<&str>, limit: Option<i32>) -> Vec<Value> {
    let d = delimiter.map(s);
    split(&Value::String(s(text)), &s(text), d.as_ref(), limit)
}

#[test]
fn from_str_encodes_utf16() {
    assert_eq!(s("ab").units, vec![97u16, 98]);
    assert_eq!(s("\u{1F600}").units, vec![0xD83Du16, 0xDE00]);
}

#[test]
fn length_of_abc_is_three() {
    assert_eq!(length(Some(&Value::String(s("abc")))), Some(3));
}

#[test]
fn length_counts_code_units_of_a_surrogate_pair() {
    assert_eq!(length(Some(&Value::String(s("\u{1F600}")))), Some(2));
}

#[test]
fn length_without_a_string_is_undefined() {
    assert_eq!(length(None), None);
    assert_eq!(length(Some(&Value::Integer(3))), None);
}

#[test]
fn char_at_negative_is_empty() {
    let v = Value::String(s("abc"));
    assert_eq!(char_at(Some(&v), IndexArg::Negative), Value::String(s("")));
}

#[test]
fn char_code_at_negative_is_nan() {
    let v = Value::String(s("abc"));
    assert_eq!(char_code_at(Some(&v), IndexArg::Negative), CharCode::NaN);
}

#[test]
fn char_at_nan_is_first_character() {
    let v = Value::String(s("abc"));
    assert_eq!(char_at(Some(&v), IndexArg::NotANumber), Value::String(s("a")));
    assert_eq!(char_code_at(Some(&v), IndexArg::NotANumber), CharCode::Code(97));
}

#[test]
fn char_at_reads_code_units() {
    let v = Value::String(s("abc"));
    assert_eq!(char_at(Some(&v), IndexArg::At(1)), Value::String(s("b")));
    assert_eq!(char_code_at(Some(&v), IndexArg::At(2)), CharCode::Code(99));
    let pair = Value::String(s("\u{1F600}"));
    assert_eq!(char_code_at(Some(&pair), IndexArg::At(1)), CharCode::Code(0xDE00));
    assert_eq!(
        char_at(Some(&pair), IndexArg::At(0)),
        Value::String(AvmString::from_units(vec![0xD83D]))
    );
}

#[test]
fn char_at_past_end() {
    let v = Value::String(s("abc"));
    assert_eq!(char_at(Some(&v), IndexArg::At(3)), Value::String(s("")));
    assert_eq!(char_code_at(Some(&v), IndexArg::At(usize::MAX)), CharCode::NaN);
}

#[test]
fn char_at_without_a_string_is_undefined() {
    assert_eq!(char_at(None, IndexArg::At(0)), Value::Undefined);
    assert_eq!(char_code_at(Some(&Value::Null), IndexArg::At(0)), CharCode::Undefined);
}

#[test]
fn split_keeps_empty_pieces() {
    let r = split_text("a,b,,c", Some(","), None);
    assert_eq!(texts(&r), vec!["a", "b", "", "c"]);
}

#[test]
fn split_on_empty_delimiter_gives_characters() {
    let r = split_text("abc", Some(""), None);
    assert_eq!(texts(&r), vec!["a", "b", "c"]);
}

#[test]
fn split_with_limit_keeps_leading_pieces() {
    let r = split_text("a,b,c", Some(","), Some(2));
    assert_eq!(texts(&r), vec!["a", "b"]);
}

#[test]
fn split_with_negative_limit_is_empty() {
    assert!(split_text("a,b,c", Some(","), Some(-4)).is_empty());
    assert!(split_text("a,b,c", Some(","), Some(0)).is_empty());
}

#[test]
fn split_with_large_limit_keeps_all() {
    let r = split_text("a,b,c", Some(","), Some(i32::MAX));
    assert_eq!(texts(&r), vec!["a", "b", "c"]);
}

#[test]
fn split_without_delimiter_is_the_string() {
    let r = split_text("a,b", None, Some(0));
    assert_eq!(texts(&r), vec!["a,b"]);
}

#[test]
fn split_on_longer_delimiter() {
    let r = split_text("::a::::b::", Some("::"), None);
    assert_eq!(texts(&r), vec!["", "a", "", "b", ""]);
    let r = split_text("aaa", Some("aa"), None);
    assert_eq!(texts(&r), vec!["", "a"]);
}

#[test]
fn split_without_occurrence_is_whole() {
    let r = split_text("abc", Some(";"), None);
    assert_eq!(texts(&r), vec!["abc"]);
    let r = split_text("", Some(","), None);
    assert_eq!(texts(&r), vec![""]);
}

#[test]
fn split_characters_keep_surrogate_pairs() {
    let r = split_text("x\u{1F600}y", Some(""), None);
    assert_eq!(texts(&r), vec!["x", "\u{1F600}", "y"]);
    let r = split_text("abc", Some(""), Some(2));
    assert_eq!(texts(&r), vec!["a", "b"]);
    assert!(split_text("", Some(""), None).is_empty());
}

#[test]
fn instance_init_sets_string_from_argument() {
    let mut p = Value::Undefined;
    instance_init(&mut p, Some(s("hi")));
    assert_eq!(p, Value::String(s("hi")));
    let mut q = Value::Integer(4);
    instance_init(&mut q, None);
    assert_eq!(q, Value::String(s("")));
}

#[test]
fn instance_init_keeps_existing_string() {
    let mut p = Value::String(s("kept"));
    instance_init(&mut p, Some(s("other")));
    assert_eq!(p, Value::String(s("kept")));
}

#[test]
fn class_init_is_undefined() {
    assert_eq!(class_init(), Value::Undefined);
}

#[test]
fn string_class_is_final_and_sealed() {
    let class = avm2::string_methods::create_class();
    assert_eq!(class.name.namespace, Namespace::Public);
    assert_eq!(class.name.local_name, s("String"));
    assert_eq!(class.super_name.unwrap().local_name, s("Object"));
    assert!(class.attributes.is_final);
    assert!(class.attributes.sealed);
    assert_eq!(class.allocator, InstanceAllocator::Primitive);
    assert_eq!(class.instance_init, NativeMethod::StringInstanceInit);
    assert_eq!(class.instance_properties.len(), 1);
    assert_eq!(class.instance_properties[0].name, s("length"));
    assert_eq!(class.instance_properties[0].getter, Some(NativeMethod::StringLength));
    let names: Vec<AvmString> = class.instance_methods.into_iter().map(|m| m.name).collect();
    assert_eq!(names, vec![s("charAt"), s("charCodeAt"), s("split")]);
}

#[test]
fn split_without_delimiter_keeps_receiver_value() {
    let this = Value::Object(ObjectId { id: 4 });
    let r = split(&this, &s("[object String]"), None, Some(1));
    assert_eq!(r, vec![Value::Object(ObjectId { id: 4 })]);
}

#[test]
fn split_string_gives_pieces() {
    let r = avm2::string_methods::split_string(&s("x-y"), &s("-"), None);
    assert_eq!(r, vec![s("x"), s("y")]);
}
