//! Native methods of the `String` class, over UTF-16 code units.
use vstd::prelude::*;
use crate::avm_string::AvmString;
use crate::class::{
    Class, ClassAttributes, InstanceAllocator, NativeMethod, NativeMethodEntry, NativeProperty,
};
use crate::value::{namespace_view, Namespace, QName, Value, ValueView};

verus! {

/// A numeric index argument after the interpreter's number conversion:
/// negative, not a number, or a non-negative value truncated to an integer.
#[derive(Clone, Copy, Debug, PartialEq, Eq, Structural)]
pub enum IndexArg {
    Negative,
    NotANumber,
    At(usize),
}

/// Where an index argument points: nowhere when negative, at 0 when not a
/// number.
pub open spec fn effective_index(a: IndexArg) -> Option<int> {
    match a {
        IndexArg::Negative => None,
        IndexArg::NotANumber => Some(0),
        IndexArg::At(n) => Some(n as int),
    }
}

/// The one-unit string at an index, or the empty string.
pub open spec fn char_at_spec(s: Seq<u16>, a: IndexArg) -> Seq<u16> {
    match effective_index(a) {
        Some(i) => if i < s.len() {
            seq![s[i]]
        } else {
            Seq::empty()
        },
        None => Seq::empty(),
    }
}

/// What `charCodeAt` yields.
#[derive(Clone, Copy, Debug, PartialEq, Eq, Structural)]
pub enum CharCode {
    /// The receiver holds no string.
    Undefined,
    /// Not a number: the index is negative or past the end.
    NaN,
    Code(u16),
}

pub open spec fn char_code_at_spec(s: Seq<u16>, a: IndexArg) -> CharCode {
    match effective_index(a) {
        Some(i) => if i < s.len() {
            CharCode::Code(s[i])
        } else {
            CharCode::NaN
        },
        None => CharCode::NaN,
    }
}

pub open spec fn views(v: Seq<AvmString>) -> Seq<Seq<u16>> {
    v.map_values(|a: AvmString| a@)
}

pub open spec fn is_high_surrogate(u: u16) -> bool {
    0xD800 <= u < 0xDC00
}

pub open spec fn is_low_surrogate(u: u16) -> bool {
    0xDC00 <= u < 0xE000
}

/// The characters of a string, each as its code units: a surrogate pair
/// stays together, any other unit stands alone.
pub open spec fn char_units(s: Seq<u16>) -> Seq<Seq<u16>>
    decreases s.len(),
{
    if s.len() == 0 {
        Seq::empty()
    } else if s.len() >= 2 && is_high_surrogate(s[0]) && is_low_surrogate(s[1]) {
        seq![s.subrange(0, 2)] + char_units(s.subrange(2, s.len() as int))
    } else {
        seq![s.subrange(0, 1)] + char_units(s.subrange(1, s.len() as int))
    }
}

pub open spec fn occurs_at(s: Seq<u16>, d: Seq<u16>, i: int) -> bool {
    0 <= i && i + d.len() <= s.len() && s.subrange(i, i + d.len()) == d
}

/// The pieces of `s` between the occurrences of a non-empty `d`, taken left
/// to right without overlap; the current piece began at `start` and the
/// search stands at `i`.
pub open spec fn split_from(s: Seq<u16>, d: Seq<u16>, start: int, i: int) -> Seq<Seq<u16>>
    decreases s.len() - i,
{
    if d.len() == 0 || i < 0 || i + d.len() > s.len() {
        seq![s.subrange(start, s.len() as int)]
    } else if occurs_at(s, d, i) {
        seq![s.subrange(start, i)] + split_from(s, d, i + d.len(), i + d.len())
    } else {
        split_from(s, d, start, i + 1)
    }
}

/// At most `limit` leading parts; a negative limit counts as zero.
pub open spec fn take_limit(parts: Seq<Seq<u16>>, limit: Option<i32>) -> Seq<Seq<u16>> {
    match limit {
        None => parts,
        Some(l) => if l <= 0 {
            Seq::empty()
        } else if l < parts.len() {
            parts.take(l as int)
        } else {
            parts
        },
    }
}

/// The pieces of `s` at a delimiter: with an empty one its characters, else
/// the pieces between the delimiter's occurrences; cut to the limit.
pub open spec fn split_pieces(s: Seq<u16>, d: Seq<u16>, limit: Option<i32>) -> Seq<Seq<u16>> {
    take_limit(
        if d.len() == 0 {
            char_units(s)
        } else {
            split_from(s, d, 0, 0)
        },
        limit,
    )
}

pub open spec fn value_views(v: Seq<Value>) -> Seq<ValueView> {
    v.map_values(|x: Value| x@)
}

/// Pieces as string values.
pub open spec fn string_values(pieces: Seq<Seq<u16>>) -> Seq<ValueView> {
    pieces.map_values(|p: Seq<u16>| ValueView::String(p))
}

proof fn lemma_views_push(v: Seq<AvmString>, x: AvmString)
    ensures
        views(v.push(x)) == views(v) + seq![x@],
{
    assert(views(v.push(x)) =~= views(v) + seq![x@]);
}

/// The string a receiver holds, if it holds one.
pub open spec fn receiver_string(this: Option<&Value>) -> Option<Seq<u16>> {
    match this {
        Some(v) => match v@ {
            ValueView::String(s) => Some(s),
            _ => None,
        },
        None => None,
    }
}

/// `String`'s instance initializer: a primitive that holds no string yet
/// takes the first argument's string form, or the empty string.
pub fn instance_init(primitive: &mut Value, first_arg: Option<AvmString>)
    ensures
        old(primitive)@ is String ==> final(primitive)@ == old(primitive)@,
        !(old(primitive)@ is String) ==> final(primitive)@ == ValueView::String(
            match first_arg {
                Some(a) => a@,
                None => Seq::empty(),
            },
        ),
{
    if let Value::String(_) = primitive {
        return;
    }
    *primitive = Value::String(
        match first_arg {
            Some(a) => a,
            None => AvmString::empty(),
        },
    );
}

/// `String`'s class initializer, which has nothing to do.
pub fn class_init() -> (r: Value)
    ensures
        r@ == ValueView::Undefined,
{
    Value::Undefined
}

/// The `length` getter: the number of UTF-16 code units, or `None` (undefined)
/// when the receiver holds no string.
pub fn length(this: Option<&Value>) -> (r: Option<usize>)
    ensures
        r matches Some(n) ==> receiver_string(this) matches Some(s) && n == s.len(),
        r is None ==> receiver_string(this) is None,
{
    if let Some(Value::String(s)) = this {
        return Some(s.len());
    }
    None
}

/// `charAt`: the code unit at the index as a one-unit string; the empty
/// string when the index is negative or past the end. Undefined when the
/// receiver holds no string.
pub fn char_at(this: Option<&Value>, index: IndexArg) -> (r: Value)
    ensures
        receiver_string(this) matches Some(s) ==> r@ == ValueView::String(char_at_spec(s, index)),
        receiver_string(this) is None ==> r@ == ValueView::Undefined,
{
    if let Some(Value::String(s)) = this {
        let at: usize = match index {
            IndexArg::Negative => return Value::String(AvmString::empty()),
            IndexArg::NotANumber => 0,
            IndexArg::At(n) => n,
        };
        if at < s.len() {
            let one = s.substring(at, at + 1);
            assert(one@ =~= seq![s@[at as int]]);
            return Value::String(one);
        }
        return Value::String(AvmString::empty());
    }
    Value::Undefined
}

/// `charCodeAt`: the code unit at the index; not a number when the index is
/// negative or past the end.
pub fn char_code_at(this: Option<&Value>, index: IndexArg) -> (r: CharCode)
    ensures
        receiver_string(this) matches Some(s) ==> r == char_code_at_spec(s, index),
        receiver_string(this) is None ==> r is Undefined,
{
    if let Some(Value::String(s)) = this {
        let at: usize = match index {
            IndexArg::Negative => return CharCode::NaN,
            IndexArg::NotANumber => 0,
            IndexArg::At(n) => n,
        };
        if at < s.len() {
            return CharCode::Code(s.units[at]);
        }
        return CharCode::NaN;
    }
    CharCode::Undefined
}

/// The characters of `s`, each as its own string.
pub fn split_chars(s: &AvmString) -> (r: Vec<AvmString>)
    ensures
        views(r@) == char_units(s@),
{
    let mut parts: Vec<AvmString> = Vec::new();
    let mut i: usize = 0;
    let n = s.len();
    assert(s@.subrange(0, n as int) =~= s@);
    assert(views(parts@) + char_units(s@) =~= char_units(s@));
    while i < n
        invariant
            n == s@.len(),
            i <= n,
            char_units(s@) == views(parts@) + char_units(s@.subrange(i as int, n as int)),
        decreases n - i,
    {
        let ghost rest = s@.subrange(i as int, n as int);
        let step: usize = if i + 1 < n && 0xD800 <= s.units[i] && s.units[i] < 0xDC00
            && 0xDC00 <= s.units[i + 1] && s.units[i + 1] < 0xE000 {
            2
        } else {
            1
        };
        let piece = s.substring(i, i + step);
        let ghost before = parts@;
        proof {
            lemma_views_push(before, piece);
            assert(rest.subrange(0, step as int) =~= piece@);
            assert(rest.subrange(step as int, rest.len() as int) =~= s@.subrange(
                i + step,
                n as int,
            ));
            assert(char_units(rest) == seq![piece@] + char_units(
                s@.subrange(i + step, n as int),
            ));
            assert(views(before) + (seq![piece@] + char_units(s@.subrange(i + step, n as int)))
                =~= (views(before) + seq![piece@]) + char_units(s@.subrange(i + step, n as int)));
        }
        parts.push(piece);
        i = i + step;
    }
    assert(views(parts@) + char_units(s@.subrange(n as int, n as int)) =~= views(parts@));
    parts
}

/// The pieces of `s` between the occurrences of the non-empty `d`.
pub fn split_on(s: &AvmString, d: &AvmString) -> (r: Vec<AvmString>)
    requires
        d@.len() > 0,
    ensures
        views(r@) == split_from(s@, d@, 0, 0),
{
    let mut parts: Vec<AvmString> = Vec::new();
    let n = s.len();
    let dl = d.len();
    let mut start: usize = 0;
    let mut i: usize = 0;
    assert(views(parts@) + split_from(s@, d@, 0, 0) =~= split_from(s@, d@, 0, 0));
    while i < n && dl <= n - i
        invariant
            n == s@.len(),
            dl == d@.len(),
            dl > 0,
            start <= i <= n,
            split_from(s@, d@, 0, 0) == views(parts@) + split_from(s@, d@, start as int, i as int),
        decreases n - i,
    {
        if s.matches_at(d, i) {
            let piece = s.substring(start, i);
            let ghost before = parts@;
            let ghost tail = split_from(s@, d@, (i + dl) as int, (i + dl) as int);
            proof {
                lemma_views_push(before, piece);
                assert(views(before) + (seq![piece@] + tail) =~= (views(before) + seq![piece@])
                    + tail);
            }
            parts.push(piece);
            i = i + dl;
            start = i;
        } else {
            i = i + 1;
        }
    }
    let last = s.substring(start, n);
    proof {
        lemma_views_push(parts@, last);
    }
    parts.push(last);
    parts
}

/// Keeps at most `limit` leading parts; a negative limit counts as zero.
fn apply_limit(parts: &mut Vec<AvmString>, limit: Option<i32>)
    ensures
        views(final(parts)@) == take_limit(views(old(parts)@), limit),
{
    if let Some(l) = limit {
        let keep: usize = if l <= 0 { 0 } else { l as usize };
        let ghost before = parts@;
        parts.truncate(keep);
        proof {
            if keep < before.len() {
                assert(views(parts@) =~= views(before).take(keep as int));
            }
        }
        if l <= 0 {
            assert(views(parts@) =~= Seq::<Seq<u16>>::empty());
        }
    }
}

/// The pieces of a string at a delimiter: with an empty delimiter the
/// string's characters, with no empty piece before or after them; else the
/// pieces between the delimiter's occurrences. Where a limit is given, at
/// most that many leading pieces are kept, none if it is negative.
pub fn split_string(this: &AvmString, delimiter: &AvmString, limit: Option<i32>) -> (r: Vec<
    AvmString,
>)
    ensures
        views(r@) == split_pieces(this@, delimiter@, limit),
{
    let mut parts = if delimiter.is_empty() {
        split_chars(this)
    } else {
        split_on(this, delimiter)
    };
    apply_limit(&mut parts, limit);
    parts
}

/// `split`: with no delimiter a one-element list holding the receiver
/// itself, unconverted; else the pieces of the receiver's string form
/// `this_string` at the delimiter, as string values.
pub fn split(
    this: &Value,
    this_string: &AvmString,
    delimiter: Option<&AvmString>,
    limit: Option<i32>,
) -> (r: Vec<Value>)
    ensures
        delimiter is None ==> value_views(r@) == seq![this@],
        delimiter matches Some(d) ==> value_views(r@) == string_values(
            split_pieces(this_string@, d@, limit),
        ),
{
    match delimiter {
        None => {
            let mut out: Vec<Value> = Vec::new();
            out.push(this.duplicate());
            assert(value_views(out@) =~= seq![this@]);
            out
        },
        Some(d) => {
            let parts = split_string(this_string, d, limit);
            let mut out: Vec<Value> = Vec::new();
            let mut i: usize = 0;
            while i < parts.len()
                invariant
                    i <= parts@.len(),
                    out@.len() == i,
                    value_views(out@) == string_values(views(parts@).take(i as int)),
                decreases parts@.len() - i,
            {
                let v = Value::String(parts[i].duplicate());
                let ghost before = out@;
                out.push(v);
                proof {
                    let want = string_values(views(parts@).take(i + 1));
                    let prev = string_values(views(parts@).take(i as int));
                    assert forall|k: int| 0 <= k < out@.len() implies #[trigger] value_views(out@)[k]
                        == want[k] by {
                        if k < i {
                            assert(out@[k] == before[k]);
                            assert(value_views(before)[k] == prev[k]);
                        }
                    }
                    assert(value_views(out@) =~= want);
                }
                i = i + 1;
            }
            assert(views(parts@).take(i as int) =~= views(parts@));
            out
        },
    }
}

pub open spec fn string_units() -> Seq<u16> {
    seq![83u16, 116, 114, 105, 110, 103]
}

pub open spec fn object_units() -> Seq<u16> {
    seq![79u16, 98, 106, 101, 99, 116]
}

pub open spec fn length_units() -> Seq<u16> {
    seq![108u16, 101, 110, 103, 116, 104]
}

pub open spec fn char_at_units() -> Seq<u16> {
    seq![99u16, 104, 97, 114, 65, 116]
}

pub open spec fn char_code_at_units() -> Seq<u16> {
    seq![99u16, 104, 97, 114, 67, 111, 100, 101, 65, 116]
}

pub open spec fn split_units() -> Seq<u16> {
    seq![115u16, 112, 108, 105, 116]
}

/// The `String` class: public, a subclass of `Object`, final and sealed,
/// with primitive instances, a `length` getter and the methods `charAt`,
/// `charCodeAt` and `split`.
pub fn create_class() -> (r: Class)
    ensures
        r.name@ == (namespace_view(Namespace::Public), string_units()),
        r.super_name matches Some(s) && s@ == (namespace_view(Namespace::Public), object_units()),
        r.instance_init == NativeMethod::StringInstanceInit,
        r.class_init == NativeMethod::StringClassInit,
        r.attributes == (ClassAttributes { is_final: true, sealed: true }),
        r.allocator == InstanceAllocator::Primitive,
        r.instance_properties@.len() == 1,
        r.instance_properties@[0].name@ == length_units(),
        r.instance_properties@[0].getter == Some(NativeMethod::StringLength),
        r.instance_properties@[0].setter is None,
        r.instance_methods@.len() == 3,
        r.instance_methods@[0].name@ == char_at_units(),
        r.instance_methods@[0].method == NativeMethod::StringCharAt,
        r.instance_methods@[1].name@ == char_code_at_units(),
        r.instance_methods@[1].method == NativeMethod::StringCharCodeAt,
        r.instance_methods@[2].name@ == split_units(),
        r.instance_methods@[2].method == NativeMethod::StringSplit,
{
    let name = QName::public(AvmString::from_units(vec![83u16, 116, 114, 105, 110, 103]));
    let super_name = QName::public(AvmString::from_units(vec![79u16, 98, 106, 101, 99, 116]));
    let mut instance_properties: Vec<NativeProperty> = Vec::new();
    instance_properties.push(
        NativeProperty {
            name: AvmString::from_units(vec![108u16, 101, 110, 103, 116, 104]),
            getter: Some(NativeMethod::StringLength),
            setter: None,
        },
    );
    let mut instance_methods: Vec<NativeMethodEntry> = Vec::new();
    instance_methods.push(
        NativeMethodEntry {
            name: AvmString::from_units(vec![99u16, 104, 97, 114, 65, 116]),
            method: NativeMethod::StringCharAt,
        },
    );
    instance_methods.push(
        NativeMethodEntry {
            name: AvmString::from_units(vec![99u16, 104, 97, 114, 67, 111, 100, 101, 65, 116]),
            method: NativeMethod::StringCharCodeAt,
        },
    );
    instance_methods.push(
        NativeMethodEntry {
            name: AvmString::from_units(vec![115u16, 112, 108, 105, 116]),
            method: NativeMethod::StringSplit,
        },
    );
    Class {
        name,
        super_name: Some(super_name),
        instance_init: NativeMethod::StringInstanceInit,
        class_init: NativeMethod::StringClassInit,
        attributes: ClassAttributes { is_final: true, sealed: true },
        allocator: InstanceAllocator::Primitive,
        instance_properties,
        instance_methods,
    }
}

} // verus!
