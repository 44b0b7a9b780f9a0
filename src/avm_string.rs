//! Immutable strings of UTF-16 code units, and the decimal index syntax used
//! to route property names to indexed storage.
use vstd::prelude::*;

verus! {

/// A string of UTF-16 code units.
#[derive(Debug, PartialEq, Eq)]
pub struct AvmString {
    pub units: Vec<u16>,
}

impl View for AvmString {
    type V = Seq<u16>;

    open spec fn view(&self) -> Seq<u16> {
        self.units@
    }
}

/// The UTF-16 code units of one character: one unit below 0x10000, else a
/// surrogate pair.
pub open spec fn char_utf16(c: char) -> Seq<u16> {
    let v = c as u32 as int;
    if v < 0x10000 {
        seq![v as u16]
    } else {
        seq![(0xD800 + (v - 0x10000) / 0x400) as u16, (0xDC00 + (v - 0x10000) % 0x400) as u16]
    }
}

/// The UTF-16 encoding of a sequence of characters.
pub open spec fn utf16_of(s: Seq<char>) -> Seq<u16>
    decreases s.len(),
{
    if s.len() == 0 {
        Seq::empty()
    } else {
        utf16_of(s.drop_last()) + char_utf16(s.last())
    }
}

/// Relies on `str::encode_utf16`: each character is encoded as one code
/// unit, or as a surrogate pair when it lies past the first plane.
#[verifier::external_body]
fn encode_utf16(s: &str) -> (r: Vec<u16>)
    ensures
        r@ == utf16_of(s@),
{
    s.encode_utf16().collect()
}

pub open spec fn is_digit(u: u16) -> bool {
    48 <= u <= 57
}

/// The value of a sequence of decimal digits.
pub open spec fn digits_value(s: Seq<u16>) -> nat
    decreases s.len(),
{
    if s.len() == 0 {
        0
    } else {
        digits_value(s.drop_last()) * 10 + (s.last() - 48) as nat
    }
}

/// The digits of an index: an optional leading `+` is skipped.
pub open spec fn index_digits(s: Seq<u16>) -> Seq<u16> {
    if s.len() > 0 && s[0] == 43 {
        s.subrange(1, s.len() as int)
    } else {
        s
    }
}

/// The index that a property name denotes: one or more decimal digits,
/// optionally after a `+`, whose value fits in `usize`.
pub open spec fn index_of_name(s: Seq<u16>) -> Option<nat> {
    let d = index_digits(s);
    if d.len() > 0 && (forall|k: int| 0 <= k < d.len() ==> is_digit(#[trigger] d[k]))
        && digits_value(d) <= usize::MAX {
        Some(digits_value(d))
    } else {
        None
    }
}

proof fn lemma_digits_value_grows(s: Seq<u16>, i: int)
    requires
        0 <= i <= s.len(),
        forall|k: int| 0 <= k < s.len() ==> is_digit(#[trigger] s[k]),
    ensures
        digits_value(s.subrange(0, i)) <= digits_value(s),
    decreases s.len() - i,
{
    if i < s.len() {
        lemma_digits_value_grows(s, i + 1);
        assert(s.subrange(0, i + 1).drop_last() =~= s.subrange(0, i));
    } else {
        assert(s.subrange(0, i) =~= s);
    }
}

impl AvmString {
    /// The empty string.
    pub fn empty() -> (r: AvmString)
        ensures
            r@ == Seq::<u16>::empty(),
    {
        AvmString { units: Vec::new() }
    }

    /// A string holding the given code units.
    pub fn from_units(units: Vec<u16>) -> (r: AvmString)
        ensures
            r@ == units@,
    {
        AvmString { units }
    }

    /// The UTF-16 encoding of `s`.
    pub fn from_str(s: &str) -> (r: AvmString)
        ensures
            r@ == utf16_of(s@),
    {
        AvmString { units: encode_utf16(s) }
    }

    /// The number of code units.
    pub fn len(&self) -> (r: usize)
        ensures
            r == self@.len(),
    {
        self.units.len()
    }

    pub fn is_empty(&self) -> (r: bool)
        ensures
            r == (self@.len() == 0),
    {
        self.units.len() == 0
    }

    /// A copy with the same code units.
    pub fn duplicate(&self) -> (r: AvmString)
        ensures
            r@ == self@,
    {
        self.substring(0, self.units.len())
    }

    /// The code units from `from` up to, not including, `to`.
    pub fn substring(&self, from: usize, to: usize) -> (r: AvmString)
        requires
            from <= to <= self@.len(),
        ensures
            r@ == self@.subrange(from as int, to as int),
    {
        let mut units: Vec<u16> = Vec::new();
        let mut i: usize = from;
        while i < to
            invariant
                from <= i <= to <= self@.len(),
                units@ == self@.subrange(from as int, i as int),
            decreases to - i,
        {
            units.push(self.units[i]);
            i = i + 1;
            assert(units@ =~= self@.subrange(from as int, i as int));
        }
        AvmString { units }
    }

    /// Whether both strings hold the same code units.
    pub fn equals(&self, other: &AvmString) -> (r: bool)
        ensures
            r == (self@ == other@),
    {
        if self.units.len() != other.units.len() {
            return false;
        }
        let mut i: usize = 0;
        while i < self.units.len()
            invariant
                self@.len() == other@.len(),
                i <= self@.len(),
                forall|k: int| 0 <= k < i ==> self@[k] == other@[k],
            decreases self@.len() - i,
        {
            if self.units[i] != other.units[i] {
                return false;
            }
            i = i + 1;
        }
        assert(self@ =~= other@);
        true
    }

    /// Whether `needle` occurs at position `at`.
    pub fn matches_at(&self, needle: &AvmString, at: usize) -> (r: bool)
        ensures
            r == (at + needle@.len() <= self@.len() && self@.subrange(
                at as int,
                at + needle@.len(),
            ) == needle@),
    {
        if needle.units.len() > self.units.len() || at > self.units.len() - needle.units.len() {
            return false;
        }
        let mut k: usize = 0;
        while k < needle.units.len()
            invariant
                at + needle@.len() <= self.units.len(),
                k <= needle@.len(),
                forall|j: int| 0 <= j < k ==> self@[at + j] == needle@[j],
            decreases needle@.len() - k,
        {
            assert(at + k < self@.len());
            if self.units[at + k] != needle.units[k] {
                assert(self@.subrange(at as int, at + needle@.len())[k as int] != needle@[k as int]);
                return false;
            }
            k = k + 1;
        }
        assert(self@.subrange(at as int, at + needle@.len()) =~= needle@);
        true
    }

    /// The index this string denotes as a property name, if any.
    pub fn parse_index(&self) -> (r: Option<usize>)
        ensures
            r matches Some(n) ==> index_of_name(self@) == Some(n as nat),
            r is None ==> index_of_name(self@) is None,
    {
        let s = &self.units;
        let start: usize = if s.len() > 0 && s[0] == 43 { 1 } else { 0 };
        let ghost d = index_digits(self@);
        assert(d =~= self@.subrange(start as int, self@.len() as int));
        if start >= s.len() {
            return None;
        }
        let mut value: usize = 0;
        let mut i: usize = start;
        while i < s.len()
            invariant
                start <= i <= s.len(),
                s@ == self@,
                d == self@.subrange(start as int, self@.len() as int),
                d == index_digits(self@),
                forall|k: int| 0 <= k < i - start ==> is_digit(#[trigger] d[k]),
                value == digits_value(d.subrange(0, i - start)),
            decreases s.len() - i,
        {
            let u = s[i];
            if u < 48 || u > 57 {
                assert(!is_digit(d[i - start]));
                assert(d == index_digits(self@));
                assert(index_of_name(self@) is None);
                return None;
            }
            let digit: usize = (u - 48) as usize;
            assert(d.subrange(0, i - start + 1).drop_last() =~= d.subrange(0, i - start));
            if value > (usize::MAX - digit) / 10 {
                proof {
                    assert(value * 10 + digit > usize::MAX) by (nonlinear_arith)
                        requires value > (usize::MAX - digit) / 10, digit <= 9;
                    if forall|k: int| 0 <= k < d.len() ==> is_digit(#[trigger] d[k]) {
                        lemma_digits_value_grows(d, i - start + 1);
                    }
                    assert(d == index_digits(self@));
                }
                return None;
            }
            assert(value * 10 + digit <= usize::MAX) by (nonlinear_arith)
                requires value <= (usize::MAX - digit) / 10, digit <= 9;
            value = value * 10 + digit;
            i = i + 1;
        }
        assert(d.subrange(0, d.len() as int) =~= d);
        Some(value)
    }
}

} // verus!
