//! A plain-value model of JSON documents, and compact JSON text encoding of
//! strings and unsigned integers.

use vstd::prelude::*;
use vstd::utf8::encode_utf8;
use crate::text::{decimal, decimal_string};

verus! {

/// A JSON number as the JSON data model keeps it: a non-negative integer,
/// a negative integer, or a floating-point number held by its IEEE-754 bits.
#[derive(Clone, Copy, Debug, PartialEq, Eq, Structural)]
pub enum JsonNumber {
    PosInt(u64),
    NegInt(i64),
    Float(u64),
}

/// A JSON value. Object members keep their order; keys are distinct.
#[derive(Debug)]
pub enum JsonValue {
    Null,
    Bool(bool),
    Number(JsonNumber),
    String(String),
    Array(Vec<JsonValue>),
    Object(Vec<(String, JsonValue)>),
}

/// The position of the first member named `key`, if any.
pub open spec fn member_index(members: Seq<(Seq<char>, JsonModel)>, key: Seq<char>) -> Option<int> {
    if exists|i: int| 0 <= i < members.len() && (#[trigger] members[i]).0 == key {
        Some(choose|i: int| 0 <= i < members.len() && (#[trigger] members[i]).0 == key && forall|j: int| 0 <= j < i ==> (#[trigger] members[j]).0 != key)
    } else {
        None
    }
}

/// The mathematical content of a JSON value.
pub enum JsonModel {
    Null,
    Bool(bool),
    Number(JsonNumber),
    String(Seq<char>),
    Array(Seq<JsonModel>),
    Object(Seq<(Seq<char>, JsonModel)>),
}

impl JsonValue {
    /// The content of this value.
    pub open spec fn model(self) -> JsonModel
        decreases self,
    {
        match self {
            JsonValue::Null => JsonModel::Null,
            JsonValue::Bool(b) => JsonModel::Bool(b),
            JsonValue::Number(n) => JsonModel::Number(n),
            JsonValue::String(s) => JsonModel::String(s@),
            JsonValue::Array(items) => JsonModel::Array(
                Seq::new(items@.len(), |i: int| if 0 <= i < items@.len() { items@[i].model() } else { JsonModel::Null }),
            ),
            JsonValue::Object(members) => JsonModel::Object(
                Seq::new(members@.len(), |i: int| if 0 <= i < members@.len() { (members@[i].0@, members@[i].1.model()) } else { (Seq::empty(), JsonModel::Null) }),
            ),
        }
    }
}

impl View for JsonValue {
    type V = JsonModel;

    open spec fn view(&self) -> JsonModel {
        self.model()
    }
}

impl JsonModel {
    /// The member named `key` of an object; nothing for other values.
    pub open spec fn spec_get(self, key: Seq<char>) -> Option<JsonModel> {
        match self {
            JsonModel::Object(m) => match member_index(m, key) {
                Some(i) => Some(m[i].1),
                None => None,
            },
            _ => None,
        }
    }

    /// The value of a non-negative integer; nothing for other values.
    pub open spec fn spec_as_u64(self) -> Option<u64> {
        match self {
            JsonModel::Number(JsonNumber::PosInt(n)) => Some(n),
            _ => None,
        }
    }
}

impl Clone for JsonValue {
    fn clone(&self) -> (r: Self)
        ensures
            r@ == self@,
    {
        self.deep_copy()
    }
}

impl JsonValue {
    /// An independently owned value with the same content.
    #[verifier::loop_isolation(false)]
    pub fn deep_copy(&self) -> (r: JsonValue)
        ensures
            r@ == self@,
        decreases self,
    {
        match self {
            JsonValue::Null => JsonValue::Null,
            JsonValue::Bool(b) => JsonValue::Bool(*b),
            JsonValue::Number(n) => JsonValue::Number(*n),
            JsonValue::String(s) => JsonValue::String(s.clone()),
            JsonValue::Array(items) => {
                assert(*self == JsonValue::Array(*items));
                let mut out: Vec<JsonValue> = Vec::new();
                let mut i: usize = 0;
                while i < items.len()
                    invariant
                        i <= items@.len(),
                        out@.len() == i,
                        forall|j: int| 0 <= j < i ==> (#[trigger] out@[j])@ == items@[j]@,
                    decreases items@.len() - i,
                {
                    proof {
                        let ghost sv: JsonValue = *self;
                        assert(sv->Array_0 == *items);
                        assert(decreases_to!(sv => sv->Array_0));
                        assert(decreases_to!(sv->Array_0 => (sv->Array_0)@));
                        assert(0 <= i < (sv->Array_0)@.len());
                        assert(decreases_to!((sv->Array_0)@ => (sv->Array_0)@[i as int]));
                    }
                    out.push(items[i].deep_copy());
                    i = i + 1;
                }
                let r = JsonValue::Array(out);
                assert(r@ == self@) by {
                    if let JsonModel::Array(a) = r@ {
                        if let JsonModel::Array(b) = self@ {
                            assert(a =~= b);
                        }
                    }
                }
                r
            },
            JsonValue::Object(members) => {
                assert(*self == JsonValue::Object(*members));
                let mut out: Vec<(String, JsonValue)> = Vec::new();
                let mut i: usize = 0;
                while i < members.len()
                    invariant
                        i <= members@.len(),
                        out@.len() == i,
                        forall|j: int| 0 <= j < i ==> (#[trigger] out@[j]).0@ == members@[j].0@ && out@[j].1@ == members@[j].1@,
                    decreases members@.len() - i,
                {
                    proof {
                        let ghost sv: JsonValue = *self;
                        assert(sv->Object_0 == *members);
                        assert(decreases_to!(sv => sv->Object_0));
                        assert(decreases_to!(sv->Object_0 => (sv->Object_0)@));
                        assert(0 <= i < (sv->Object_0)@.len());
                        assert(decreases_to!((sv->Object_0)@ => (sv->Object_0)@[i as int]));
                        assert(decreases_to!((sv->Object_0)@[i as int] => (sv->Object_0)@[i as int].1));
                    }
                    let v = members[i].1.deep_copy();
                    out.push((members[i].0.clone(), v));
                    i = i + 1;
                }
                let r = JsonValue::Object(out);
                assert(r@ == self@) by {
                    if let JsonModel::Object(a) = r@ {
                        if let JsonModel::Object(b) = self@ {
                            assert(a =~= b);
                        }
                    }
                }
                r
            },
        }
    }

    /// The member named `key` of an object (`Value::get`).
    #[verifier::loop_isolation(false)]
    pub fn get(&self, key: &str) -> (r: Option<&JsonValue>)
        ensures
            r matches Some(v) ==> self@.spec_get(key@) == Some(v@),
            r is None ==> self@.spec_get(key@) is None,
    {
        match self {
            JsonValue::Object(members) => {
                assert(*self == JsonValue::Object(*members));
                let ghost m = match self@ {
                    JsonModel::Object(m) => m,
                    _ => Seq::empty(),
                };
                assert(m.len() == members@.len());
                assert(forall|j: int| 0 <= j < m.len() ==> (#[trigger] m[j]).0 == members@[j].0@ && m[j].1 == members@[j].1@);
                let mut i: usize = 0;
                while i < members.len()
                    invariant
                        i <= members@.len(),
                        m.len() == members@.len(),
                        forall|j: int| 0 <= j < m.len() ==> (#[trigger] m[j]).0 == members@[j].0@ && m[j].1 == members@[j].1@,
                        forall|j: int| 0 <= j < i ==> (#[trigger] m[j]).0 != key@,
                    decreases members@.len() - i,
                {
                    if str_eq(members[i].0.as_str(), key) {
                        proof {
                            let idx = i as int;
                            assert(m[idx].0 == key@);
                            assert(exists|k: int| 0 <= k < m.len() && (#[trigger] m[k]).0 == key@);
                            let c = choose|k: int| 0 <= k < m.len() && (#[trigger] m[k]).0 == key@ && forall|j: int| 0 <= j < k ==> (#[trigger] m[j]).0 != key@;
                            assert(0 <= idx < m.len() && m[idx].0 == key@ && forall|j: int| 0 <= j < idx ==> (#[trigger] m[j]).0 != key@);
                            if c < idx {
                                assert(m[c].0 != key@);
                            } else if c > idx {
                                assert(m[idx].0 != key@);
                            }
                            assert(member_index(m, key@) == Some(idx));
                        }
                        return Some(&members[i].1);
                    }
                    i = i + 1;
                }
                None
            },
            _ => None,
        }
    }

    /// The value of a non-negative integer (`Value::as_u64`).
    pub fn as_u64(&self) -> (r: Option<u64>)
        ensures
            r == self@.spec_as_u64(),
    {
        match self {
            JsonValue::Number(JsonNumber::PosInt(n)) => Some(*n),
            _ => None,
        }
    }
}

/// Text equality (`PartialEq` on `str`).
#[verifier::external_body]
pub(crate) fn str_eq(a: &str, b: &str) -> (r: bool)
    ensures
        r <==> a@ == b@,
{
    a == b
}

/// Lower-case hexadecimal digit as a byte.
pub open spec fn hex_byte(n: nat) -> u8 {
    if n < 10 {
        (48 + n) as u8
    } else {
        (87 + n) as u8
    }
}

/// The escape sequence of one byte inside a JSON string literal.
pub open spec fn escape_byte(b: u8) -> Seq<u8> {
    if b == 34 {
        seq![92u8, 34u8]
    } else if b == 92 {
        seq![92u8, 92u8]
    } else if b == 8 {
        seq![92u8, 98u8]
    } else if b == 9 {
        seq![92u8, 116u8]
    } else if b == 10 {
        seq![92u8, 110u8]
    } else if b == 12 {
        seq![92u8, 102u8]
    } else if b == 13 {
        seq![92u8, 114u8]
    } else if b < 32 {
        seq![92u8, 117u8, 48u8, 48u8, hex_byte(b as nat / 16), hex_byte(b as nat % 16)]
    } else {
        seq![b]
    }
}

/// The escaped bytes of a string's UTF-8 encoding.
pub open spec fn escape_bytes(s: Seq<u8>) -> Seq<u8>
    decreases s.len(),
{
    if s.len() == 0 {
        seq![]
    } else {
        escape_bytes(s.drop_last()) + escape_byte(s.last())
    }
}

/// A JSON string literal holding the text whose UTF-8 bytes are `s`.
pub open spec fn json_string(s: Seq<u8>) -> Seq<u8> {
    seq![34u8] + escape_bytes(s) + seq![34u8]
}

/// A JSON number literal for an unsigned integer.
pub open spec fn json_u64(n: nat) -> Seq<u8> {
    encode_utf8(decimal(n))
}

fn hex_byte_exec(n: u8) -> (r: u8)
    requires
        n < 16,
    ensures
        r == hex_byte(n as nat),
{
    if n < 10 {
        48 + n
    } else {
        87 + n
    }
}

/// Appends the escape sequence of one byte.
fn push_escaped_byte(out: &mut Vec<u8>, b: u8)
    ensures
        final(out)@ == old(out)@ + escape_byte(b),
{
    let ghost start = out@;
    if b == 34 {
        out.push(92);
        out.push(34);
    } else if b == 92 {
        out.push(92);
        out.push(92);
    } else if b == 8 {
        out.push(92);
        out.push(98);
    } else if b == 9 {
        out.push(92);
        out.push(116);
    } else if b == 10 {
        out.push(92);
        out.push(110);
    } else if b == 12 {
        out.push(92);
        out.push(102);
    } else if b == 13 {
        out.push(92);
        out.push(114);
    } else if b < 32 {
        out.push(92);
        out.push(117);
        out.push(48);
        out.push(48);
        out.push(hex_byte_exec(b / 16));
        out.push(hex_byte_exec(b % 16));
    } else {
        out.push(b);
    }
    assert(out@ =~= start + escape_byte(b));
}

/// Appends a JSON string literal for `s`.
pub fn push_json_string(out: &mut Vec<u8>, s: &str)
    ensures
        final(out)@ == old(out)@ + json_string(encode_utf8(s@)),
{
    let bytes = s.as_bytes();
    let ghost b = bytes@;
    assert(b == encode_utf8(s@));
    out.push(34);
    let ghost base = out@;
    let mut i: usize = 0;
    assert(b.take(0) =~= Seq::<u8>::empty());
    while i < bytes.len()
        invariant
            i <= b.len(),
            b == bytes@,
            out@ == base + escape_bytes(b.take(i as int)),
        decreases b.len() - i,
    {
        let ghost before = out@;
        push_escaped_byte(out, bytes[i]);
        proof {
            assert(b.take((i + 1) as int).drop_last() =~= b.take(i as int));
            assert(b.take((i + 1) as int).last() == b[i as int]);
            assert(out@ =~= base + escape_bytes(b.take((i + 1) as int)));
        }
        i = i + 1;
    }
    assert(b.take(i as int) =~= b);
    out.push(34);
    assert(out@ =~= old(out)@ + json_string(encode_utf8(s@)));
}

/// Appends the decimal literal of an unsigned integer.
pub fn push_json_u64(out: &mut Vec<u8>, n: u64)
    ensures
        final(out)@ == old(out)@ + json_u64(n as nat),
{
    let s = decimal_string(n);
    let bytes = s.as_str().as_bytes();
    let ghost before = out@;
    let mut i: usize = 0;
    while i < bytes.len()
        invariant
            i <= bytes@.len(),
            out@ == before + bytes@.take(i as int),
        decreases bytes@.len() - i,
    {
        out.push(bytes[i]);
        i = i + 1;
        assert(out@ =~= before + bytes@.take(i as int));
    }
    assert(bytes@.take(i as int) =~= bytes@);
}

/// Appends the UTF-8 bytes of a text verbatim.
pub fn push_text(out: &mut Vec<u8>, s: &str)
    ensures
        final(out)@ == old(out)@ + encode_utf8(s@),
{
    let bytes = s.as_bytes();
    let ghost before = out@;
    let mut i: usize = 0;
    while i < bytes.len()
        invariant
            i <= bytes@.len(),
            out@ == before + bytes@.take(i as int),
        decreases bytes@.len() - i,
    {
        out.push(bytes[i]);
        i = i + 1;
        assert(out@ =~= before + bytes@.take(i as int));
    }
    assert(bytes@.take(i as int) =~= bytes@);
}

} // verus!
