//! The conversion pair: an object to an array of `{ key, value }` entry
//! records, and such an array back to an object.
use vstd::prelude::*;
use vstd::string::*;
use vstd::utf8::{
    decode_utf8, encode_utf8, encode_utf8_decode_utf8, encode_utf8_valid_utf8, valid_utf8,
};
use crate::error::ConversionError;
use crate::value::{
    field, fields_of, insert_field, key_index, keys_distinct, lemma_field_after_remove,
    lemma_field_insert, lemma_key_index_bounds, Fields, Kind, ObjectMap, Value,
};

verus! {

/// The text of `b` read as UTF-8, each invalid sequence replaced by U+FFFD.
pub uninterp spec fn utf8_lossy(b: Seq<u8>) -> Seq<char>;

/// The key that a byte string stands for: its UTF-8 decoding where it is
/// valid, its lossy decoding where it is not.
pub open spec fn key_of_bytes(b: Seq<u8>) -> Seq<char> {
    if valid_utf8(b) {
        decode_utf8(b)
    } else {
        utf8_lossy(b)
    }
}

/// Relies on `String::from_utf8_lossy`: valid UTF-8 comes back decoded
/// unchanged; invalid sequences are replaced by U+FFFD.
#[verifier::external_body]
fn decode_lossy(b: &Vec<u8>) -> (r: String)
    ensures
        r@ == utf8_lossy(b@),
        valid_utf8(b@) ==> r@ == decode_utf8(b@),
{
    String::from_utf8_lossy(b.as_slice()).into_owned()
}

/// The key of an entry: only a byte string can be one.
pub fn make_key_string(key: Value) -> (r: Result<String, ConversionError>)
    ensures
        match key {
            Value::Bytes(b) => r matches Ok(s) && s@ == key_of_bytes(b@),
            _ => r == Err::<String, ConversionError>(ConversionError::KeyTypeError),
        },
{
    match key {
        Value::Bytes(b) => Ok(decode_lossy(&b)),
        _ => Err(ConversionError::KeyTypeError),
    }
}

/// The (key, value) pair that one element of an entries array contributes.
pub open spec fn entry_of(e: Value) -> Result<(Seq<char>, Value), ConversionError> {
    match e {
        Value::Object(o) => match field(o@, "key"@) {
            Value::Bytes(b) => Ok((key_of_bytes(b@), field(o@, "value"@))),
            _ => Err(ConversionError::KeyTypeError),
        },
        _ => Err(ConversionError::ShapeMismatch { expected: Kind::Object, got: e.spec_kind() }),
    }
}

/// The fields of the object built from an entries array, inserting in
/// array order, or the error of the first element that is not an entry.
pub open spec fn object_from_entries(s: Seq<Value>) -> Result<Fields, ConversionError>
    decreases s.len(),
{
    if s.len() == 0 {
        Ok(Seq::empty())
    } else {
        match object_from_entries(s.drop_last()) {
            Err(e) => Err(e),
            Ok(m) => match entry_of(s.last()) {
                Err(e) => Err(e),
                Ok(kv) => Ok(insert_field(m, kv.0, kv.1)),
            },
        }
    }
}

/// The first element that is not an entry decides the outcome: what
/// follows it is never read.
proof fn lemma_error_persists(s: Seq<Value>, n: int)
    requires
        0 <= n <= s.len(),
        object_from_entries(s.take(n)) is Err,
    ensures
        object_from_entries(s) == object_from_entries(s.take(n)),
    decreases s.len() - n,
{
    if n < s.len() {
        assert(s.take(n + 1).drop_last() =~= s.take(n));
        lemma_error_persists(s, n + 1);
    } else {
        assert(s.take(n) =~= s);
    }
}

/// Last write wins: where an element is an entry for key `k` and no later
/// element is, the object built from the array maps `k` to that entry's
/// value.
pub proof fn lemma_last_entry_wins(s: Seq<Value>, i: int, k: Seq<char>, v: Value)
    requires
        0 <= i < s.len(),
        object_from_entries(s) is Ok,
        entry_of(s[i]) == Ok::<(Seq<char>, Value), ConversionError>((k, v)),
        forall|j: int| i < j < s.len() ==> (#[trigger] entry_of(s[j]))->Ok_0.0 != k,
    ensures
        field(object_from_entries(s)->Ok_0, k) == v,
    decreases s.len(),
{
    let d = s.drop_last();
    let m = object_from_entries(d)->Ok_0;
    let kv = entry_of(s.last())->Ok_0;
    lemma_field_insert(m, kv.0, kv.1, k);
    if i < s.len() - 1 {
        assert(d[i] == s[i]);
        assert forall|j: int| i < j < d.len() implies (#[trigger] entry_of(d[j]))->Ok_0.0 != k by {
            assert(d[j] == s[j]);
        }
        lemma_last_entry_wins(d, i, k, v);
    }
}

/// What `from_entries` returns for `value`.
pub open spec fn from_entries_result(value: Value, r: Result<Value, ConversionError>) -> bool {
    match value {
        Value::Array(a) => match object_from_entries(a@) {
            Ok(m) => r matches Ok(Value::Object(o)) && o@ == m && o.wf(),
            Err(e) => r == Err::<Value, ConversionError>(e),
        },
        _ => r == Err::<Value, ConversionError>(
            ConversionError::ShapeMismatch { expected: Kind::Array, got: value.spec_kind() },
        ),
    }
}

/// Builds an object from an array of `{ key, value }` records. A missing
/// field counts as null; a repeated key keeps the last value.
pub fn from_entries(value: Value) -> (r: Result<Value, ConversionError>)
    ensures
        from_entries_result(value, r),
{
    let ghost v0 = value;
    let array = match value {
        Value::Array(a) => a,
        other => {
            return Err(ConversionError::ShapeMismatch { expected: Kind::Array, got: other.kind() });
        },
    };
    let ghost elems = array@;
    let key_name = String::from_str("key");
    let value_name = String::from_str("value");
    proof {
        reveal_strlit("key");
        reveal_strlit("value");
        assert("key"@.len() != "value"@.len());
    }
    let mut object = ObjectMap::new();
    assert(elems.take(0) =~= Seq::<Value>::empty());
    for entry in it: array.into_iter()
        invariant
            it.seq() == elems,
            key_name@ == "key"@,
            value_name@ == "value"@,
            object.wf(),
            object_from_entries(elems.take(it.index() as int)) == Ok::<Fields, ConversionError>(object@),
            "key"@ != "value"@,
            v0 == value,
            v0 matches Value::Array(a) && a@ == elems,
    {
        let ghost i = it.index() as int;
        assert(elems.take(i + 1).drop_last() =~= elems.take(i));
        assert(elems.take(i + 1).last() == entry);
        let ghost e0 = entry;
        let mut entry = match entry {
            Value::Object(o) => o,
            other => {
                proof {
                    lemma_error_persists(elems, i + 1);
                }
                return Err(
                    ConversionError::ShapeMismatch { expected: Kind::Object, got: other.kind() },
                );
            },
        };
        let ghost fields = entry@;
        let key = match entry.remove(&key_name) {
            Some(k) => k,
            None => Value::Null,
        };
        proof {
            if key_index(fields, "key"@) >= 0 {
                lemma_field_after_remove(fields, "key"@, "value"@);
            }
        }
        let value = match entry.remove(&value_name) {
            Some(v) => v,
            None => Value::Null,
        };
        let key = match make_key_string(key) {
            Ok(k) => k,
            Err(e) => {
                proof {
                    lemma_error_persists(elems, i + 1);
                }
                return Err(e);
            },
        };
        object.insert(key, value);
    }
    assert(elems.take(elems.len() as int) =~= elems);
    Ok(Value::Object(object))
}

/// `e` is the entry record `{ "key": k, "value": v }`, its key written as
/// the UTF-8 bytes of `k`.
pub open spec fn is_entry(e: Value, k: Seq<char>, v: Value) -> bool {
    &&& e matches Value::Object(o)
    &&& o.wf()
    &&& o@.len() == 2
    &&& o@[0].0 == "key"@
    &&& o@[0].1 matches Value::Bytes(b) && b@ == encode_utf8(k)
    &&& o@[1] == ("value"@, v)
}

/// `a` holds one entry record for each field of `m`, in the same order.
pub open spec fn entries_of(a: Seq<Value>, m: Fields) -> bool {
    &&& a.len() == m.len()
    &&& forall|i: int| 0 <= i < a.len() ==> is_entry(#[trigger] a[i], m[i].0, m[i].1)
}

/// What `to_entries` returns for `value`.
pub open spec fn to_entries_result(value: Value, r: Result<Value, ConversionError>) -> bool {
    match value {
        Value::Object(o) => r matches Ok(Value::Array(a)) && entries_of(a@, o@),
        _ => r == Err::<Value, ConversionError>(
            ConversionError::ShapeMismatch { expected: Kind::Object, got: value.spec_kind() },
        ),
    }
}

/// The entry record for one field.
pub fn build_entry(key: String, value: Value) -> (r: Value)
    ensures
        is_entry(r, key@, value),
{
    let bytes = key.as_str().as_bytes_vec();
    let key_name = String::from_str("key");
    let value_name = String::from_str("value");
    proof {
        reveal_strlit("key");
        reveal_strlit("value");
        assert("key"@.len() != "value"@.len());
    }
    let ghost kb = bytes@;
    assert(kb == encode_utf8(key@));
    let mut entry = ObjectMap::new();
    entry.insert(key_name, Value::Bytes(bytes));
    let ghost first = entry@;
    assert(first.len() == 1 && first.last().0 == "key"@);
    assert(first.drop_last() =~= Seq::<(Seq<char>, Value)>::empty());
    assert(key_index(first.drop_last(), "value"@) == -1);
    assert("key"@ != "value"@);
    assert(key_index(first, "value"@) == -1);
    entry.insert(value_name, value);
    assert(entry@[0] == first[0]);
    Value::Object(entry)
}

/// Turns an object into an array of `{ key, value }` records, one for each
/// field, in the object's order.
pub fn to_entries(value: Value) -> (r: Result<Value, ConversionError>)
    ensures
        to_entries_result(value, r),
{
    let object = match value {
        Value::Object(o) => o,
        other => {
            return Err(ConversionError::ShapeMismatch { expected: Kind::Object, got: other.kind() });
        },
    };
    let ghost m = object@;
    let fields = object.into_fields();
    let ghost pairs = fields@;
    let mut entries: Vec<Value> = Vec::new();
    for pair in it: fields.into_iter()
        invariant
            it.seq() == pairs,
            fields_of(pairs) == m,
            entries@.len() == it.index(),
            forall|j: int| 0 <= j < it.index() ==> is_entry(#[trigger] entries@[j], m[j].0, m[j].1),
    {
        let (k, v) = pair;
        entries.push(build_entry(k, v));
    }
    Ok(Value::Array(entries))
}

/// Reading back the entries of an object with distinct keys gives the
/// object's fields, prefix by prefix.
proof fn lemma_entries_prefix(a: Seq<Value>, m: Fields, n: int)
    requires
        keys_distinct(m),
        entries_of(a, m),
        0 <= n <= a.len(),
    ensures
        object_from_entries(a.take(n)) == Ok::<Fields, ConversionError>(m.take(n)),
    decreases n,
{
    if n == 0 {
        assert(a.take(0) =~= Seq::<Value>::empty());
        assert(m.take(0) =~= Seq::<(Seq<char>, Value)>::empty());
    } else {
        lemma_entries_prefix(a, m, n - 1);
        assert(a.take(n).drop_last() =~= a.take(n - 1));
        let e = a[n - 1];
        let (k, v) = m[n - 1];
        assert(is_entry(e, k, v));
        reveal_strlit("key");
        reveal_strlit("value");
        assert("key"@.len() != "value"@.len());
        let o = e->Object_0;
        assert(o@.last().0 == "value"@);
        assert(o@.drop_last().last().0 == "key"@);
        assert(key_index(o@.drop_last(), "key"@) == 0);
        assert(field(o@, "value"@) == v);
        assert(field(o@, "key"@) == o@[0].1);
        encode_utf8_valid_utf8(k);
        encode_utf8_decode_utf8(k);
        assert(entry_of(e) == Ok::<(Seq<char>, Value), ConversionError>((k, v)));
        lemma_key_index_bounds(m.take(n - 1), k);
        assert(key_index(m.take(n - 1), k) == -1);
        assert(m.take(n) =~= m.take(n - 1).push((k, v)));
    }
}

/// Round trip: turning an object with distinct keys into entries and those
/// entries back into an object gives the same fields, in the same order.
pub proof fn lemma_round_trip(
    object: ObjectMap,
    entries: Result<Value, ConversionError>,
    back: Result<Value, ConversionError>,
)
    requires
        object.wf(),
        to_entries_result(Value::Object(object), entries),
        entries matches Ok(a) && from_entries_result(a, back),
    ensures
        back matches Ok(Value::Object(o)) && o@ == object@,
{
    let a = entries->Ok_0->Array_0@;
    lemma_entries_prefix(a, object@, a.len() as int);
    assert(a.take(a.len() as int) =~= a);
    assert(object@.take(a.len() as int) =~= object@);
}

} // verus!
