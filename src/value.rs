//! The runtime value model: a closed tagged union of values, and the
//! object map whose keys are unique and kept in insertion order.
use vstd::prelude::*;

verus! {

/// The kind of a runtime value, as reported in shape errors and declared
/// in parameter and return schemas.
#[derive(Clone, Copy, Debug, PartialEq, Eq, Structural)]
pub enum Kind {
    Null,
    Boolean,
    Integer,
    Bytes,
    Array,
    Object,
}

/// The name under which a kind appears in messages.
pub open spec fn kind_name(k: Kind) -> Seq<char> {
    match k {
        Kind::Null => "null"@,
        Kind::Boolean => "boolean"@,
        Kind::Integer => "integer"@,
        Kind::Bytes => "string"@,
        Kind::Array => "array"@,
        Kind::Object => "object"@,
    }
}

impl Kind {
    pub fn name(&self) -> (r: &'static str)
        ensures
            r@ == kind_name(*self),
    {
        match self {
            Kind::Null => "null",
            Kind::Boolean => "boolean",
            Kind::Integer => "integer",
            Kind::Bytes => "string",
            Kind::Array => "array",
            Kind::Object => "object",
        }
    }
}

/// A runtime value.
#[derive(Debug, PartialEq)]
pub enum Value {
    Null,
    Boolean(bool),
    Integer(i64),
    Bytes(Vec<u8>),
    Array(Vec<Value>),
    Object(ObjectMap),
}

impl Value {
    pub open spec fn spec_kind(&self) -> Kind {
        match self {
            Value::Null => Kind::Null,
            Value::Boolean(_) => Kind::Boolean,
            Value::Integer(_) => Kind::Integer,
            Value::Bytes(_) => Kind::Bytes,
            Value::Array(_) => Kind::Array,
            Value::Object(_) => Kind::Object,
        }
    }

    #[verifier::when_used_as_spec(spec_kind)]
    pub fn kind(&self) -> (r: Kind)
        ensures
            r == self.spec_kind(),
    {
        match self {
            Value::Null => Kind::Null,
            Value::Boolean(_) => Kind::Boolean,
            Value::Integer(_) => Kind::Integer,
            Value::Bytes(_) => Kind::Bytes,
            Value::Array(_) => Kind::Array,
            Value::Object(_) => Kind::Object,
        }
    }
}

/// An object's fields as a sequence of (key, value) pairs, in the map's order.
pub type Fields = Seq<(Seq<char>, Value)>;

/// The position of the last field named `k`, or -1 where there is none.
pub open spec fn key_index(m: Fields, k: Seq<char>) -> int
    decreases m.len(),
{
    if m.len() == 0 {
        -1
    } else if m.last().0 == k {
        m.len() - 1
    } else {
        key_index(m.drop_last(), k)
    }
}

/// The fields after `k` is set to `v`: in place where `k` is present,
/// appended where it is not.
pub open spec fn insert_field(m: Fields, k: Seq<char>, v: Value) -> Fields {
    let i = key_index(m, k);
    if i >= 0 {
        m.update(i, (k, v))
    } else {
        m.push((k, v))
    }
}

/// The value of the field named `k`, or null where there is none.
pub open spec fn field(m: Fields, k: Seq<char>) -> Value {
    let i = key_index(m, k);
    if i >= 0 {
        m[i].1
    } else {
        Value::Null
    }
}

/// Two field sequences with the same keys, position by position, find a
/// key at the same position.
proof fn lemma_key_index_same_keys(m1: Fields, m2: Fields, k: Seq<char>)
    requires
        m1.len() == m2.len(),
        forall|i: int| 0 <= i < m1.len() ==> m1[i].0 == m2[i].0,
    ensures
        key_index(m1, k) == key_index(m2, k),
{
    lemma_key_index_bounds(m1, k);
    lemma_key_index_bounds(m2, k);
}

/// After setting `k` to `v`, looking up `k` gives `v` and looking up any
/// other key gives what it gave before.
pub proof fn lemma_field_insert(m: Fields, k: Seq<char>, v: Value, k2: Seq<char>)
    ensures
        field(insert_field(m, k, v), k2) == if k2 == k {
            v
        } else {
            field(m, k2)
        },
{
    lemma_key_index_bounds(m, k);
    lemma_key_index_bounds(m, k2);
    let i = key_index(m, k);
    let m2 = insert_field(m, k, v);
    if i >= 0 {
        lemma_key_index_same_keys(m, m2, k2);
        lemma_key_index_bounds(m2, k2);
    } else {
        assert(m2.drop_last() =~= m);
    }
}

/// Removing a field leaves the lookup of any other key unchanged.
pub proof fn lemma_field_after_remove(m: Fields, k1: Seq<char>, k2: Seq<char>)
    requires
        k1 != k2,
        key_index(m, k1) >= 0,
    ensures
        field(m.remove(key_index(m, k1)), k2) == field(m, k2),
    decreases m.len(),
{
    lemma_key_index_bounds(m, k1);
    let i = key_index(m, k1);
    let r = m.remove(i);
    lemma_key_index_bounds(m.drop_last(), k2);
    if m.last().0 == k1 {
        assert(r =~= m.drop_last());
        assert(key_index(m, k2) == key_index(r, k2));
    } else {
        let d = m.drop_last();
        assert(key_index(d, k1) == i);
        assert(r.len() > 0);
        assert(r.last() == m.last());
        if m.last().0 == k2 {
            assert(key_index(r, k2) == r.len() - 1);
        } else {
            lemma_field_after_remove(d, k1, k2);
            assert(r.drop_last() =~= d.remove(i));
            lemma_key_index_bounds(d.remove(i), k2);
            assert(key_index(r, k2) == key_index(d.remove(i), k2));
            assert(key_index(m, k2) == key_index(d, k2));
            assert(field(r, k2) == field(d.remove(i), k2));
        }
    }
}

/// No key occurs twice.
pub open spec fn keys_distinct(m: Fields) -> bool {
    forall|i: int, j: int| 0 <= i < j < m.len() ==> m[i].0 != m[j].0
}

pub proof fn lemma_key_index_bounds(m: Fields, k: Seq<char>)
    ensures
        -1 <= key_index(m, k) < m.len(),
        key_index(m, k) >= 0 ==> m[key_index(m, k)].0 == k,
        key_index(m, k) < 0 ==> forall|i: int| 0 <= i < m.len() ==> m[i].0 != k,
        forall|i: int| key_index(m, k) < i < m.len() ==> m[i].0 != k,
    decreases m.len(),
{
    if m.len() > 0 && m.last().0 != k {
        lemma_key_index_bounds(m.drop_last(), k);
        assert forall|i: int| 0 <= i < m.len() - 1 implies m[i] == m.drop_last()[i] by {}
    }
}

/// A mapping from string keys to values. Keys are unique; fields keep the
/// order in which their keys were first inserted.
#[derive(Debug, PartialEq)]
pub struct ObjectMap {
    fields: Vec<(String, Value)>,
}

/// The fields of a sequence of owned (key, value) pairs.
pub open spec fn fields_of(s: Seq<(String, Value)>) -> Fields {
    s.map_values(|p: (String, Value)| (p.0@, p.1))
}

impl View for ObjectMap {
    type V = Fields;

    closed spec fn view(&self) -> Fields {
        fields_of(self.fields@)
    }
}

impl ObjectMap {
    /// Well-formed: no key occurs twice.
    pub open spec fn wf(&self) -> bool {
        keys_distinct(self@)
    }

    pub fn new() -> (r: ObjectMap)
        ensures
            r@ == Seq::<(Seq<char>, Value)>::empty(),
            r.wf(),
    {
        let r = ObjectMap { fields: Vec::new() };
        assert(r@ =~= Seq::<(Seq<char>, Value)>::empty());
        r
    }

    pub fn len(&self) -> (r: usize)
        ensures
            r == self@.len(),
    {
        self.fields.len()
    }

    /// The position of the last field named `k`, if any.
    fn find(&self, k: &String) -> (r: Option<usize>)
        ensures
            match r {
                Some(i) => i as int == key_index(self@, k@) && i < self@.len(),
                None => key_index(self@, k@) == -1,
            },
    {
        proof {
            lemma_key_index_bounds(self@, k@);
        }
        let mut i: usize = self.fields.len();
        assert(self@.subrange(0, i as int) =~= self@);
        while i > 0
            invariant
                i <= self.fields@.len(),
                self@.len() == self.fields@.len(),
                key_index(self@, k@) == key_index(self@.subrange(0, i as int), k@),
            decreases i,
        {
            let ghost prefix = self@.subrange(0, i as int);
            if self.fields[i - 1].0 == *k {
                return Some(i - 1);
            }
            assert(prefix.drop_last() =~= self@.subrange(0, i - 1));
            i = i - 1;
        }
        assert(self@.subrange(0, 0) =~= Seq::<(Seq<char>, Value)>::empty());
        None
    }

    /// Sets the field `k` to `v`, in place where `k` is present (the last
    /// write wins), appended where it is not.
    pub fn insert(&mut self, k: String, v: Value)
        requires
            old(self).wf(),
        ensures
            final(self)@ == insert_field(old(self)@, k@, v),
            final(self).wf(),
    {
        let ghost m = self@;
        let ghost kv = k@;
        proof {
            lemma_key_index_bounds(m, kv);
        }
        match self.find(&k) {
            Some(i) => {
                self.fields.set(i, (k, v));
                assert(self@ =~= m.update(i as int, (kv, v)));
                assert(keys_distinct(self@));
            },
            None => {
                self.fields.push((k, v));
                assert(self@ =~= m.push((kv, v)));
                assert(keys_distinct(self@));
            },
        }
    }

    /// Takes the field `k` out of the map, if present.
    pub fn remove(&mut self, k: &String) -> (r: Option<Value>)
        ensures
            key_index(old(self)@, k@) < 0 ==> r is None && final(self)@ == old(self)@,
            key_index(old(self)@, k@) >= 0 ==> r == Some(old(self)@[key_index(old(self)@, k@)].1)
                && final(self)@ == old(self)@.remove(key_index(old(self)@, k@)),
            r matches Some(v) ==> v == field(old(self)@, k@),
            r is None ==> field(old(self)@, k@) == Value::Null,
    {
        let ghost m = self@;
        match self.find(k) {
            Some(i) => {
                let (_, v) = self.fields.remove(i);
                assert(self@ =~= m.remove(i as int));
                Some(v)
            },
            None => None,
        }
    }

    /// The fields, in the map's order.
    pub fn into_fields(self) -> (r: Vec<(String, Value)>)
        ensures
            fields_of(r@) == self@,
    {
        self.fields
    }
}

} // verus!
