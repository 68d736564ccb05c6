use vstd::prelude::*;
use crate::text::str_eq;

verus! {

/// A JSON value held as a tree. Numbers keep their literal text so that a
/// document passes through unchanged.
pub enum Json {
    Null,
    Bool(bool),
    Number(String),
    Str(String),
    Array(Vec<Json>),
    Object(Vec<Field>),
}

/// One member of a JSON object.
pub struct Field {
    pub key: String,
    pub value: Json,
}

/// The value stored under `key`; where a key repeats, the last member wins.
pub open spec fn lookup(fields: Seq<Field>, key: Seq<char>) -> Option<Json>
    decreases fields.len(),
{
    if fields.len() == 0 {
        None
    } else if fields.last().key@ == key {
        Some(fields.last().value)
    } else {
        lookup(fields.drop_last(), key)
    }
}

/// The members whose key is not `key`, in their order.
pub open spec fn without(fields: Seq<Field>, key: Seq<char>) -> Seq<Field>
    decreases fields.len(),
{
    if fields.len() == 0 {
        fields
    } else if fields.last().key@ == key {
        without(fields.drop_last(), key)
    } else {
        without(fields.drop_last(), key).push(fields.last())
    }
}

/// How many members carry `key`.
pub open spec fn count_key(fields: Seq<Field>, key: Seq<char>) -> nat
    decreases fields.len(),
{
    if fields.len() == 0 {
        0
    } else {
        count_key(fields.drop_last(), key) + if fields.last().key@ == key { 1nat } else { 0nat }
    }
}

/// No key appears twice among the members, as in a parsed JSON object.
pub open spec fn unique_keys(fields: Seq<Field>) -> bool {
    forall|k: Seq<char>| #[trigger] count_key(fields, k) <= 1
}

/// Removing a key never adds members of another.
pub proof fn lemma_count_without(fields: Seq<Field>, key: Seq<char>, k: Seq<char>)
    ensures
        count_key(without(fields, key), k) <= count_key(fields, k),
    decreases fields.len(),
{
    if fields.len() > 0 {
        lemma_count_without(fields.drop_last(), key, k);
        let w = without(fields.drop_last(), key);
        if fields.last().key@ != key {
            assert(w.push(fields.last()).drop_last() == w);
        }
    }
}

/// The member `key` of a value, when the value is an object.
pub open spec fn field_of(v: Json, key: Seq<char>) -> Option<Json> {
    match v {
        Json::Object(fields) => lookup(fields@, key),
        _ => None,
    }
}

/// Same as `field_of`, for a value that may be missing.
pub open spec fn field_in(v: Option<Json>, key: Seq<char>) -> Option<Json> {
    match v {
        Some(x) => field_of(x, key),
        None => None,
    }
}

/// The members of a value that is an object.
pub open spec fn members(v: Option<Json>) -> Option<Seq<Field>> {
    match v {
        Some(Json::Object(fields)) => Some(fields@),
        _ => None,
    }
}

/// Removing `key` leaves no member of that key, and every other key as it was.
pub proof fn lemma_lookup_without(fields: Seq<Field>, key: Seq<char>, other: Seq<char>)
    ensures
        lookup(without(fields, key), other) == if other == key {
            None
        } else {
            lookup(fields, other)
        },
        count_key(without(fields, key), key) == 0,
    decreases fields.len(),
{
    if fields.len() > 0 {
        lemma_lookup_without(fields.drop_last(), key, other);
        let w = without(fields.drop_last(), key);
        if fields.last().key@ != key {
            assert(w.push(fields.last()).drop_last() == w);
        }
    }
}

/// `lemma_lookup_without` for every other key at once.
pub proof fn lemma_lookup_without_all(fields: Seq<Field>, key: Seq<char>)
    ensures
        forall|k: Seq<char>|
            k != key ==> #[trigger] lookup(without(fields, key), k) == lookup(fields, k),
        lookup(without(fields, key), key) is None,
{
    lemma_lookup_without(fields, key, key);
    assert forall|k: Seq<char>| k != key implies #[trigger] lookup(without(fields, key), k) == lookup(
        fields,
        k,
    ) by {
        lemma_lookup_without(fields, key, k);
    }
}

/// A member added at the end is what `lookup` finds for its key; other keys
/// read as before.
pub proof fn lemma_lookup_push(fields: Seq<Field>, f: Field)
    ensures
        forall|k: Seq<char>|
            #[trigger] lookup(fields.push(f), k) == if f.key@ == k {
                Some(f.value)
            } else {
                lookup(fields, k)
            },
{
    assert(fields.push(f).drop_last() == fields);
}

/// Appends `f` to an object's members.
pub fn push_field(fields: &mut Vec<Field>, f: Field)
    ensures
        final(fields)@ == old(fields)@.push(f),
        forall|k: Seq<char>|
            #[trigger] lookup(final(fields)@, k) == if f.key@ == k {
                Some(f.value)
            } else {
                lookup(old(fields)@, k)
            },
{
    let ghost before = fields@;
    let ghost g = f;
    fields.push(f);
    proof {
        lemma_lookup_push(before, g);
    }
}

/// One more member of a prefix, as `without` and `lookup` see it.
proof fn lemma_without_step(fields: Seq<Field>, key: Seq<char>, i: int)
    requires
        0 <= i < fields.len(),
    ensures
        without(fields.subrange(0, i + 1), key) == if fields[i].key@ == key {
            without(fields.subrange(0, i), key)
        } else {
            without(fields.subrange(0, i), key).push(fields[i])
        },
        lookup(fields.subrange(0, i + 1), key) == if fields[i].key@ == key {
            Some(fields[i].value)
        } else {
            lookup(fields.subrange(0, i), key)
        },
{
    assert(fields.subrange(0, i + 1).drop_last() == fields.subrange(0, i));
}

/// The value stored under `key` in `fields`.
pub fn get_field<'a>(fields: &'a Vec<Field>, key: &str) -> (r: Option<&'a Json>)
    ensures
        match r {
            Some(v) => lookup(fields@, key@) == Some(*v),
            None => lookup(fields@, key@) is None,
        },
{
    let mut i: usize = fields.len();
    assert(fields@.subrange(0, i as int) == fields@);
    while i > 0
        invariant
            i <= fields@.len(),
            lookup(fields@.subrange(0, i as int), key@) == lookup(fields@, key@),
        decreases i,
    {
        let f = &fields[i - 1];
        proof {
            lemma_without_step(fields@, key@, i - 1);
        }
        if str_eq(f.key.as_str(), key) {
            return Some(&f.value);
        }
        i = i - 1;
    }
    None
}

/// Splits `fields` into the members of other keys and the value stored
/// under `key`.
pub fn take_field(fields: Vec<Field>, key: &str) -> (r: (Vec<Field>, Option<Json>))
    ensures
        r.0@ == without(fields@, key@),
        r.1 == lookup(fields@, key@),
{
    let ghost orig = fields@;
    let mut rest = fields;
    let mut kept: Vec<Field> = Vec::new();
    let mut found: Option<Json> = None;
    while rest.len() > 0
        invariant
            rest@.len() <= orig.len(),
            rest@ == orig.subrange(orig.len() - rest@.len(), orig.len() as int),
            kept@ == without(orig.subrange(0, orig.len() - rest@.len()), key@),
            found == lookup(orig.subrange(0, orig.len() - rest@.len()), key@),
        decreases rest@.len(),
    {
        let ghost i = orig.len() - rest@.len();
        let f = rest.remove(0);
        proof {
            lemma_without_step(orig, key@, i);
            assert(rest@ == orig.subrange(i + 1, orig.len() as int));
        }
        if str_eq(f.key.as_str(), key) {
            found = Some(f.value);
        } else {
            kept.push(f);
        }
    }
    assert(orig.subrange(0, orig.len() as int) == orig);
    (kept, found)
}

/// Stores `value` under `key`, dropping any member the key had before; the
/// other members keep their order.
pub fn put_field(fields: Vec<Field>, key: String, value: Json) -> (r: Vec<Field>)
    ensures
        r@.drop_last() == without(fields@, key@),
        r@.last() == (Field { key, value }),
        r@.len() > 0,
        forall|k: Seq<char>|
            #[trigger] lookup(r@, k) == if k == key@ {
                Some(value)
            } else {
                lookup(fields@, k)
            },
        count_key(r@, key@) == 1,
        unique_keys(fields@) ==> unique_keys(r@),
{
    let ghost k0 = key@;
    let ghost f = Field { key, value };
    let (mut rest, _) = take_field(fields, key.as_str());
    rest.push(Field { key, value });
    proof {
        let w = without(fields@, k0);
        assert(rest@ == w.push(f));
        assert(w.push(f).drop_last() == w);
        lemma_lookup_push(w, f);
        lemma_lookup_without(fields@, k0, k0);
        assert(w.push(f).drop_last() == w);
        assert forall|k: Seq<char>| #[trigger] count_key(rest@, k) <= if k == k0 { 1 } else { count_key(fields@, k) } by {
            lemma_count_without(fields@, k0, k);
        }
        assert forall|k: Seq<char>| #[trigger]
            lookup(rest@, k) == if k == k0 {
                Some(f.value)
            } else {
                lookup(fields@, k)
            } by {
            lemma_lookup_without(fields@, k0, k);
        }
    }
    rest
}

} // verus!
