//! JSON values, as far as the library reads and edits them.
use crate::text;
use crate::text::same;
use vstd::prelude::*;
use vstd::string::*;

verus! {

/// A JSON value.
#[derive(Debug)]
pub enum Json {
    Null,
    Bool(bool),
    /// A whole number that is not negative.
    Count(u64),
    /// A negative whole number.
    Negative(i64),
    /// Any other number, as it is written.
    Real(String),
    Text(String),
    List(Vec<Json>),
    Object(Vec<Member>),
}

/// A member of a JSON object.
#[derive(Debug)]
pub struct Member {
    pub key: String,
    pub value: Json,
}

/// A JSON value without its representation.
pub ghost enum Value {
    Null,
    Bool(bool),
    Count(u64),
    Negative(i64),
    Real(Seq<char>),
    Text(Seq<char>),
    List(Seq<Value>),
    Object(Seq<(Seq<char>, Value)>),
}

impl Json {
    /// The value without its representation.
    pub open spec fn value(self) -> Value
        decreases self,
    {
        match self {
            Json::Null => Value::Null,
            Json::Bool(b) => Value::Bool(b),
            Json::Count(n) => Value::Count(n),
            Json::Negative(n) => Value::Negative(n),
            Json::Real(s) => Value::Real(s@),
            Json::Text(s) => Value::Text(s@),
            Json::List(v) => Value::List(
                Seq::new(
                    v@.len(),
                    |i: int|
                        if 0 <= i < v@.len() {
                            v@[i].value()
                        } else {
                            Value::Null
                        },
                ),
            ),
            Json::Object(v) => Value::Object(
                Seq::new(
                    v@.len(),
                    |i: int|
                        if 0 <= i < v@.len() {
                            (v@[i].key@, v@[i].value.value())
                        } else {
                            (Seq::empty(), Value::Null)
                        },
                ),
            ),
        }
    }
}

impl View for Json {
    type V = Value;

    open spec fn view(&self) -> Value {
        self.value()
    }
}

/// The values of a list.
pub open spec fn values(v: Seq<Json>) -> Seq<Value> {
    Seq::new(v.len(), |i: int| v[i]@)
}

/// The members of an object.
pub open spec fn members(v: Seq<Member>) -> Seq<(Seq<char>, Value)> {
    Seq::new(v.len(), |i: int| (v[i].key@, v[i].value@))
}

/// The value of a list or an object is made of those of its parts.
pub proof fn lemma_parts(j: Json)
    ensures
        j matches Json::List(v) ==> j@ == Value::List(values(v@)),
        j matches Json::Object(v) ==> j@ == Value::Object(members(v@)),
{
    match j {
        Json::List(v) => {
            assert(j.value()->List_0 =~= values(v@));
        },
        Json::Object(v) => {
            assert(j.value()->Object_0 =~= members(v@));
        },
        _ => {},
    }
}

// ── Reading ──────────────────────────────────────────────────────────────────

/// The value that an object has under a key.
pub open spec fn found(object: Seq<(Seq<char>, Value)>, key: Seq<char>) -> Option<Value>
    decreases object.len(),
{
    if object.len() == 0 {
        None
    } else if object[0].0 == key {
        Some(object[0].1)
    } else {
        found(object.skip(1), key)
    }
}

/// The value of an optional one.
pub open spec fn opt_value(v: Option<&Json>) -> Option<Value> {
    match v {
        Some(j) => Some(j@),
        None => None,
    }
}

/// The value that an object has under a key.
pub fn get<'a>(object: &'a Vec<Member>, key: &str) -> (r: Option<&'a Json>)
    ensures
        opt_value(r) == found(members(object@), key@),
{
    let ghost all = members(object@);
    let mut i: usize = 0;
    assert(all.skip(0) =~= all);
    while i < object.len()
        invariant
            i <= object.len(),
            all == members(object@),
            found(all, key@) == found(all.skip(i as int), key@),
        decreases object.len() - i,
    {
        assert(all.skip(i as int)[0] == all[i as int]);
        if same(&object[i].key, key) {
            return Some(&object[i].value);
        }
        assert(all.skip(i as int).skip(1) =~= all.skip(i + 1));
        i += 1;
    }
    None
}

/// The text that a value is.
pub open spec fn as_text(v: Option<Value>) -> Option<Seq<char>> {
    match v {
        Some(Value::Text(s)) => Some(s),
        _ => None,
    }
}

/// The text that an object has under a key.
pub fn get_text<'a>(object: &'a Vec<Member>, key: &str) -> (r: Option<&'a str>)
    ensures
        text::opt_str(r) == as_text(found(members(object@), key@)),
{
    match get(object, key) {
        Some(Json::Text(s)) => Some(s.as_str()),
        _ => None,
    }
}

// ── Building ─────────────────────────────────────────────────────────────────

/// A text.
pub fn text_value(s: &str) -> (r: Json)
    ensures
        r@ == Value::Text(s@),
{
    Json::Text(s.to_owned())
}

/// A list of texts.
pub open spec fn text_list(parts: Seq<Seq<char>>) -> Value {
    Value::List(Seq::new(parts.len(), |i: int| Value::Text(parts[i])))
}

/// A list.
pub fn list_value(v: Vec<Json>) -> (r: Json)
    ensures
        r@ == Value::List(values(v@)),
{
    let r = Json::List(v);
    proof {
        lemma_parts(r);
    }
    r
}

/// An object.
pub fn object_value(v: Vec<Member>) -> (r: Json)
    ensures
        r@ == Value::Object(members(v@)),
{
    let r = Json::Object(v);
    proof {
        lemma_parts(r);
    }
    r
}

/// A member of an object.
pub fn member(key: &str, value: Json) -> (r: Member)
    ensures
        r.key@ == key@,
        r.value@ == value@,
{
    Member { key: key.to_owned(), value }
}

// ── Editing ──────────────────────────────────────────────────────────────────

/// An object with a value under a key: in the place of the one that is there, or at
/// the end.
pub open spec fn with_member(
    object: Seq<(Seq<char>, Value)>,
    key: Seq<char>,
    value: Value,
) -> Seq<(Seq<char>, Value)>
    decreases object.len(),
{
    if object.len() == 0 {
        seq![(key, value)]
    } else if object[0].0 == key {
        seq![(key, value)] + object.skip(1)
    } else {
        seq![object[0]] + with_member(object.skip(1), key, value)
    }
}

/// What is put under a key is found there, and nothing else changes.
pub proof fn law_members_are_found(
    object: Seq<(Seq<char>, Value)>,
    key: Seq<char>,
    value: Value,
    other: Seq<char>,
)
    ensures
        found(with_member(object, key, value), key) == Some(value),
        other != key ==> found(with_member(object, key, value), other) == found(object, other),
    decreases object.len(),
{
    let edited = with_member(object, key, value);
    if object.len() == 0 {
        assert(edited.skip(1) =~= Seq::empty());
        assert(found(edited.skip(1), other) is None);
    } else if object[0].0 == key {
        assert(edited.skip(1) =~= object.skip(1));
    } else {
        law_members_are_found(object.skip(1), key, value, other);
        assert(edited.skip(1) =~= with_member(object.skip(1), key, value));
    }
}

/// A member is found where the key first stands, and is set there; a key that an object
/// does not have is set behind the others. The other members stay where they are.
pub proof fn law_members_stay_in_place(
    object: Seq<(Seq<char>, Value)>,
    key: Seq<char>,
    value: Value,
    i: int,
)
    ensures
        0 <= i < object.len() && object[i].0 == key && (forall|j: int|
            0 <= j < i ==> (#[trigger] object[j]).0 != key) ==> found(object, key) == Some(
            object[i].1,
        ) && with_member(object, key, value) == object.update(i, (key, value)),
        (forall|j: int| 0 <= j < object.len() ==> (#[trigger] object[j]).0 != key) ==> found(
            object,
            key,
        ) is None && with_member(object, key, value) == object.push((key, value)),
    decreases object.len(),
{
    if object.len() > 0 {
        let rest = object.skip(1);
        law_members_stay_in_place(rest, key, value, i - 1);
        if 0 <= i < object.len() && object[i].0 == key && (forall|j: int|
            0 <= j < i ==> (#[trigger] object[j]).0 != key) {
            if i == 0 {
                assert(with_member(object, key, value) =~= object.update(0, (key, value)));
            } else {
                assert(object[0].0 != key);
                assert(rest[i - 1] == object[i]);
                assert forall|j: int| 0 <= j < i - 1 implies (#[trigger] rest[j]).0 != key by {
                    assert(rest[j] == object[j + 1]);
                }
                assert(with_member(object, key, value) =~= object.update(i, (key, value)));
            }
        }
        if forall|j: int| 0 <= j < object.len() ==> (#[trigger] object[j]).0 != key {
            assert(object[0].0 != key);
            assert forall|j: int| 0 <= j < rest.len() implies (#[trigger] rest[j]).0 != key by {
                assert(rest[j] == object[j + 1]);
            }
            assert(with_member(object, key, value) =~= object.push((key, value)));
        }
    } else {
        assert(with_member(object, key, value) =~= object.push((key, value)));
    }
}

/// Where an object has a key, or its length.
fn position(object: &Vec<Member>, key: &str) -> (r: usize)
    ensures
        r <= object.len(),
        r < object.len() ==> object@[r as int].key@ == key@,
        forall|k: int| 0 <= k < r ==> (#[trigger] object@[k]).key@ != key@,
{
    let mut i: usize = 0;
    while i < object.len() && !same(&object[i].key, key)
        invariant
            i <= object.len(),
            forall|k: int| 0 <= k < i ==> (#[trigger] object@[k]).key@ != key@,
        decreases object.len() - i,
    {
        i += 1;
    }
    i
}

proof fn lemma_with_member(
    object: Seq<(Seq<char>, Value)>,
    key: Seq<char>,
    value: Value,
    at: int,
)
    requires
        0 <= at <= object.len(),
        at < object.len() ==> object[at].0 == key,
        forall|k: int| 0 <= k < at ==> (#[trigger] object[k]).0 != key,
    ensures
        with_member(object, key, value) == if at < object.len() {
            object.update(at, (key, value))
        } else {
            object.push((key, value))
        },
    decreases object.len(),
{
    if object.len() == 0 {
        assert(seq![(key, value)] =~= object.push((key, value)));
    } else if at == 0 {
        assert(seq![(key, value)] + object.skip(1) =~= object.update(0, (key, value)));
    } else {
        let rest = object.skip(1);
        assert(object[0].0 != key);
        assert forall|k: int| 0 <= k < at - 1 implies (#[trigger] rest[k]).0 != key by {
            assert(rest[k] == object[k + 1]);
        }
        lemma_with_member(rest, key, value, at - 1);
        if at < object.len() {
            assert(seq![object[0]] + rest.update(at - 1, (key, value)) =~= object.update(
                at,
                (key, value),
            ));
        } else {
            assert(seq![object[0]] + rest.push((key, value)) =~= object.push((key, value)));
        }
    }
}

/// Puts a value under a key.
pub fn put(object: &mut Vec<Member>, key: &str, value: Json)
    ensures
        members(final(object)@) == with_member(members(old(object)@), key@, value@),
{
    let at = position(object, key);
    let ghost before = members(object@);
    proof {
        assert forall|k: int| 0 <= k < at implies (#[trigger] before[k]).0 != key@ by {
            assert(object@[k].key@ != key@);
        }
        lemma_with_member(before, key@, value@, at as int);
    }
    let one = member(key, value);
    if at < object.len() {
        object.set(at, one);
        assert(members(object@) =~= before.update(at as int, (key@, one.value@)));
    } else {
        object.push(one);
        assert(members(object@) =~= before.push((key@, one.value@)));
    }
}

/// The members of a value that can take some: an object, or nothing yet.
pub open spec fn open_members(v: Option<Value>) -> Option<Seq<(Seq<char>, Value)>> {
    match v {
        None => Some(Seq::empty()),
        Some(Value::Null) => Some(Seq::empty()),
        Some(Value::Object(object)) => Some(object),
        Some(_) => None,
    }
}

/// A configuration with a value under a key of one of its sections. Neither the
/// configuration nor the section may be anything but an object or missing.
pub open spec fn with_entry(
    config: Value,
    section: Seq<char>,
    key: Seq<char>,
    value: Value,
) -> Option<Value> {
    match open_members(Some(config)) {
        Some(top) => match open_members(found(top, section)) {
            Some(inner) => Some(
                Value::Object(
                    with_member(top, section, Value::Object(with_member(inner, key, value))),
                ),
            ),
            None => None,
        },
        None => None,
    }
}

fn into_members(v: Json) -> (r: Option<Vec<Member>>)
    ensures
        match r {
            Some(object) => open_members(Some(v@)) == Some(members(object@)),
            None => open_members(Some(v@)) is None,
        },
{
    proof {
        lemma_parts(v);
    }
    match v {
        Json::Null => {
            let none: Vec<Member> = Vec::new();
            assert(members(none@) =~= Seq::empty());
            Some(none)
        },
        Json::Object(object) => Some(object),
        _ => None,
    }
}

/// The first member with a key is the one that is found.
pub(crate) proof fn lemma_found_at(object: Seq<(Seq<char>, Value)>, key: Seq<char>, at: int)
    requires
        0 <= at <= object.len(),
        at < object.len() ==> object[at].0 == key,
        forall|k: int| 0 <= k < at ==> (#[trigger] object[k]).0 != key,
    ensures
        found(object, key) == if at < object.len() {
            Some(object[at].1)
        } else {
            None
        },
    decreases object.len(),
{
    if object.len() > 0 && at > 0 {
        let rest = object.skip(1);
        assert(object[0].0 != key);
        assert forall|k: int| 0 <= k < at - 1 implies (#[trigger] rest[k]).0 != key by {
            assert(rest[k] == object[k + 1]);
        }
        lemma_found_at(rest, key, at - 1);
    }
}

proof fn lemma_with_removed(
    object: Seq<(Seq<char>, Value)>,
    key: Seq<char>,
    value: Value,
    at: int,
)
    requires
        0 <= at < object.len(),
        object[at].0 == key,
        forall|k: int| 0 <= k < at ==> (#[trigger] object[k]).0 != key,
    ensures
        object.remove(at).insert(at, (key, value)) == with_member(object, key, value),
{
    lemma_with_member(object, key, value, at);
    assert(object.remove(at).insert(at, (key, value)) =~= object.update(at, (key, value)));
}

/// Puts a value under a key of one of a configuration's sections.
pub fn put_entry(config: Json, section: &str, key: &str, value: Json) -> (r: Option<Json>)
    ensures
        match r {
            Some(edited) => with_entry(config@, section@, key@, value@) == Some(edited@),
            None => with_entry(config@, section@, key@, value@) is None,
        },
{
    let mut top = match into_members(config) {
        Some(top) => top,
        None => {
            return None;
        },
    };
    let ghost before = members(top@);
    let at = position(&top, section);
    proof {
        assert forall|k: int| 0 <= k < at implies (#[trigger] before[k]).0 != section@ by {
            assert(top@[k].key@ != section@);
        }
        lemma_found_at(before, section@, at as int);
    }
    if at < top.len() {
        let old_member = top.remove(at);
        assert(members(top@) =~= before.remove(at as int));
        let mut inner = match into_members(old_member.value) {
            Some(inner) => inner,
            None => {
                return None;
            },
        };
        put(&mut inner, key, value);
        let edited = member(section, object_value(inner));
        top.insert(at, edited);
        proof {
            lemma_with_removed(before, section@, edited.value@, at as int);
            assert(members(top@) =~= before.remove(at as int).insert(
                at as int,
                (section@, edited.value@),
            ));
        }
    } else {
        let mut inner: Vec<Member> = Vec::new();
        assert(members(inner@) =~= Seq::empty());
        put(&mut inner, key, value);
        let edited = member(section, object_value(inner));
        top.push(edited);
        proof {
            lemma_with_member(before, section@, edited.value@, at as int);
            assert(members(top@) =~= before.push((section@, edited.value@)));
        }
    }
    Some(object_value(top))
}

} // verus!
