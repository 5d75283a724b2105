//! The library's own JSON document model: session data is held and reasoned
//! about as a `JsonValue`, whose mathematical shape is the ghost `JsonView`.

use vstd::prelude::*;

verus! {

/// A JSON document as stored in a session.
#[derive(Debug, PartialEq)]
pub enum JsonValue {
    Null,
    Bool(bool),
    Int(i64),
    Str(String),
    Arr(Vec<JsonValue>),
    Obj(Vec<(String, JsonValue)>),
}

/// The mathematical shape of a `JsonValue`: strings become sequences of
/// characters, vectors become sequences.
pub enum JsonView {
    Null,
    Bool(bool),
    Int(int),
    Str(Seq<char>),
    Arr(Seq<JsonView>),
    Obj(Seq<(Seq<char>, JsonView)>),
}

impl JsonValue {
    /// The view of a JSON document, taken field by field.
    pub open spec fn deep(self) -> JsonView
        decreases self,
    {
        match self {
            JsonValue::Null => JsonView::Null,
            JsonValue::Bool(b) => JsonView::Bool(b),
            JsonValue::Int(i) => JsonView::Int(i as int),
            JsonValue::Str(s) => JsonView::Str(s@),
            JsonValue::Arr(vs) => JsonView::Arr(
                Seq::new(vs@.len(), |i: int| if 0 <= i < vs@.len() { vs@[i].deep() } else { JsonView::Null }),
            ),
            JsonValue::Obj(fs) => JsonView::Obj(
                Seq::new(fs@.len(), |i: int| if 0 <= i < fs@.len() { (fs@[i].0@, fs@[i].1.deep()) } else { (Seq::empty(), JsonView::Null) }),
            ),
        }
    }
}

impl View for JsonValue {
    type V = JsonView;

    open spec fn view(&self) -> JsonView {
        self.deep()
    }
}

/// The value bound to `key` among an object's fields: the first binding whose
/// key matches, or `None` when no field carries that key.
pub open spec fn obj_lookup(fields: Seq<(Seq<char>, JsonView)>, key: Seq<char>) -> Option<JsonView>
    decreases fields.len(),
{
    if fields.len() == 0 {
        None
    } else if fields[0].0 == key {
        Some(fields[0].1)
    } else {
        obj_lookup(fields.subrange(1, fields.len() as int), key)
    }
}

/// Field lookup on a whole document: only objects have fields; on any other
/// kind of value every lookup misses.
pub open spec fn spec_get(v: JsonView, key: Seq<char>) -> Option<JsonView> {
    match v {
        JsonView::Obj(fields) => obj_lookup(fields, key),
        _ => None,
    }
}

/// An object's fields hold `key` exactly when `obj_lookup` finds it.
pub proof fn lemma_obj_lookup_found_iff(fields: Seq<(Seq<char>, JsonView)>, key: Seq<char>)
    ensures
        (obj_lookup(fields, key) is Some) <==> exists|i: int| 0 <= i < fields.len() && fields[i].0 == key,
    decreases fields.len(),
{
    if fields.len() > 0 {
        if fields[0].0 == key {
        } else {
            let rest = fields.subrange(1, fields.len() as int);
            lemma_obj_lookup_found_iff(rest, key);
            if obj_lookup(fields, key) is Some {
                let j = choose|j: int| 0 <= j < rest.len() && rest[j].0 == key;
                assert(fields[j + 1].0 == key);
            } else {
                if exists|i: int| 0 <= i < fields.len() && fields[i].0 == key {
                    let i = choose|i: int| 0 <= i < fields.len() && fields[i].0 == key;
                    assert(rest[i - 1].0 == key);
                }
            }
        }
    }
}

/// Skipping a field whose key differs leaves the lookup's result unchanged.
proof fn lemma_obj_lookup_skip(fields: Seq<(Seq<char>, JsonView)>, key: Seq<char>, i: int)
    requires
        0 <= i < fields.len(),
        fields[i].0 != key,
    ensures
        obj_lookup(fields.skip(i), key) == obj_lookup(fields.skip(i + 1), key),
{
    assert(fields.skip(i).len() > 0);
    assert(fields.skip(i)[0] == fields[i]);
    assert(fields.skip(i).subrange(1, fields.skip(i).len() as int) =~= fields.skip(i + 1));
}

impl JsonValue {
    /// The field named `key` of this document, when the document is an object
    /// that carries it.
    pub fn get<'a>(&'a self, key: &str) -> (r: Option<&'a JsonValue>)
        ensures
            match r {
                Some(x) => spec_get(self@, key@) == Some(x@),
                None => spec_get(self@, key@) is None,
            },
    {
        match self {
            JsonValue::Obj(fields) => {
                let ghost vfields = (match self@ { JsonView::Obj(f) => f, _ => Seq::empty() });
                let key_string = String::from_str(key);
                let n = fields.len();
                let mut i: usize = 0;
                proof {
                    assert(vfields.skip(0) =~= vfields);
                }
                while i < n
                    invariant
                        n == fields.len(),
                        i <= n,
                        self@ == JsonView::Obj(vfields),
                        vfields.len() == fields@.len(),
                        forall|j: int| 0 <= j < vfields.len() ==> vfields[j] == (fields@[j].0@, fields@[j].1@),
                        key_string@ == key@,
                        obj_lookup(vfields, key@) == obj_lookup(vfields.skip(i as int), key@),
                    decreases n - i,
                {
                    if fields[i].0 == key_string {
                        proof {
                            assert(vfields.skip(i as int)[0] == vfields[i as int]);
                        }
                        return Some(&fields[i].1);
                    }
                    proof {
                        lemma_obj_lookup_skip(vfields, key@, i as int);
                    }
                    i += 1;
                }
                proof {
                    assert(vfields.skip(n as int) =~= Seq::empty());
                }
                None
            },
            _ => None,
        }
    }
}

/// A deep copy of a JSON document, equal to the original view for view.
pub fn clone_json(v: &JsonValue) -> (r: JsonValue)
    ensures
        r@ == v@,
    decreases *v,
{
    match v {
        JsonValue::Null => JsonValue::Null,
        JsonValue::Bool(b) => JsonValue::Bool(*b),
        JsonValue::Int(i) => JsonValue::Int(*i),
        JsonValue::Str(s) => JsonValue::Str(s.clone()),
        JsonValue::Arr(vs) => {
            let n = vs.len();
            let mut out: Vec<JsonValue> = Vec::new();
            let mut i: usize = 0;
            while i < n
                invariant
                    n == vs.len(),
                    i <= n,
                    *v == JsonValue::Arr(*vs),
                    out@.len() == i as int,
                    forall|j: int| 0 <= j < i as int ==> out@[j]@ == vs@[j]@,
                decreases n - i,
            {
                proof {
                    assert(v->Arr_0 == *vs);
                    assert(decreases_to!(*v => v->Arr_0));
                    assert(decreases_to!(*vs => vs@));
                    assert(decreases_to!(vs@ => vs@[i as int]));
                }
                let c = clone_json(&vs[i]);
                out.push(c);
                i += 1;
            }
            let r = JsonValue::Arr(out);
            proof {
                let lhs = (match r@ { JsonView::Arr(x) => x, _ => Seq::empty() });
                let rhs = (match v@ { JsonView::Arr(x) => x, _ => Seq::empty() });
                assert(lhs =~= rhs);
            }
            r
        },
        JsonValue::Obj(fs) => {
            let n = fs.len();
            let mut out: Vec<(String, JsonValue)> = Vec::new();
            let mut i: usize = 0;
            while i < n
                invariant
                    n == fs.len(),
                    i <= n,
                    *v == JsonValue::Obj(*fs),
                    out@.len() == i as int,
                    forall|j: int| 0 <= j < i as int ==> out@[j].0@ == fs@[j].0@ && out@[j].1@ == fs@[j].1@,
                decreases n - i,
            {
                proof {
                    assert(v->Obj_0 == *fs);
                    assert(decreases_to!(*v => v->Obj_0));
                    assert(decreases_to!(*fs => fs@));
                    assert(decreases_to!(fs@ => fs@[i as int]));
                    assert(decreases_to!(fs@[i as int] => fs@[i as int].1));
                }
                let k = fs[i].0.clone();
                let c = clone_json(&fs[i].1);
                out.push((k, c));
                i += 1;
            }
            let r = JsonValue::Obj(out);
            proof {
                let lhs = (match r@ { JsonView::Obj(x) => x, _ => Seq::empty() });
                let rhs = (match v@ { JsonView::Obj(x) => x, _ => Seq::empty() });
                assert(lhs =~= rhs);
            }
            r
        },
    }
}

impl Clone for JsonValue {
    /// A deep copy: the clone's view equals the original's.
    fn clone(&self) -> (r: Self)
        ensures
            r@ == self@,
    {
        clone_json(self)
    }
}

} // verus!
