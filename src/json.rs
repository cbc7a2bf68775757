//! A JSON tree owned by the library, its mathematical view, and the
//! defensive lookups that every extractor is built from.
use vstd::prelude::*;

verus! {

broadcast use vstd::std_specs::vec::group_vec_axioms;

/// A JSON value. Numbers that fit in an `i128` are held as integers; any
/// other number is kept as the text it was written with.
#[derive(Debug)]
pub enum Json {
    Null,
    Bool(bool),
    Int(i128),
    Decimal(String),
    Str(String),
    Array(Vec<Json>),
    Object(Vec<(String, Json)>),
}

/// The mathematical value of a [`Json`].
pub enum JsonV {
    Null,
    Bool(bool),
    Int(int),
    Decimal(Seq<char>),
    Str(Seq<char>),
    Array(Seq<JsonV>),
    Object(Seq<(Seq<char>, JsonV)>),
}

impl View for Json {
    type V = JsonV;

    open spec fn view(&self) -> JsonV
        decreases self,
    {
        match self {
            Json::Null => JsonV::Null,
            Json::Bool(b) => JsonV::Bool(*b),
            Json::Int(n) => JsonV::Int(*n as int),
            Json::Decimal(s) => JsonV::Decimal(s@),
            Json::Str(s) => JsonV::Str(s@),
            Json::Array(items) => JsonV::Array(
                Seq::new(
                    items@.len(),
                    |i: int|
                        if 0 <= i < items@.len() {
                            items@[i].view()
                        } else {
                            JsonV::Null
                        },
                ),
            ),
            Json::Object(entries) => JsonV::Object(
                Seq::new(
                    entries@.len(),
                    |i: int|
                        if 0 <= i < entries@.len() {
                            entry_view(&entries@[i])
                        } else {
                            (Seq::empty(), JsonV::Null)
                        },
                ),
            ),
        }
    }
}

/// The view of one member of an object: its key and its value.
pub open spec fn entry_view(e: &(String, Json)) -> (Seq<char>, JsonV)
    decreases e,
{
    (e.0@, e.1.view())
}

/// The value of the first member named `key`.
pub open spec fn lookup(entries: Seq<(Seq<char>, JsonV)>, key: Seq<char>) -> Option<JsonV>
    decreases entries.len(),
{
    if entries.len() == 0 {
        None
    } else if entries[0].0 == key {
        Some(entries[0].1)
    } else {
        lookup(entries.drop_first(), key)
    }
}

impl JsonV {
    /// The member `key` of an object; nothing for any other value.
    pub open spec fn field(self, key: Seq<char>) -> Option<JsonV> {
        match self {
            JsonV::Object(entries) => lookup(entries, key),
            _ => None,
        }
    }

    /// The element at `i` of an array; nothing for any other value.
    pub open spec fn item(self, i: int) -> Option<JsonV> {
        match self {
            JsonV::Array(items) => if 0 <= i < items.len() {
                Some(items[i])
            } else {
                None
            },
            _ => None,
        }
    }

    /// Follows an optional hop: absent stays absent.
    pub open spec fn field_of(v: Option<JsonV>, key: Seq<char>) -> Option<JsonV> {
        match v {
            Some(x) => x.field(key),
            None => None,
        }
    }

    pub open spec fn item_of(v: Option<JsonV>, i: int) -> Option<JsonV> {
        match v {
            Some(x) => x.item(i),
            None => None,
        }
    }

    /// Whether a value holds something: not null, and not an empty object or
    /// array.
    pub open spec fn nonempty(self) -> bool {
        match self {
            JsonV::Null => false,
            JsonV::Object(entries) => entries.len() > 0,
            JsonV::Array(items) => items.len() > 0,
            _ => true,
        }
    }

    /// The text of a string value.
    pub open spec fn text(self) -> Option<Seq<char>> {
        match self {
            JsonV::Str(s) => Some(s),
            _ => None,
        }
    }

    pub open spec fn text_of(v: Option<JsonV>) -> Option<Seq<char>> {
        match v {
            Some(x) => x.text(),
            None => None,
        }
    }
}

/// The view of an optional borrowed value.
pub open spec fn opt_view(r: Option<&Json>) -> Option<JsonV> {
    match r {
        Some(v) => Some(v@),
        None => None,
    }
}

/// The view of an optional string.
pub open spec fn opt_text(r: Option<&String>) -> Option<Seq<char>> {
    match r {
        Some(s) => Some(s@),
        None => None,
    }
}

proof fn lemma_lookup_step(entries: Seq<(Seq<char>, JsonV)>, i: int, key: Seq<char>)
    requires
        0 <= i < entries.len(),
    ensures
        lookup(entries.subrange(i, entries.len() as int), key) == if entries[i].0 == key {
            Some(entries[i].1)
        } else {
            lookup(entries.subrange(i + 1, entries.len() as int), key)
        },
{
    let s = entries.subrange(i, entries.len() as int);
    assert(s.drop_first() =~= entries.subrange(i + 1, entries.len() as int));
}

impl Json {
    /// A copy of the whole tree.
    pub fn duplicate(&self) -> (r: Json)
        ensures
            r@ == self@,
        decreases self,
    {
        match self {
            Json::Null => Json::Null,
            Json::Bool(b) => Json::Bool(*b),
            Json::Int(n) => Json::Int(*n),
            Json::Decimal(s) => Json::Decimal(s.clone()),
            Json::Str(s) => Json::Str(s.clone()),
            Json::Array(items) => {
                let mut out: Vec<Json> = Vec::new();
                let mut i: usize = 0;
                while i < items.len()
                    invariant
                        i <= items.len(),
                        *self == Json::Array(*items),
                        out@.len() == i,
                        forall|k: int| 0 <= k < i ==> (#[trigger] out@[k])@ == items@[k]@,
                    decreases items.len() - i,
                {
                    proof {
                        assert(decreases_to!(self => self->Array_0));
                        assert(decreases_to!(*items => items@));
                        assert(decreases_to!(items@ => items@[i as int]));
                    }
                    let c = items[i].duplicate();
                    out.push(c);
                    i += 1;
                }
                let r = Json::Array(out);
                proof {
                    assert(r@->Array_0 =~= self@->Array_0);
                }
                r
            },
            Json::Object(entries) => {
                let mut out: Vec<(String, Json)> = Vec::new();
                let mut i: usize = 0;
                while i < entries.len()
                    invariant
                        i <= entries.len(),
                        *self == Json::Object(*entries),
                        out@.len() == i,
                        forall|k: int|
                            0 <= k < i ==> (#[trigger] out@[k]).0@ == entries@[k].0@ && out@[k].1@
                                == entries@[k].1@,
                    decreases entries.len() - i,
                {
                    proof {
                        assert(decreases_to!(self => self->Object_0));
                        assert(decreases_to!(*entries => entries@));
                        assert(decreases_to!(entries@ => entries@[i as int]));
                        assert(decreases_to!(entries@[i as int] => entries@[i as int].1));
                    }
                    let v = entries[i].1.duplicate();
                    out.push((entries[i].0.clone(), v));
                    i += 1;
                }
                let r = Json::Object(out);
                proof {
                    assert forall|k: int| 0 <= k < out@.len() implies r@->Object_0[k]
                        == self@->Object_0[k] by {
                        assert(entry_view(&out@[k]) == entry_view(&entries@[k]));
                    }
                    assert(r@->Object_0 =~= self@->Object_0);
                }
                r
            },
        }
    }

    /// The member `key` of an object.
    pub fn get(&self, key: &str) -> (r: Option<&Json>)
        ensures
            opt_view(r) == self@.field(key@),
    {
        match self {
            Json::Object(entries) => {
                let k = String::from_str(key);
                let ghost ev = self@->Object_0;
                let mut i: usize = 0;
                proof {
                    assert(ev.subrange(0, ev.len() as int) =~= ev);
                }
                while i < entries.len()
                    invariant
                        i <= entries.len(),
                        *self == Json::Object(*entries),
                        ev == self@->Object_0,
                        ev.len() == entries@.len(),
                        k@ == key@,
                        lookup(ev, key@) == lookup(ev.subrange(i as int, ev.len() as int), key@),
                    decreases entries.len() - i,
                {
                    proof {
                        lemma_lookup_step(ev, i as int, key@);
                        assert(ev[i as int] == entry_view(&entries@[i as int]));
                    }
                    if entries[i].0 == k {
                        return Some(&entries[i].1);
                    }
                    i += 1;
                }
                proof {
                    assert(ev.subrange(i as int, ev.len() as int) =~= Seq::empty());
                }
                None
            },
            _ => None,
        }
    }

    /// The element at `i` of an array.
    pub fn at(&self, i: usize) -> (r: Option<&Json>)
        ensures
            opt_view(r) == self@.item(i as int),
    {
        match self {
            Json::Array(items) => {
                if i < items.len() {
                    Some(&items[i])
                } else {
                    None
                }
            },
            _ => None,
        }
    }

    pub fn as_str(&self) -> (r: Option<&String>)
        ensures
            opt_text(r) == self@.text(),
    {
        match self {
            Json::Str(s) => Some(s),
            _ => None,
        }
    }

    pub fn as_array(&self) -> (r: Option<&Vec<Json>>)
        ensures
            self@ is Array <==> r is Some,
            r is Some ==> self == &Json::Array(*r->0),
    {
        match self {
            Json::Array(items) => Some(items),
            _ => None,
        }
    }

    pub fn as_bool(&self) -> (r: Option<bool>)
        ensures
            r == match self@ {
                JsonV::Bool(b) => Some(b),
                _ => None::<bool>,
            },
    {
        match self {
            Json::Bool(b) => Some(*b),
            _ => None,
        }
    }

    pub fn as_int(&self) -> (r: Option<i128>)
        ensures
            match self@ {
                JsonV::Int(n) => r == Some(n as i128) && r->0 as int == n,
                _ => r is None,
            },
    {
        match self {
            Json::Int(n) => Some(*n),
            _ => None,
        }
    }

    pub fn is_null(&self) -> (r: bool)
        ensures
            r == self@ is Null,
    {
        match self {
            Json::Null => true,
            _ => false,
        }
    }

    pub fn is_nonempty(&self) -> (r: bool)
        ensures
            r == self@.nonempty(),
    {
        match self {
            Json::Null => false,
            Json::Object(entries) => entries.len() > 0,
            Json::Array(items) => items.len() > 0,
            _ => true,
        }
    }

    pub fn is_object(&self) -> (r: bool)
        ensures
            r == self@ is Object,
    {
        match self {
            Json::Object(_) => true,
            _ => false,
        }
    }
}

/// An optional hop that starts from an optional value.
pub fn get_opt<'a>(v: Option<&'a Json>, key: &str) -> (r: Option<&'a Json>)
    ensures
        opt_view(r) == JsonV::field_of(opt_view(v), key@),
{
    match v {
        Some(x) => x.get(key),
        None => None,
    }
}

pub fn at_opt<'a>(v: Option<&'a Json>, i: usize) -> (r: Option<&'a Json>)
    ensures
        opt_view(r) == JsonV::item_of(opt_view(v), i as int),
{
    match v {
        Some(x) => x.at(i),
        None => None,
    }
}

pub fn str_opt<'a>(v: Option<&'a Json>) -> (r: Option<&'a String>)
    ensures
        opt_text(r) == JsonV::text_of(opt_view(v)),
{
    match v {
        Some(x) => x.as_str(),
        None => None,
    }
}

/// One hop of a lookup path: a member name or an array index.
#[derive(Debug)]
pub enum Hop {
    Key(&'static str),
    Index(usize),
}

/// Follows `path` from `v`; absent as soon as one hop is absent.
pub open spec fn walk(v: Option<JsonV>, path: Seq<Hop>) -> Option<JsonV>
    decreases path.len(),
{
    if path.len() == 0 {
        v
    } else {
        let next = match path[0] {
            Hop::Key(k) => JsonV::field_of(v, k@),
            Hop::Index(i) => JsonV::item_of(v, i as int),
        };
        walk(next, path.drop_first())
    }
}

/// Follows a lookup path from `v`.
pub fn walk_path<'a>(v: &'a Json, path: &[Hop]) -> (r: Option<&'a Json>)
    ensures
        opt_view(r) == walk(Some(v@), path@),
{
    let mut cur: Option<&'a Json> = Some(v);
    let mut i: usize = 0;
    proof {
        assert(path@.subrange(0, path@.len() as int) =~= path@);
    }
    while i < path.len()
        invariant
            i <= path@.len(),
            walk(Some(v@), path@) == walk(opt_view(cur), path@.subrange(i as int, path@.len() as int)),
        decreases path.len() - i,
    {
        proof {
            assert(path@.subrange(i as int, path@.len() as int).drop_first() =~= path@.subrange(
                i + 1,
                path@.len() as int,
            ));
        }
        cur = match &path[i] {
            Hop::Key(k) => get_opt(cur, k),
            Hop::Index(n) => at_opt(cur, *n),
        };
        i += 1;
    }
    cur
}

} // verus!
