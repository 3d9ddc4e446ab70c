//! The JSON value model: an executable tree type `Json`, its mathematical
//! view `JsonVal`, and the conversion trait `ToJson`.

use vstd::prelude::*;

verus! {

/// Mathematical model of a JSON document.  An object is a mapping from key
/// to value (insertion order irrelevant, keys unique, last write wins); an
/// array is a sequence of values.
#[verifier::ext_equal]
pub enum JsonVal {
    Null,
    Bool(bool),
    I64(i64),
    U64(u64),
    Str(Seq<char>),
    Arr(Seq<JsonVal>),
    Obj(Map<Seq<char>, JsonVal>),
}

/// An in-memory JSON tree.  Objects are kept as a key/value sequence; a
/// well-formed object holds each key at most once (see `keys_unique`), and
/// its model is the mapping in which the last occurrence of a key wins.
pub enum Json {
    Null,
    Boolean(bool),
    I64(i64),
    U64(u64),
    Str(String),
    Array(Vec<Json>),
    Object(Vec<(String, Json)>),
}

/// Model of a `Json` tree.
pub open spec fn json_view(j: Json) -> JsonVal
    decreases j,
{
    match j {
        Json::Null => JsonVal::Null,
        Json::Boolean(b) => JsonVal::Bool(b),
        Json::I64(n) => JsonVal::I64(n),
        Json::U64(n) => JsonVal::U64(n),
        Json::Str(s) => JsonVal::Str(s@),
        Json::Array(v) => JsonVal::Arr(arr_view(v@)),
        Json::Object(v) => JsonVal::Obj(obj_view(v@)),
    }
}

/// Model of an array's element sequence, element by element.
pub open spec fn arr_view(s: Seq<Json>) -> Seq<JsonVal>
    decreases s,
{
    if s.len() == 0 {
        Seq::empty()
    } else {
        arr_view(s.drop_last()).push(json_view(s.last()))
    }
}

/// Model of an object's key/value sequence: later entries override earlier
/// ones, so the model is the left fold of `insert`.
pub open spec fn obj_view(s: Seq<(String, Json)>) -> Map<Seq<char>, JsonVal>
    decreases s,
{
    if s.len() == 0 {
        Map::empty()
    } else {
        obj_view(s.drop_last()).insert(s.last().0@, json_view(s.last().1))
    }
}

impl View for Json {
    type V = JsonVal;

    open spec fn view(&self) -> JsonVal {
        json_view(*self)
    }
}

/// The key sequence carried by an optional borrowed root key.
pub open spec fn str_opt_view(o: Option<&str>) -> Option<Seq<char>> {
    match o {
        Some(s) => Some(s@),
        None => None,
    }
}

/// The key sequence carried by an optional owned root key.
pub open spec fn string_opt_view(o: Option<String>) -> Option<Seq<char>> {
    match o {
        Some(s) => Some(s@),
        None => None,
    }
}

/// A key/value sequence holds each key at most once.
pub open spec fn keys_unique(s: Seq<(String, Json)>) -> bool {
    forall|i: int, k: int| 0 <= i < k < s.len() ==> s[i].0@ != s[k].0@
}

/// The model of an array has one element per entry, in order.
pub proof fn lemma_arr_view_len(s: Seq<Json>)
    ensures
        arr_view(s).len() == s.len(),
    decreases s,
{
    if s.len() > 0 {
        lemma_arr_view_len(s.drop_last());
    }
}

/// The model of an array agrees with the entries pointwise.
pub proof fn lemma_arr_view_index(s: Seq<Json>, i: int)
    requires
        0 <= i < s.len(),
    ensures
        arr_view(s).len() == s.len(),
        arr_view(s)[i] == json_view(s[i]),
    decreases s,
{
    lemma_arr_view_len(s);
    if i < s.len() - 1 {
        lemma_arr_view_index(s.drop_last(), i);
    }
}

/// Appending an entry appends its model.
pub proof fn lemma_arr_view_push(s: Seq<Json>, j: Json)
    ensures
        arr_view(s.push(j)) == arr_view(s).push(json_view(j)),
{
    assert(s.push(j).drop_last() =~= s);
    assert(s.push(j).last() == j);
}

/// Appending an entry inserts it into the model mapping.
pub proof fn lemma_obj_view_push(s: Seq<(String, Json)>, p: (String, Json))
    ensures
        obj_view(s.push(p)) == obj_view(s).insert(p.0@, json_view(p.1)),
{
    assert(s.push(p).drop_last() =~= s);
    assert(s.push(p).last() == p);
}

/// The model mapping holds exactly the keys that occur in the sequence.
pub proof fn lemma_obj_view_contains(s: Seq<(String, Json)>, k: Seq<char>)
    ensures
        obj_view(s).contains_key(k) <==> exists|i: int| 0 <= i < s.len() && s[i].0@ == k,
    decreases s,
{
    if s.len() > 0 {
        lemma_obj_view_contains(s.drop_last(), k);
        if s.last().0@ == k {
            assert(s[s.len() - 1].0@ == k);
        } else if obj_view(s).contains_key(k) {
            let i = choose|i: int| 0 <= i < s.drop_last().len() && s.drop_last()[i].0@ == k;
            assert(s[i].0@ == k);
        } else {
            assert(forall|i: int| 0 <= i < s.len() - 1 ==> s.drop_last()[i] == s[i]);
        }
    }
}

/// The value of a key in the model is the value of its last occurrence.
pub proof fn lemma_obj_view_last_occurrence(s: Seq<(String, Json)>, i: int)
    requires
        0 <= i < s.len(),
        forall|j: int| i < j < s.len() ==> s[j].0@ != s[i].0@,
    ensures
        obj_view(s).contains_key(s[i].0@),
        obj_view(s)[s[i].0@] == json_view(s[i].1),
    decreases s,
{
    if i == s.len() - 1 {
        assert(s.last() == s[i]);
    } else {
        assert(forall|j: int| 0 <= j < s.len() - 1 ==> s.drop_last()[j] == s[j]);
        lemma_obj_view_last_occurrence(s.drop_last(), i);
        assert(s.last().0@ != s[i].0@);
    }
}

/// Two entry sequences of equal length whose keys and value models agree
/// pointwise have the same model mapping.
pub proof fn lemma_obj_view_congruence(s: Seq<(String, Json)>, t: Seq<(String, Json)>)
    requires
        s.len() == t.len(),
        forall|j: int|
            0 <= j < s.len() ==> s[j].0@ == t[j].0@ && json_view(s[j].1) == json_view(#[trigger] t[j].1),
    ensures
        obj_view(s) == obj_view(t),
    decreases s,
{
    if s.len() > 0 {
        assert(forall|j: int| 0 <= j < s.len() - 1 ==> s.drop_last()[j] == s[j]);
        assert(forall|j: int| 0 <= j < t.len() - 1 ==> t.drop_last()[j] == t[j]);
        lemma_obj_view_congruence(s.drop_last(), t.drop_last());
        assert(s.last() == s[s.len() - 1]);
        assert(t.last() == t[t.len() - 1]);
    }
}

/// Replacing the single occurrence of a key updates the model mapping
/// at that key alone.
pub proof fn lemma_obj_view_update(s: Seq<(String, Json)>, i: int, p: (String, Json))
    requires
        keys_unique(s),
        0 <= i < s.len(),
        s[i].0@ == p.0@,
    ensures
        obj_view(s.update(i, p)) == obj_view(s).insert(p.0@, json_view(p.1)),
    decreases s,
{
    let t = s.update(i, p);
    if i == s.len() - 1 {
        assert(t.drop_last() =~= s.drop_last());
        assert(t.last() == p);
        assert(obj_view(s).insert(p.0@, json_view(p.1)) =~= obj_view(t));
    } else {
        assert(forall|j: int| 0 <= j < s.len() - 1 ==> s.drop_last()[j] == s[j]);
        assert(t.drop_last() =~= s.drop_last().update(i, p));
        lemma_obj_view_update(s.drop_last(), i, p);
        assert(t.last() == s.last());
        // the tail key differs from the updated key, so the two inserts commute
        assert(s.last().0@ != p.0@);
        assert(obj_view(s.drop_last()).insert(p.0@, json_view(p.1)).insert(
            s.last().0@,
            json_view(s.last().1),
        ) =~= obj_view(s).insert(p.0@, json_view(p.1)));
    }
}

impl Json {
    /// Whether this value is the null value.
    pub fn is_null(&self) -> (r: bool)
        ensures
            r == (self@ == JsonVal::Null),
    {
        match self {
            Json::Null => true,
            _ => false,
        }
    }

    /// Whether this value is an object.
    pub fn is_object(&self) -> (r: bool)
        ensures
            r == (self@ matches JsonVal::Obj(_)),
    {
        match self {
            Json::Object(_) => true,
            _ => false,
        }
    }

    /// Whether this value is an array.
    pub fn is_array(&self) -> (r: bool)
        ensures
            r == (self@ matches JsonVal::Arr(_)),
    {
        match self {
            Json::Array(_) => true,
            _ => false,
        }
    }

    /// The boolean carried by a `Boolean` value, if it is one.
    pub fn as_boolean(&self) -> (r: Option<bool>)
        ensures
            match r {
                Some(b) => self@ == JsonVal::Bool(b),
                None => !(self@ matches JsonVal::Bool(_)),
            },
    {
        match self {
            Json::Boolean(b) => Some(*b),
            _ => None,
        }
    }

    /// The integer carried by an `I64` value, if it is one.
    pub fn as_i64(&self) -> (r: Option<i64>)
        ensures
            match r {
                Some(n) => self@ == JsonVal::I64(n),
                None => !(self@ matches JsonVal::I64(_)),
            },
    {
        match self {
            Json::I64(n) => Some(*n),
            _ => None,
        }
    }

    /// The integer carried by a `U64` value, if it is one.
    pub fn as_u64(&self) -> (r: Option<u64>)
        ensures
            match r {
                Some(n) => self@ == JsonVal::U64(n),
                None => !(self@ matches JsonVal::U64(_)),
            },
    {
        match self {
            Json::U64(n) => Some(*n),
            _ => None,
        }
    }

    /// The string carried by a `Str` value, if it is one.
    pub fn as_string(&self) -> (r: Option<&String>)
        ensures
            match r {
                Some(s) => self@ == JsonVal::Str(s@),
                None => !(self@ matches JsonVal::Str(_)),
            },
    {
        match self {
            Json::Str(s) => Some(s),
            _ => None,
        }
    }

    /// The element list of an `Array` value, if it is one.
    pub fn as_array(&self) -> (r: Option<&Vec<Json>>)
        ensures
            match r {
                Some(v) => self@ == JsonVal::Arr(arr_view(v@)),
                None => !(self@ matches JsonVal::Arr(_)),
            },
    {
        match self {
            Json::Array(v) => Some(v),
            _ => None,
        }
    }

    /// The entry list of an `Object` value, if it is one.
    pub fn as_object(&self) -> (r: Option<&Vec<(String, Json)>>)
        ensures
            match r {
                Some(v) => self@ == JsonVal::Obj(obj_view(v@)),
                None => !(self@ matches JsonVal::Obj(_)),
            },
    {
        match self {
            Json::Object(v) => Some(v),
            _ => None,
        }
    }

    /// A structurally identical copy of this value.
    #[verifier::loop_isolation(false)]
    pub fn duplicate(&self) -> (r: Json)
        ensures
            r@ == self@,
        decreases *self,
    {
        match self {
            Json::Null => Json::Null,
            Json::Boolean(b) => Json::Boolean(*b),
            Json::I64(n) => Json::I64(*n),
            Json::U64(n) => Json::U64(*n),
            Json::Str(s) => Json::Str(s.clone()),
            Json::Array(v) => {
                let mut out: Vec<Json> = Vec::new();
                let mut i: usize = 0;
                while i < v.len()
                    invariant
                        0 <= i <= v@.len(),
                        out@.len() == i,
                        forall|j: int| 0 <= j < i ==> json_view(#[trigger] out@[j]) == json_view(v@[j]),
                    decreases v@.len() - i,
                {
                    let item = v[i].duplicate();
                    out.push(item);
                    i = i + 1;
                }
                proof {
                    assert forall|j: int| 0 <= j < v@.len() implies arr_view(out@)[j] == arr_view(
                        v@,
                    )[j] by {
                        lemma_arr_view_index(out@, j);
                        lemma_arr_view_index(v@, j);
                    }
                    lemma_arr_view_len(out@);
                    lemma_arr_view_len(v@);
                    assert(arr_view(out@) =~= arr_view(v@));
                }
                Json::Array(out)
            },
            Json::Object(v) => {
                let mut out: Vec<(String, Json)> = Vec::new();
                let mut i: usize = 0;
                while i < v.len()
                    invariant
                        0 <= i <= v@.len(),
                        out@.len() == i,
                        forall|j: int|
                            0 <= j < i ==> out@[j].0@ == v@[j].0@ && json_view(out@[j].1)
                                == json_view(#[trigger] v@[j].1),
                    decreases v@.len() - i,
                {
                    let key = v[i].0.clone();
                    let item = v[i].1.duplicate();
                    out.push((key, item));
                    i = i + 1;
                }
                proof {
                    lemma_obj_view_congruence(out@, v@);
                }
                Json::Object(out)
            },
        }
    }

    /// Looks a key up in an object.  Returns the value of the last entry
    /// carrying the key — the one that the model mapping holds — or `None`
    /// when the value is not an object or the key is absent.
    pub fn find(&self, key: &str) -> (r: Option<&Json>)
        ensures
            match self@ {
                JsonVal::Obj(m) => match r {
                    Some(v) => m.contains_key(key@) && v@ == m[key@],
                    None => !m.contains_key(key@),
                },
                _ => r is None,
            },
    {
        match self {
            Json::Object(v) => {
                let owned_key: String = key.to_owned();
                let ghost s = v@;
                let mut i: usize = v.len();
                loop
                    invariant
                        0 <= i <= s.len(),
                        s == v@,
                        self@ == JsonVal::Obj(obj_view(s)),
                        owned_key@ == key@,
                        forall|j: int| i <= j < s.len() ==> s[j].0@ != key@,
                    decreases i,
                {
                    if i == 0 {
                        proof {
                            lemma_obj_view_contains(s, key@);
                        }
                        return None;
                    }
                    i = i - 1;
                    if v[i].0 == owned_key {
                        proof {
                            lemma_obj_view_last_occurrence(s, i as int);
                        }
                        return Some(&v[i].1);
                    }
                }
            },
            _ => None,
        }
    }
}

/// The capability to produce a `Json` value from a value of some type.
/// The model of the produced value is pinned by `to_json_val`, so callers
/// of `to_json` know exactly what they receive.
pub trait ToJson {
    /// The model of the `Json` value this value converts to.
    spec fn to_json_val(&self) -> JsonVal;

    /// Produce the `Json` value.
    fn to_json(&self) -> (r: Json)
        ensures
            r@ == self.to_json_val(),
    ;
}

impl ToJson for bool {
    open spec fn to_json_val(&self) -> JsonVal {
        JsonVal::Bool(*self)
    }

    fn to_json(&self) -> (r: Json) {
        Json::Boolean(*self)
    }
}

impl ToJson for i64 {
    open spec fn to_json_val(&self) -> JsonVal {
        JsonVal::I64(*self)
    }

    fn to_json(&self) -> (r: Json) {
        Json::I64(*self)
    }
}

impl ToJson for u64 {
    open spec fn to_json_val(&self) -> JsonVal {
        JsonVal::U64(*self)
    }

    fn to_json(&self) -> (r: Json) {
        Json::U64(*self)
    }
}

impl ToJson for i32 {
    open spec fn to_json_val(&self) -> JsonVal {
        JsonVal::I64(*self as i64)
    }

    fn to_json(&self) -> (r: Json) {
        Json::I64(*self as i64)
    }
}

impl ToJson for u32 {
    open spec fn to_json_val(&self) -> JsonVal {
        JsonVal::U64(*self as u64)
    }

    fn to_json(&self) -> (r: Json) {
        Json::U64(*self as u64)
    }
}

impl ToJson for String {
    open spec fn to_json_val(&self) -> JsonVal {
        JsonVal::Str(self@)
    }

    fn to_json(&self) -> (r: Json) {
        Json::Str(self.clone())
    }
}

/// A copy of an element list, value for value.
pub fn duplicate_elements(v: &Vec<Json>) -> (r: Vec<Json>)
    ensures
        r@.len() == v@.len(),
        arr_view(r@) == arr_view(v@),
{
    let mut out: Vec<Json> = Vec::new();
    let mut i: usize = 0;
    while i < v.len()
        invariant
            0 <= i <= v@.len(),
            out@.len() == i,
            forall|j: int| 0 <= j < i ==> json_view(#[trigger] out@[j]) == json_view(v@[j]),
        decreases v@.len() - i,
    {
        let item = v[i].duplicate();
        out.push(item);
        i = i + 1;
    }
    proof {
        assert forall|j: int| 0 <= j < v@.len() implies arr_view(out@)[j] == arr_view(v@)[j] by {
            lemma_arr_view_index(out@, j);
            lemma_arr_view_index(v@, j);
        }
        lemma_arr_view_len(out@);
        lemma_arr_view_len(v@);
        assert(arr_view(out@) =~= arr_view(v@));
    }
    out
}

/// A copy of an entry list, key for key and value for value.
pub fn duplicate_entries(v: &Vec<(String, Json)>) -> (r: Vec<(String, Json)>)
    ensures
        r@.len() == v@.len(),
        forall|j: int|
            0 <= j < v@.len() ==> r@[j].0@ == v@[j].0@ && json_view(r@[j].1) == json_view(
                #[trigger] v@[j].1,
            ),
        obj_view(r@) == obj_view(v@),
{
    let mut out: Vec<(String, Json)> = Vec::new();
    let mut i: usize = 0;
    while i < v.len()
        invariant
            0 <= i <= v@.len(),
            out@.len() == i,
            forall|j: int|
                0 <= j < i ==> out@[j].0@ == v@[j].0@ && json_view(out@[j].1) == json_view(
                    #[trigger] v@[j].1,
                ),
        decreases v@.len() - i,
    {
        let key = v[i].0.clone();
        let item = v[i].1.duplicate();
        out.push((key, item));
        i = i + 1;
    }
    proof {
        lemma_obj_view_congruence(out@, v@);
    }
    out
}

impl ToJson for Json {
    /// A `Json` value converts to a copy of itself.
    open spec fn to_json_val(&self) -> JsonVal {
        self@
    }

    fn to_json(&self) -> (r: Json) {
        self.duplicate()
    }
}

} // verus!
