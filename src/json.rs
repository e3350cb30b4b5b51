use vstd::prelude::*;
use crate::text::str_eq;

verus! {

broadcast use {vstd::std_specs::vec::axiom_vec_index_decreases, vstd::seq::axiom_seq_index_decreases};

/// A JSON value as the configuration engine sees it.
/// Objects are association lists, searched from the front.
#[derive(Debug, PartialEq, Eq)]
pub enum Json {
    Null,
    Bool(bool),
    /// A number, kept as its JSON text.
    Number(String),
    Str(String),
    Array(Vec<Json>),
    Object(Vec<Entry>),
}

/// One key/value pair of a JSON object.
#[derive(Debug, PartialEq, Eq)]
pub struct Entry {
    pub key: String,
    pub value: Json,
}

/// The mathematical model of a JSON value.
pub enum JsonModel {
    Null,
    Bool(bool),
    Number(Seq<char>),
    Str(Seq<char>),
    Array(Seq<JsonModel>),
    Object(Seq<(Seq<char>, JsonModel)>),
}

pub type Fields = Seq<(Seq<char>, JsonModel)>;

impl Json {
    pub open spec fn view(&self) -> JsonModel
        decreases self,
    {
        match self {
            Json::Null => JsonModel::Null,
            Json::Bool(b) => JsonModel::Bool(*b),
            Json::Number(n) => JsonModel::Number(n@),
            Json::Str(s) => JsonModel::Str(s@),
            Json::Array(a) => JsonModel::Array(
                Seq::new(
                    a.len() as nat,
                    |i: int| if 0 <= i < a.len() { a[i].view() } else { JsonModel::Null },
                ),
            ),
            Json::Object(es) => JsonModel::Object(
                Seq::new(
                    es.len() as nat,
                    |i: int|
                        if 0 <= i < es.len() {
                            (es[i].key@, es[i].value.view())
                        } else {
                            (Seq::empty(), JsonModel::Null)
                        },
                ),
            ),
        }
    }
}

/// The model of a list of object entries.
pub open spec fn fields_view(es: Seq<Entry>) -> Fields {
    Seq::new(es.len(), |i: int| (es[i].key@, es[i].value@))
}

pub proof fn lemma_object_view(es: Vec<Entry>)
    ensures
        Json::Object(es)@ == JsonModel::Object(fields_view(es@)),
{
    assert(fields_view(es@) =~= match Json::Object(es)@ {
        JsonModel::Object(f) => f,
        _ => Seq::empty(),
    });
}

/// `j` is the first position of key `k` in `es`.
pub open spec fn first_at<V>(es: Seq<(Seq<char>, V)>, k: Seq<char>, j: int) -> bool {
    0 <= j < es.len() && es[j].0 == k && forall|m: int| 0 <= m < j ==> es[m].0 != k
}

pub open spec fn has_key<V>(es: Seq<(Seq<char>, V)>, k: Seq<char>) -> bool {
    exists|j: int| 0 <= j < es.len() && es[j].0 == k
}

/// Position of the first entry with key `k`, or -1.
pub open spec fn index_of<V>(es: Seq<(Seq<char>, V)>, k: Seq<char>) -> int {
    if exists|j: int| first_at(es, k, j) {
        choose|j: int| first_at(es, k, j)
    } else {
        -1
    }
}

/// The value of key `k` in an object's entries.
pub open spec fn lookup<V>(es: Seq<(Seq<char>, V)>, k: Seq<char>) -> Option<V> {
    if index_of(es, k) >= 0 {
        Some(es[index_of(es, k)].1)
    } else {
        None
    }
}

/// Set key `k` to `v`: in place where the key is present, else at the end.
pub open spec fn put<V>(es: Seq<(Seq<char>, V)>, k: Seq<char>, v: V) -> Seq<(Seq<char>, V)> {
    if index_of(es, k) >= 0 {
        es.update(index_of(es, k), (k, v))
    } else {
        es.push((k, v))
    }
}

/// Remove the first entry with key `k`, if any.
pub open spec fn remove_key<V>(es: Seq<(Seq<char>, V)>, k: Seq<char>) -> Seq<(Seq<char>, V)> {
    if index_of(es, k) >= 0 {
        es.remove(index_of(es, k))
    } else {
        es
    }
}

pub proof fn lemma_index_of<V>(es: Seq<(Seq<char>, V)>, k: Seq<char>)
    ensures
        has_key(es, k) <==> index_of(es, k) >= 0,
        index_of(es, k) >= 0 ==> first_at(es, k, index_of(es, k)),
        index_of(es, k) < es.len(),
        forall|j: int| first_at(es, k, j) ==> j == index_of(es, k),
{
    if has_key(es, k) {
        let j0 = choose|j: int| 0 <= j < es.len() && es[j].0 == k;
        lemma_first_exists(es, k, j0);
    }
    assert forall|j: int| first_at(es, k, j) implies j == index_of(es, k) by {
        let i = index_of(es, k);
        assert(first_at(es, k, i));
        if j < i {
            assert(es[j].0 != k);
        } else if i < j {
            assert(es[i].0 != k);
        }
    }
}

proof fn lemma_first_exists<V>(es: Seq<(Seq<char>, V)>, k: Seq<char>, j0: int)
    requires
        0 <= j0 < es.len(),
        es[j0].0 == k,
    ensures
        exists|j: int| first_at(es, k, j),
    decreases j0,
{
    if forall|m: int| 0 <= m < j0 ==> es[m].0 != k {
        assert(first_at(es, k, j0));
    } else {
        let m = choose|m: int| 0 <= m < j0 && es[m].0 == k;
        lemma_first_exists(es, k, m);
    }
}

pub open spec fn obj_len(j: JsonModel) -> nat {
    match j {
        JsonModel::Object(o) => o.len() + 1,
        _ => 0,
    }
}

/// Deep merge: objects merge key by key, recursively; any other pairing
/// takes the overlay.
pub open spec fn merge_model(base: JsonModel, overlay: JsonModel) -> JsonModel
    decreases overlay, obj_len(overlay),
{
    match (base, overlay) {
        (JsonModel::Object(b), JsonModel::Object(o)) => JsonModel::Object(
            merge_fold(b, overlay, o.len()),
        ),
        _ => overlay,
    }
}

/// The entries of `base` with the first `n` entries of the object `overlay`
/// merged in, in order.
pub open spec fn merge_fold(base: Fields, overlay: JsonModel, n: nat) -> Fields
    decreases overlay, n,
{
    match overlay {
        JsonModel::Object(o) => {
            if n == 0 || n > o.len() {
                base
            } else {
                let prev = merge_fold(base, overlay, (n - 1) as nat);
                let k = o[n - 1].0;
                let old_v = match lookup(prev, k) {
                    Some(v) => v,
                    None => JsonModel::Null,
                };
                put(prev, k, merge_model(old_v, o[n - 1].1))
            }
        },
        _ => base,
    }
}

/// Merging an empty object into an object leaves it as it was.
pub proof fn lemma_merge_empty_overlay(x: JsonModel)
    requires
        x is Object,
    ensures
        merge_model(x, JsonModel::Object(Seq::empty())) == x,
{
}

/// A key of the merged object holds the merge of the two values where both
/// sides have it, the overlay's value where only the overlay has it, and the
/// base's value where only the base has it.
pub proof fn lemma_merge_key(b: Fields, o: Fields, k: Seq<char>)
    requires
        has_unique_keys(o),
    ensures
        ({
            let m = merge_model(JsonModel::Object(b), JsonModel::Object(o));
            &&& m is Object
            &&& lookup(m->Object_0, k) == match (lookup(b, k), lookup(o, k)) {
                (Some(bv), Some(ov)) => Some(merge_model(bv, ov)),
                (None, Some(ov)) => Some(ov),
                (bv, None) => bv,
            }
        }),
{
    lemma_merge_fold_key(b, o, o.len(), k);
    lemma_index_of(o, k);
    if has_key(o, k) {
        let i = index_of(o, k);
        assert(o.take(o.len() as int) =~= o);
    }
}

pub open spec fn has_unique_keys<V>(es: Seq<(Seq<char>, V)>) -> bool {
    forall|i: int, j: int| 0 <= i < j < es.len() ==> es[i].0 != es[j].0
}

pub proof fn lemma_put_lookup<V>(es: Seq<(Seq<char>, V)>, k: Seq<char>, v: V, q: Seq<char>)
    ensures
        lookup(put(es, k, v), q) == if q == k { Some(v) } else { lookup(es, q) },
{
    let p = put(es, k, v);
    lemma_index_of(es, k);
    lemma_index_of(es, q);
    lemma_index_of(p, q);
    let ik = index_of(es, k);
    let iq = index_of(es, q);
    assert(forall|m: int| 0 <= m < es.len() ==> #[trigger] p[m].0 == es[m].0);
    if q == k {
        assert(first_at(p, q, if ik >= 0 { ik } else { es.len() as int }));
    } else if iq >= 0 {
        assert(first_at(p, q, iq));
    } else {
        if has_key(p, q) {
            let j = choose|j: int| 0 <= j < p.len() && p[j].0 == q;
            assert(j < es.len());
            assert(has_key(es, q));
        }
    }
}

proof fn lemma_merge_fold_key(b: Fields, o: Fields, n: nat, k: Seq<char>)
    requires
        n <= o.len(),
        has_unique_keys(o),
    ensures
        lookup(merge_fold(b, JsonModel::Object(o), n), k) == if has_key(o.take(n as int), k) {
            let ov = lookup(o, k)->Some_0;
            match lookup(b, k) {
                Some(bv) => Some(merge_model(bv, ov)),
                None => Some(ov),
            }
        } else {
            lookup(b, k)
        },
    decreases n,
{
    let ov = JsonModel::Object(o);
    lemma_index_of(o, k);
    if n > 0 {
        lemma_merge_fold_key(b, o, (n - 1) as nat, k);
        let prev = merge_fold(b, ov, (n - 1) as nat);
        let kk = o[n - 1].0;
        let old_v = match lookup(prev, kk) {
            Some(v) => v,
            None => JsonModel::Null,
        };
        lemma_put_lookup(prev, kk, merge_model(old_v, o[n - 1].1), k);
        assert(o.take(n as int) =~= o.take(n - 1).push(o[n - 1]));
        if kk == k {
            assert(!has_key(o.take(n - 1), k));
            assert(first_at(o, k, n - 1));
            assert(index_of(o, k) == n - 1);
            assert(lookup(o, k) == Some(o[n - 1].1));
            assert(o.take(n as int)[n - 1].0 == k);
            assert(has_key(o.take(n as int), k));
        } else {
            let t1 = o.take(n as int);
            let t0 = o.take(n - 1);
            if has_key(t1, k) {
                let j = choose|j: int| 0 <= j < t1.len() && t1[j].0 == k;
                assert(j < n - 1);
                assert(t0[j].0 == k);
            }
            if has_key(t0, k) {
                let j = choose|j: int| 0 <= j < t0.len() && t0[j].0 == k;
                assert(t1[j].0 == k);
            }
        }
    } else {
        assert(!has_key(o.take(0), k));
    }
}


impl Json {
    /// A copy with the same model.
    pub fn deep_clone(&self) -> (r: Json)
        ensures
            r@ == self@,
        decreases self,
    {
        match self {
            Json::Null => Json::Null,
            Json::Bool(b) => Json::Bool(*b),
            Json::Number(n) => Json::Number(n.clone()),
            Json::Str(t) => Json::Str(t.clone()),
            Json::Array(a) => {
                let mut out: Vec<Json> = Vec::new();
                let mut i: usize = 0;
                while i < a.len()
                    invariant
                        i <= a.len(),
                        out.len() == i,
                        self is Array && *a == self->Array_0,
                        forall|m: int| 0 <= m < i ==> #[trigger] out[m]@ == a[m]@,
                    decreases a.len() - i,
                {
                    proof {
                        assert(*a == self->Array_0);
                        assert(decreases_to!(*self => self->Array_0));
                        assert(decreases_to!(*a => a[i as int]));
                    }
                    out.push(a[i].deep_clone());
                    i = i + 1;
                }
                let r = Json::Array(out);
                assert(r@->Array_0 =~= self@->Array_0) by {
                    assert forall|m: int| 0 <= m < a.len() implies r@->Array_0[m] == self@->Array_0[m] by {
                        assert(out[m]@ == a[m]@);
                    }
                }
                r
            },
            Json::Object(es) => {
                let out = clone_fields(es);
                proof {
                    lemma_object_view(*es);
                    lemma_object_view(out);
                }
                Json::Object(out)
            },
        }
    }

    pub fn is_null(&self) -> (r: bool)
        ensures
            r == (self@ is Null),
    {
        match self {
            Json::Null => true,
            _ => false,
        }
    }

    pub fn is_object(&self) -> (r: bool)
        ensures
            r == (self@ is Object),
    {
        match self {
            Json::Object(_) => true,
            _ => false,
        }
    }

    /// An empty object.
    pub fn empty_object() -> (r: Json)
        ensures
            r@ == JsonModel::Object(Seq::empty()),
    {
        let r = Json::Object(Vec::new());
        assert(r@->Object_0 =~= Seq::<(Seq<char>, JsonModel)>::empty());
        r
    }
}

/// A copy of a list of entries with the same model.
pub fn clone_fields(es: &Vec<Entry>) -> (r: Vec<Entry>)
    ensures
        fields_view(r@) == fields_view(es@),
    decreases es,
{
    let mut out: Vec<Entry> = Vec::new();
    let mut i: usize = 0;
    while i < es.len()
        invariant
            i <= es.len(),
            out.len() == i,
            forall|m: int| 0 <= m < i ==> #[trigger] out[m].key@ == es[m].key@ && out[m].value@ == es[m].value@,
        decreases es.len() - i,
    {
        proof {
            assert(decreases_to!(*es => es[i as int]));
        }
        let v = es[i].value.deep_clone();
        out.push(Entry { key: es[i].key.clone(), value: v });
        i = i + 1;
    }
    assert(fields_view(out@) =~= fields_view(es@));
    out
}

/// Position of the first entry with key `k`.
pub fn find_key(es: &Vec<Entry>, k: &str) -> (r: Option<usize>)
    ensures
        match r {
            Some(j) => j as int == index_of(fields_view(es@), k@),
            None => index_of(fields_view(es@), k@) == -1,
        },
{
    let ghost f = fields_view(es@);
    proof {
        lemma_index_of(f, k@);
    }
    let mut i: usize = 0;
    while i < es.len()
        invariant
            i <= es.len(),
            f == fields_view(es@),
            forall|m: int| 0 <= m < i ==> f[m].0 != k@,
        decreases es.len() - i,
    {
        if str_eq(es[i].key.as_str(), k) {
            assert(first_at(f, k@, i as int));
            return Some(i);
        }
        i = i + 1;
    }
    proof {
        if index_of(f, k@) >= 0 {
            assert(f[index_of(f, k@)].0 == k@);
        }
    }
    None
}

/// The value of key `k`.
pub fn get_field<'a>(es: &'a Vec<Entry>, k: &str) -> (r: Option<&'a Json>)
    ensures
        match r {
            Some(v) => lookup(fields_view(es@), k@) == Some(v@),
            None => lookup(fields_view(es@), k@) is None,
        },
{
    match find_key(es, k) {
        Some(j) => Some(&es[j].value),
        None => None,
    }
}

/// Set key `k` to `v`, in place where present, else at the end.
pub fn set_field(es: &mut Vec<Entry>, k: String, v: Json)
    ensures
        fields_view(final(es)@) == put(fields_view(old(es)@), k@, v@),
{
    let ghost f = fields_view(es@);
    match find_key(es, k.as_str()) {
        Some(j) => {
            es.set(j, Entry { key: k, value: v });
            assert(fields_view(es@) =~= put(f, k@, v@));
        },
        None => {
            let ghost kv = k@;
            es.push(Entry { key: k, value: v });
            assert(fields_view(es@) =~= put(f, kv, v@));
        },
    }
}

/// Remove the first entry with key `k`; says whether there was one.
pub fn remove_field(es: &mut Vec<Entry>, k: &str) -> (r: bool)
    ensures
        r == has_key(fields_view(old(es)@), k@),
        fields_view(final(es)@) == remove_key(fields_view(old(es)@), k@),
{
    let ghost f = fields_view(es@);
    proof {
        lemma_index_of(f, k@);
    }
    match find_key(es, k) {
        Some(j) => {
            es.remove(j);
            assert(fields_view(es@) =~= remove_key(f, k@));
            true
        },
        None => false,
    }
}

/// Deep merge of two JSON values; the overlay wins every conflict that is
/// not between two objects.
pub fn merge_values(base: &Json, overlay: &Json) -> (r: Json)
    ensures
        r@ == merge_model(base@, overlay@),
    decreases overlay,
{
    match (base, overlay) {
        (Json::Object(b), Json::Object(o)) => {
            proof {
                lemma_object_view(*b);
                lemma_object_view(*o);
            }
            let ghost bf = fields_view(b@);
            let ghost of = fields_view(o@);
            let mut merged = clone_fields(b);
            assert(overlay@ == JsonModel::Object(of));
            assert(merge_fold(bf, overlay@, 0) == bf);
            let mut i: usize = 0;
            while i < o.len()
                invariant
                    i <= o.len(),
                    overlay is Object && *o == overlay->Object_0,
                    bf == fields_view(b@),
                    of == fields_view(o@),
                    overlay@ == JsonModel::Object(of),
                    fields_view(merged@) == merge_fold(bf, overlay@, i as nat),
                decreases o.len() - i,
            {
                let ghost prev = fields_view(merged@);
                let k = &o[i].key;
                let v = &o[i].value;
                match find_key(&merged, k.as_str()) {
                    Some(j) => {
                        proof {
                            assert(*o == overlay->Object_0);
                            assert(decreases_to!(*overlay => overlay->Object_0));
                            assert(decreases_to!(*o => o[i as int]));
                            assert(decreases_to!(o[i as int] => o[i as int].value));
                        }
                        let mv = merge_values(&merged[j].value, v);
                        merged.set(j, Entry { key: k.clone(), value: mv });
                        assert(fields_view(merged@) =~= merge_fold(bf, overlay@, (i + 1) as nat));
                    },
                    None => {
                        let cv = v.deep_clone();
                        proof {
                            assert(prev == merge_fold(bf, overlay@, i as nat));
                            assert(of[i as int] == (k@, v@));
                            assert(lookup(prev, k@) is None);
                            assert(merge_model(JsonModel::Null, v@) == v@);
                        }
                        merged.push(Entry { key: k.clone(), value: cv });
                        assert(fields_view(merged@) =~= merge_fold(bf, overlay@, (i + 1) as nat));
                    },
                }
                i = i + 1;
            }
            proof {
                lemma_object_view(merged);
            }
            Json::Object(merged)
        },
        _ => overlay.deep_clone(),
    }
}


pub proof fn lemma_unique_index<V>(es: Seq<(Seq<char>, V)>, k: Seq<char>, j: int)
    requires
        has_unique_keys(es),
        0 <= j < es.len(),
        es[j].0 == k,
    ensures
        index_of(es, k) == j,
        lookup(es, k) == Some(es[j].1),
{
    assert(first_at(es, k, j));
    lemma_index_of(es, k);
}

/// Removing a key from entries with distinct keys removes it entirely and
/// leaves the other keys as they were.
pub proof fn lemma_remove_lookup<V>(es: Seq<(Seq<char>, V)>, k: Seq<char>, q: Seq<char>)
    requires
        has_unique_keys(es),
    ensures
        has_unique_keys(remove_key(es, k)),
        lookup(remove_key(es, k), q) == if q == k { None } else { lookup(es, q) },
{
    let r = remove_key(es, k);
    lemma_index_of(es, k);
    lemma_index_of(es, q);
    lemma_index_of(r, q);
    let i = index_of(es, k);
    if i >= 0 {
        assert forall|a: int, b: int| 0 <= a < b < r.len() implies r[a].0 != r[b].0 by {
            let a2 = if a < i { a } else { a + 1 };
            let b2 = if b < i { b } else { b + 1 };
            assert(r[a] == es[a2] && r[b] == es[b2]);
        }
        if has_key(r, q) {
            let j = choose|j: int| 0 <= j < r.len() && r[j].0 == q;
            let j2 = if j < i { j } else { j + 1 };
            assert(es[j2].0 == q);
            assert(j2 != i);
            lemma_unique_index(es, q, j2);
            lemma_unique_index(r, q, j);
        } else if has_key(es, q) {
            let j = index_of(es, q);
            if j != i {
                let j1 = if j < i { j } else { j - 1 };
                assert(r[j1].0 == q);
            }
        }
    }
}

/// Setting a key keeps the keys distinct.
pub proof fn lemma_put_unique<V>(es: Seq<(Seq<char>, V)>, k: Seq<char>, v: V)
    requires
        has_unique_keys(es),
    ensures
        has_unique_keys(put(es, k, v)),
{
    lemma_index_of(es, k);
    let p = put(es, k, v);
    if index_of(es, k) >= 0 {
        assert forall|a: int, b: int| 0 <= a < b < p.len() implies p[a].0 != p[b].0 by {
            assert(p[a].0 == es[a].0 && p[b].0 == es[b].0);
        }
    } else {
        assert forall|a: int, b: int| 0 <= a < b < p.len() implies p[a].0 != p[b].0 by {
            if b == es.len() {
                assert(es[a].0 == p[a].0);
            } else {
                assert(p[a].0 == es[a].0 && p[b].0 == es[b].0);
            }
        }
    }
}

} // verus!
