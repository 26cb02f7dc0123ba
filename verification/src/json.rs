//! JSON values and the deep merge that layers configuration sources: the
//! defaults, then the editor's initialisation settings, then `ecolog.toml`.
use crate::error::{decimal, decimal_string};
use crate::text::{str_eq, strs_of};
use vstd::prelude::*;

verus! {

/// A JSON value. Numbers are kept as their JSON text; object members keep
/// their order.
#[derive(Debug)]
pub enum Json {
    Null,
    Bool(bool),
    Number(String),
    String(String),
    Array(Vec<Json>),
    Object(Vec<(String, Json)>),
}

/// The mathematical value of a [`Json`].
pub enum JsonV {
    Null,
    Bool(bool),
    Number(Seq<char>),
    Str(Seq<char>),
    Array(Seq<JsonV>),
    Object(Seq<(Seq<char>, JsonV)>),
}

impl Json {
    pub open spec fn view_json(self) -> JsonV
        decreases self,
    {
        match self {
            Json::Null => JsonV::Null,
            Json::Bool(b) => JsonV::Bool(b),
            Json::Number(n) => JsonV::Number(n@),
            Json::String(s) => JsonV::Str(s@),
            Json::Array(v) => JsonV::Array(view_items(v@)),
            Json::Object(m) => JsonV::Object(view_members(m@)),
        }
    }
}

pub open spec fn view_items(s: Seq<Json>) -> Seq<JsonV>
    decreases s,
{
    Seq::new(
        s.len(),
        |i: int|
            if 0 <= i < s.len() {
                s[i].view_json()
            } else {
                JsonV::Null
            },
    )
}

pub open spec fn view_members(s: Seq<(String, Json)>) -> Seq<(Seq<char>, JsonV)>
    decreases s,
{
    Seq::new(
        s.len(),
        |i: int|
            if 0 <= i < s.len() {
                (s[i].0@, s[i].1.view_json())
            } else {
                (Seq::empty(), JsonV::Null)
            },
    )
}

impl View for Json {
    type V = JsonV;

    open spec fn view(&self) -> JsonV {
        self.view_json()
    }
}

/// Position of the first member named `k`.
pub open spec fn find_member(m: Seq<(Seq<char>, JsonV)>, k: Seq<char>) -> Option<int>
    decreases m.len(),
{
    if m.len() == 0 {
        None
    } else if m[0].0 == k {
        Some(0)
    } else {
        match find_member(m.drop_first(), k) {
            Some(i) => Some(i + 1),
            None => None,
        }
    }
}

/// `base` with `overlay` laid over it. Two objects merge member by member,
/// recursively, skipping `null` members of the overlay; otherwise a `null`
/// overlay keeps the base and any other overlay replaces it.
pub open spec fn spec_merge(base: JsonV, overlay: JsonV) -> JsonV
    decreases overlay, 1nat,
{
    match overlay {
        JsonV::Object(om) => match base {
            JsonV::Object(bm) => JsonV::Object(merge_members(bm, om)),
            _ => overlay,
        },
        JsonV::Null => base,
        _ => overlay,
    }
}

/// The members of `bm` with the members of `om` laid over them, in order.
pub open spec fn merge_members(bm: Seq<(Seq<char>, JsonV)>, om: Seq<(Seq<char>, JsonV)>) -> Seq<
    (Seq<char>, JsonV),
>
    decreases om, 0nat,
{
    if om.len() == 0 {
        bm
    } else {
        let before = merge_members(bm, om.subrange(0, om.len() - 1));
        let (k, v) = om[om.len() - 1];
        match v {
            JsonV::Null => before,
            _ => match find_member(before, k) {
                Some(j) => before.update(j, (k, spec_merge(before[j].1, v))),
                None => before.push((k, v)),
            },
        }
    }
}

impl Json {
    /// A copy of the value.
    pub fn deep_copy(&self) -> (r: Json)
        ensures
            r@ == self@,
    {
        copy_json(self)
    }

    pub fn is_null(&self) -> (b: bool)
        ensures
            b == (self@ is Null),
    {
        match self {
            Json::Null => true,
            _ => false,
        }
    }
}

fn copy_json(j: &Json) -> (r: Json)
    ensures
        r@ == j@,
    decreases j,
{
        match j {
            Json::Null => Json::Null,
            Json::Bool(b) => Json::Bool(*b),
            Json::Number(n) => Json::Number(n.clone()),
            Json::String(s) => Json::String(s.clone()),
            Json::Array(v) => {
                let mut out: Vec<Json> = Vec::new();
                let mut i: usize = 0;
                while i < v.len()
                    invariant
                        *j == Json::Array(*v),
                        0 <= i <= v.len(),
                        view_items(out@) == view_items(v@.take(i as int)),
                    decreases v.len() - i,
                {
                    proof {
                        assert(*j == Json::Array(*v));
                        assert(decreases_to!(*j => (*j)->Array_0));
                        assert((*j)->Array_0 == *v);
                        assert(decreases_to!(*v => v@));
                        assert(decreases_to!(v@ => v@[i as int]));
                    }
                    let c = copy_json(&v[i]);
                    let ghost before = out@;
                    out.push(c);
                    proof {
                        let a = view_items(out@);
                        let b = view_items(v@.take(i + 1));
                        assert(out@ == before.push(c));
                        assert(view_items(before).len() == before.len());
                        assert(view_items(v@.take(i as int)).len() == i);
                        assert forall|j: int| 0 <= j < a.len() implies a[j] == b[j] by {
                            if j < i {
                                assert(view_items(before)[j] == view_items(v@.take(i as int))[j]);
                                assert(out@[j] == before[j]);
                            }
                        }
                        assert(a =~= b);
                    }
                    i += 1;
                }
                proof {
                    assert(v@.take(v@.len() as int) =~= v@);
                }
                Json::Array(out)
            },
            Json::Object(m) => {
                let mut out: Vec<(String, Json)> = Vec::new();
                let mut i: usize = 0;
                while i < m.len()
                    invariant
                        *j == Json::Object(*m),
                        0 <= i <= m.len(),
                        view_members(out@) == view_members(m@.take(i as int)),
                    decreases m.len() - i,
                {
                    proof {
                        assert(*j == Json::Object(*m));
                        assert(decreases_to!(*j => (*j)->Object_0));
                        assert((*j)->Object_0 == *m);
                        assert(decreases_to!(*m => m@));
                        assert(decreases_to!(m@ => m@[i as int]));
                        assert(decreases_to!(m@[i as int] => m@[i as int].1));
                    }
                    let c = copy_json(&m[i].1);
                    let ghost before = out@;
                    out.push((m[i].0.clone(), c));
                    proof {
                        let a = view_members(out@);
                        let b = view_members(m@.take(i + 1));
                        assert(view_members(before).len() == before.len());
                        assert(view_members(m@.take(i as int)).len() == i);
                        assert forall|j: int| 0 <= j < a.len() implies a[j] == b[j] by {
                            if j < i {
                                assert(view_members(before)[j] == view_members(m@.take(i as int))[j]);
                                assert(out@[j] == before[j]);
                            }
                        }
                        assert(a =~= b);
                    }
                    i += 1;
                }
                proof {
                    assert(m@.take(m@.len() as int) =~= m@);
                }
                Json::Object(out)
            },
        }
}

/// Position of the first member named `k` in `m`.
fn find_member_exec(m: &Vec<(String, Json)>, k: &str) -> (r: Option<usize>)
    ensures
        r matches Some(j) ==> find_member(view_members(m@), k@) == Some(j as int) && j < m@.len(),
        r is None ==> find_member(view_members(m@), k@) is None,
{
    let mut i: usize = 0;
    while i < m.len()
        invariant
            0 <= i <= m.len(),
            forall|j: int| 0 <= j < i ==> m@[j].0@ != k@,
        decreases m.len() - i,
    {
        if str_eq(m[i].0.as_str(), k) {
            proof {
                lemma_find_member_first(view_members(m@), k@, i as int);
            }
            return Some(i);
        }
        i += 1;
    }
    proof {
        lemma_find_member_none(view_members(m@), k@);
    }
    None
}

proof fn lemma_find_member_first(m: Seq<(Seq<char>, JsonV)>, k: Seq<char>, i: int)
    requires
        0 <= i < m.len(),
        m[i].0 == k,
        forall|j: int| 0 <= j < i ==> m[j].0 != k,
    ensures
        find_member(m, k) == Some(i),
    decreases m.len(),
{
    if i > 0 {
        lemma_find_member_first(m.drop_first(), k, i - 1);
    }
}

proof fn lemma_find_member_none(m: Seq<(Seq<char>, JsonV)>, k: Seq<char>)
    requires
        forall|j: int| 0 <= j < m.len() ==> m[j].0 != k,
    ensures
        find_member(m, k) is None,
    decreases m.len(),
{
    if m.len() > 0 {
        lemma_find_member_none(m.drop_first(), k);
    }
}

/// `base` with `overlay` laid over it.
pub fn merged(base: Json, overlay: &Json) -> (r: Json)
    ensures
        r@ == spec_merge(base@, overlay@),
    decreases overlay,
{
    match overlay {
        Json::Object(om) => match base {
            Json::Object(bm0) => {
                let mut bm = bm0;
                let ghost bv = view_members(bm0@);
                let ghost ov = view_members(om@);
                let mut i: usize = 0;
                proof {
                    assert(ov.subrange(0, 0) =~= Seq::<(Seq<char>, JsonV)>::empty());
                }
                while i < om.len()
                    invariant
                        *overlay == Json::Object(*om),
                        0 <= i <= om.len(),
                        ov == view_members(om@),
                        overlay@ == JsonV::Object(ov),
                        view_members(bm@) == merge_members(bv, ov.subrange(0, i as int)),
                    decreases om.len() - i,
                {
                    proof {
                        assert(ov.subrange(0, i + 1).subrange(0, i as int) =~= ov.subrange(
                            0,
                            i as int,
                        ));
                        assert(ov.subrange(0, i + 1)[i as int] == ov[i as int]);
                    }
                    let key = &om[i].0;
                    let val = &om[i].1;
                    if !val.is_null() {
                        match find_member_exec(&bm, key.as_str()) {
                            Some(j) => {
                                let ghost before = bm@;
                                let (bk, bval) = bm.remove(j);
                                proof {
                                    assert(*overlay == Json::Object(*om));
                                    assert(decreases_to!(*overlay => *om));
                                    assert(decreases_to!(*om => om@));
                                    assert(decreases_to!(om@ => om@[i as int]));
                                    assert(decreases_to!(om@[i as int] => om@[i as int].1));
                                    lemma_find_some_bounds(view_members(before), key@);
                                }
                                let nv = merged(bval, val);
                                bm.insert(j, (bk, nv));
                                proof {
                                    let a = view_members(bm@);
                                    let b = view_members(before).update(
                                        j as int,
                                        (key@, spec_merge(view_members(before)[j as int].1, val@)),
                                    );
                                    assert forall|x: int| 0 <= x < a.len() implies a[x] == b[x] by {
                                        if x != j {
                                            assert(bm@[x] == before[x]);
                                        }
                                    }
                                    assert(a =~= b);
                                }
                            },
                            None => {
                                let ghost before = bm@;
                                let c = val.deep_copy();
                                bm.push((key.clone(), c));
                                proof {
                                    let a = view_members(bm@);
                                    let b = view_members(before).push((key@, val@));
                                    assert forall|x: int| 0 <= x < a.len() implies a[x] == b[x] by {
                                        if x < before.len() {
                                            assert(bm@[x] == before[x]);
                                        }
                                    }
                                    assert(a =~= b);
                                }
                            },
                        }
                    }
                    i += 1;
                }
                proof {
                    assert(ov.subrange(0, ov.len() as int) =~= ov);
                }
                Json::Object(bm)
            },
            _ => overlay.deep_copy(),
        },
        Json::Null => base,
        _ => overlay.deep_copy(),
    }
}

/// Lays `overlay` over `base` in place.
pub fn merge_json(base: &mut Json, overlay: &Json)
    ensures
        final(base)@ == spec_merge(old(base)@, overlay@),
{
    let mut taken = Json::Null;
    std::mem::swap(base, &mut taken);
    let m = merged(taken, overlay);
    *base = m;
}

/// A `null` overlay changes nothing.
pub proof fn law_merge_null_overlay(base: JsonV)
    ensures
        spec_merge(base, JsonV::Null) == base,
{
}

/// An overlay that is neither `null` nor an object replaces the base.
pub proof fn law_merge_scalar_overlay_wins(base: JsonV, overlay: JsonV)
    requires
        !(overlay is Null),
        !(overlay is Object),
    ensures
        spec_merge(base, overlay) == overlay,
{
}

/// Merging into an object never loses a member of the base: every name the
/// base object has is still present after the merge.
pub proof fn law_merge_keeps_base_members(bm: Seq<(Seq<char>, JsonV)>, om: Seq<(Seq<char>, JsonV)>, k: Seq<char>)
    requires
        find_member(bm, k) is Some,
    ensures
        find_member(merge_members(bm, om), k) is Some,
    decreases om.len(),
{
    if om.len() > 0 {
        let rest = om.subrange(0, om.len() - 1);
        law_merge_keeps_base_members(bm, rest, k);
        let before = merge_members(bm, rest);
        let (k2, v) = om[om.len() - 1];
        if !(v is Null) {
            match find_member(before, k2) {
                Some(j) => {
                    lemma_find_some_bounds(before, k2);
                    lemma_find_update(before, k, j, (k2, spec_merge(before[j].1, v)));
                },
                None => {
                    lemma_find_push(before, k, (k2, v));
                },
            }
        }
    }
}

proof fn lemma_find_some_bounds(m: Seq<(Seq<char>, JsonV)>, k: Seq<char>)
    ensures
        find_member(m, k) matches Some(i) ==> 0 <= i < m.len() && m[i].0 == k && forall|j: int|
            0 <= j < i ==> m[j].0 != k,
    decreases m.len(),
{
    if m.len() > 0 && m[0].0 != k {
        lemma_find_some_bounds(m.drop_first(), k);
        if let Some(i) = find_member(m.drop_first(), k) {
            assert forall|j: int| 0 <= j < i + 1 implies m[j].0 != k by {
                if j > 0 {
                    assert(m[j] == m.drop_first()[j - 1]);
                }
            }
        }
    }
}

proof fn lemma_find_update(m: Seq<(Seq<char>, JsonV)>, k: Seq<char>, j: int, e: (Seq<char>, JsonV))
    requires
        find_member(m, k) is Some,
        0 <= j < m.len(),
        e.0 == m[j].0,
    ensures
        find_member(m.update(j, e), k) is Some,
{
    lemma_find_some_bounds(m, k);
    let i = find_member(m, k)->0;
    let m2 = m.update(j, e);
    assert(m2[i].0 == k);
    assert forall|x: int| 0 <= x < i implies m2[x].0 != k by {
        if x == j {
            assert(m2[x].0 == m[x].0);
        }
    }
    lemma_find_member_first(m2, k, i);
}

proof fn lemma_find_push(m: Seq<(Seq<char>, JsonV)>, k: Seq<char>, e: (Seq<char>, JsonV))
    requires
        find_member(m, k) is Some,
    ensures
        find_member(m.push(e), k) is Some,
{
    lemma_find_some_bounds(m, k);
    let i = find_member(m, k)->0;
    let m2 = m.push(e);
    assert(m2[i].0 == k);
    lemma_find_member_first(m2, k, i);
}

/// JSON strings holding `s`, in order.
pub open spec fn strs_items(s: Seq<Seq<char>>) -> Seq<JsonV> {
    Seq::new(s.len(), |i: int| JsonV::Str(s[i]))
}

impl Json {
    /// A JSON string holding `s`.
    pub fn str(s: &str) -> (r: Json)
        ensures
            r@ == JsonV::Str(s@),
    {
        Json::String(s.to_string())
    }

    /// A JSON number holding the decimal digits of `n`.
    pub fn count(n: usize) -> (r: Json)
        ensures
            r@ == JsonV::Number(decimal(n as nat)),
    {
        Json::Number(decimal_string(n))
    }

    /// An array of strings.
    pub fn str_array(v: &Vec<String>) -> (r: Json)
        ensures
            r@ == JsonV::Array(strs_items(strs_of(v@))),
    {
        let mut out: Vec<Json> = Vec::new();
        let mut i: usize = 0;
        while i < v.len()
            invariant
                0 <= i <= v.len(),
                out@.len() == i,
                forall|j: int| 0 <= j < i ==> (#[trigger] out@[j])@ == JsonV::Str(v@[j]@),
            decreases v.len() - i,
        {
            out.push(Json::str(v[i].as_str()));
            i += 1;
        }
        let r = Json::Array(out);
        assert(view_items(out@) =~= strs_items(strs_of(v@)));
        r
    }

    /// An object with the members `members`, in order.
    pub fn object(members: Vec<(String, Json)>) -> (r: Json)
        ensures
            r@ == JsonV::Object(view_members(members@)),
    {
        Json::Object(members)
    }
}

/// A member named `k` with value `v`.
pub fn member(k: &str, v: Json) -> (r: (String, Json))
    ensures
        r.0@ == k@,
        r.1@ == v@,
{
    (k.to_string(), v)
}

/// An object of one member.
pub fn obj1(m1: (String, Json)) -> (r: Json)
    ensures
        r@ == JsonV::Object(seq![(m1.0@, m1.1@)]),
{
    let v = vec![m1];
    assert(view_members(v@) =~= seq![(v@[0].0@, v@[0].1@)]);
    Json::Object(v)
}

/// An object of two members.
pub fn obj2(m1: (String, Json), m2: (String, Json)) -> (r: Json)
    ensures
        r@ == JsonV::Object(seq![(m1.0@, m1.1@), (m2.0@, m2.1@)]),
{
    let v = vec![m1, m2];
    assert(view_members(v@) =~= seq![(v@[0].0@, v@[0].1@), (v@[1].0@, v@[1].1@)]);
    Json::Object(v)
}

/// An object of three members.
pub fn obj3(m1: (String, Json), m2: (String, Json), m3: (String, Json)) -> (r: Json)
    ensures
        r@ == JsonV::Object(seq![(m1.0@, m1.1@), (m2.0@, m2.1@), (m3.0@, m3.1@)]),
{
    let v = vec![m1, m2, m3];
    assert(view_members(v@) =~= seq![
        (v@[0].0@, v@[0].1@),
        (v@[1].0@, v@[1].1@),
        (v@[2].0@, v@[2].1@),
    ]);
    Json::Object(v)
}

/// An object of four members.
pub fn obj4(m1: (String, Json), m2: (String, Json), m3: (String, Json), m4: (String, Json)) -> (r:
    Json)
    ensures
        r@ == JsonV::Object(seq![(m1.0@, m1.1@), (m2.0@, m2.1@), (m3.0@, m3.1@), (m4.0@, m4.1@)]),
{
    let v = vec![m1, m2, m3, m4];
    assert(view_members(v@) =~= seq![
        (v@[0].0@, v@[0].1@),
        (v@[1].0@, v@[1].1@),
        (v@[2].0@, v@[2].1@),
        (v@[3].0@, v@[3].1@),
    ]);
    Json::Object(v)
}

/// An object with the single member `{"error": message}`.
pub fn error_reply(message: &str) -> (r: Json)
    ensures
        r@ == JsonV::Object(seq![("error"@, JsonV::Str(message@))]),
{
    obj1(member("error", Json::str(message)))
}

/// The configuration from its layers: the defaults, then the editor's
/// initialisation settings, then the workspace's `ecolog.toml`, each laid
/// over the ones before it.
pub open spec fn spec_layered(defaults: JsonV, init: Option<JsonV>, file: Option<JsonV>) -> JsonV {
    let a = match init {
        Some(i) => spec_merge(defaults, i),
        None => defaults,
    };
    match file {
        Some(f) => spec_merge(a, f),
        None => a,
    }
}

/// The configuration from its layers.
pub fn layered_config(defaults: Json, init: Option<&Json>, file: Option<&Json>) -> (r: Json)
    ensures
        r@ == spec_layered(
            defaults@,
            match init {
                Some(i) => Some(i@),
                None => None,
            },
            match file {
                Some(f) => Some(f@),
                None => None,
            },
        ),
{
    let mut config = defaults;
    match init {
        Some(i) => merge_json(&mut config, i),
        None => {},
    }
    match file {
        Some(f) => merge_json(&mut config, f),
        None => {},
    }
    config
}

/// A setting the workspace file gives as a plain value wins over the
/// editor's and the default's; one the file leaves out keeps the editor's.
pub proof fn law_file_layer_wins(
    dm: Seq<(Seq<char>, JsonV)>,
    im: Seq<(Seq<char>, JsonV)>,
    fm: Seq<(Seq<char>, JsonV)>,
    k: Seq<char>,
)
    requires
        find_member(fm, k) matches Some(j) && !(fm[j].1 is Null) && !(fm[j].1 is Object),
        forall|i: int, j: int|
            0 <= i < fm.len() && 0 <= j < fm.len() && fm[i].0 == k && fm[j].0 == k ==> i == j,
    ensures
        ({
            let r = spec_layered(JsonV::Object(dm), Some(JsonV::Object(im)), Some(JsonV::Object(fm)));
            r matches JsonV::Object(rm) && find_member(rm, k) matches Some(x) && rm[x].1 == fm[find_member(fm, k)->0].1
        }),
{
    let a = merge_members(dm, im);
    lemma_find_some_bounds(fm, k);
    lemma_merge_member_scalar(a, fm, k, find_member(fm, k)->0);
}

proof fn lemma_find_after_update(m: Seq<(Seq<char>, JsonV)>, k: Seq<char>, j: int, e: (Seq<char>, JsonV))
    requires
        0 <= j < m.len(),
        e.0 == m[j].0,
        find_member(m, k) is Some,
    ensures
        find_member(m.update(j, e), k) == find_member(m, k),
{
    lemma_find_some_bounds(m, k);
    let x = find_member(m, k)->0;
    let m2 = m.update(j, e);
    assert forall|i: int| 0 <= i < x implies m2[i].0 != k by {
        if i == j {
            assert(m2[i].0 == m[i].0);
        }
    }
    lemma_find_member_first(m2, k, x);
}

proof fn lemma_find_after_push(m: Seq<(Seq<char>, JsonV)>, k: Seq<char>, e: (Seq<char>, JsonV))
    ensures
        find_member(m, k) is Some ==> find_member(m.push(e), k) == find_member(m, k),
        find_member(m, k) is None && e.0 == k ==> find_member(m.push(e), k) == Some(m.len() as int),
{
    lemma_find_some_bounds(m, k);
    let m2 = m.push(e);
    if find_member(m, k) is Some {
        let x = find_member(m, k)->0;
        assert forall|i: int| 0 <= i < x implies m2[i].0 != k by {
            assert(m2[i] == m[i]);
        }
        lemma_find_member_first(m2, k, x);
    } else if e.0 == k {
        lemma_find_none_means_absent(m, k);
        assert forall|i: int| 0 <= i < m.len() implies m2[i].0 != k by {
            assert(m2[i] == m[i]);
        }
        lemma_find_member_first(m2, k, m.len() as int);
    }
}

proof fn lemma_find_none_means_absent(m: Seq<(Seq<char>, JsonV)>, k: Seq<char>)
    requires
        find_member(m, k) is None,
    ensures
        forall|i: int| 0 <= i < m.len() ==> m[i].0 != k,
    decreases m.len(),
{
    if m.len() > 0 {
        lemma_find_none_means_absent(m.drop_first(), k);
        assert forall|i: int| 0 <= i < m.len() implies m[i].0 != k by {
            if i > 0 {
                assert(m[i] == m.drop_first()[i - 1]);
            }
        }
    }
}

/// Merging members `om` whose only member named `k` (at `j`) is a plain
/// value leaves that value under `k`.
proof fn lemma_merge_member_scalar(
    bm: Seq<(Seq<char>, JsonV)>,
    om: Seq<(Seq<char>, JsonV)>,
    k: Seq<char>,
    j: int,
)
    requires
        0 <= j < om.len(),
        om[j].0 == k,
        !(om[j].1 is Null),
        !(om[j].1 is Object),
        forall|i: int| 0 <= i < om.len() && om[i].0 == k ==> i == j,
    ensures
        find_member(merge_members(bm, om), k) matches Some(x) && merge_members(bm, om)[x].1
            == om[j].1,
    decreases om.len(),
{
    let rest = om.subrange(0, om.len() - 1);
    let before = merge_members(bm, rest);
    let (k2, v) = om[om.len() - 1];
    if j == om.len() - 1 {
        match find_member(before, k) {
            Some(x) => {
                lemma_find_some_bounds(before, k);
                lemma_find_after_update(before, k, x, (k, spec_merge(before[x].1, v)));
            },
            None => {
                lemma_find_after_push(before, k, (k, v));
            },
        }
    } else {
        lemma_merge_member_scalar(bm, rest, k, j);
        lemma_find_some_bounds(before, k);
        let x = find_member(before, k)->0;
        assert(k2 != k);
        if !(v is Null) {
            match find_member(before, k2) {
                Some(y) => {
                    lemma_find_some_bounds(before, k2);
                    lemma_find_after_update(before, k, y, (k2, spec_merge(before[y].1, v)));
                },
                None => {
                    lemma_find_after_push(before, k, (k2, v));
                },
            }
        }
    }
}

} // verus!
