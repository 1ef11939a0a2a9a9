//! A JSON document held as plain values, and its mathematical model.

use vstd::prelude::*;

verus! {

broadcast use vstd::std_specs::vec::group_vec_axioms;

/// A JSON document. Numbers are non-negative integers, which is all that the
/// wire schema of this library carries.
#[derive(Debug)]
pub enum Json {
    Null,
    Bool(bool),
    Number(u64),
    Str(String),
    Array(Vec<Json>),
    Object(Vec<(String, Json)>),
}

/// The model of a [`Json`] document.
pub enum JsonView {
    Null,
    Bool(bool),
    Number(nat),
    Str(Seq<char>),
    Array(Seq<JsonView>),
    Object(Seq<(Seq<char>, JsonView)>),
}

/// Model of each element of an array.
pub open spec fn elements_view(s: Seq<Json>) -> Seq<JsonView>
    decreases s,
{
    if s.len() == 0 {
        Seq::empty()
    } else {
        elements_view(s.drop_last()).push(json_view(s.last()))
    }
}

/// Model of each member of an object.
pub open spec fn members_view(s: Seq<(String, Json)>) -> Seq<(Seq<char>, JsonView)>
    decreases s,
{
    if s.len() == 0 {
        Seq::empty()
    } else {
        members_view(s.drop_last()).push((s.last().0@, json_view(s.last().1)))
    }
}

pub open spec fn json_view(j: Json) -> JsonView
    decreases j,
{
    match j {
        Json::Null => JsonView::Null,
        Json::Bool(b) => JsonView::Bool(b),
        Json::Number(n) => JsonView::Number(n as nat),
        Json::Str(s) => JsonView::Str(s@),
        Json::Array(v) => JsonView::Array(elements_view(v@)),
        Json::Object(v) => JsonView::Object(members_view(v@)),
    }
}

/// The value of the first member named `k`, if any.
pub open spec fn lookup(ms: Seq<(Seq<char>, JsonView)>, k: Seq<char>) -> Option<JsonView>
    decreases ms.len(),
{
    if ms.len() == 0 {
        None
    } else {
        match lookup(ms.drop_last(), k) {
            Some(v) => Some(v),
            None => if ms.last().0 == k {
                Some(ms.last().1)
            } else {
                None
            },
        }
    }
}

/// The members not named `k`, in their order.
pub open spec fn without_key(ms: Seq<(Seq<char>, JsonView)>, k: Seq<char>) -> Seq<(Seq<char>, JsonView)>
    decreases ms.len(),
{
    if ms.len() == 0 {
        ms
    } else if ms.last().0 == k {
        without_key(ms.drop_last(), k)
    } else {
        without_key(ms.drop_last(), k).push(ms.last())
    }
}

/// No member is named `k`.
pub open spec fn lacks_key(ms: Seq<(Seq<char>, JsonView)>, k: Seq<char>) -> bool {
    forall|i: int| 0 <= i < ms.len() ==> #[trigger] ms[i].0 != k
}

pub proof fn lemma_members_view_append(a: Seq<(String, Json)>, b: Seq<(String, Json)>)
    ensures
        members_view(a + b) == members_view(a) + members_view(b),
    decreases b.len(),
{
    if b.len() == 0 {
        assert(a + b =~= a);
        assert(members_view(a) + members_view(b) =~= members_view(a));
    } else {
        lemma_members_view_append(a, b.drop_last());
        assert((a + b).drop_last() =~= a + b.drop_last());
        assert(members_view(a) + members_view(b) =~= (members_view(a) + members_view(b.drop_last())).push(
            (b.last().0@, json_view(b.last().1)),
        ));
    }
}

pub proof fn lemma_without_absent_key(p: Seq<(Seq<char>, JsonView)>, k: Seq<char>, v: JsonView)
    requires
        lacks_key(p, k),
    ensures
        without_key(seq![(k, v)] + p, k) == p,
        without_key(p, k) == p,
    decreases p.len(),
{
    if p.len() == 0 {
        assert(seq![(k, v)] + p =~= seq![(k, v)]);
        assert(seq![(k, v)].drop_last() =~= Seq::<(Seq<char>, JsonView)>::empty());
        assert(p =~= Seq::<(Seq<char>, JsonView)>::empty());
        assert(without_key(seq![(k, v)], k) == without_key(Seq::<(Seq<char>, JsonView)>::empty(), k));
    } else {
        assert(lacks_key(p.drop_last(), k)) by {
            assert forall|i: int| 0 <= i < p.drop_last().len() implies #[trigger] p.drop_last()[i].0 != k by {
                assert(p.drop_last()[i] == p[i]);
            }
        }
        lemma_without_absent_key(p.drop_last(), k, v);
        assert((seq![(k, v)] + p).drop_last() =~= seq![(k, v)] + p.drop_last());
        assert(p.last().0 != k) by {
            assert(p[p.len() - 1].0 != k);
        }
        assert(p.drop_last().push(p.last()) =~= p);
        assert((seq![(k, v)] + p).last() == p.last());
        assert(without_key(seq![(k, v)] + p, k) == without_key(seq![(k, v)] + p.drop_last(), k).push(p.last()));
    }
}

/// The key of a member is `name`.
fn key_is(k: &String, name: &str) -> (r: bool)
    ensures
        r == (k@ == name@),
{
    *k == name.to_owned()
}

/// The value of the first member named `key`.
pub fn member<'a>(ms: &'a Vec<(String, Json)>, key: &str) -> (r: Option<&'a Json>)
    ensures
        lookup(members_view(ms@), key@) == match r {
            Some(j) => Some(j@),
            None => None::<JsonView>,
        },
{
    let mut i: usize = 0;
    while i < ms.len()
        invariant
            i <= ms@.len(),
            lookup(members_view(ms@.take(i as int)), key@) == None::<JsonView>,
        decreases ms@.len() - i,
    {
        proof {
            assert(ms@.take(i + 1).drop_last() =~= ms@.take(i as int));
            let mv = members_view(ms@.take(i + 1));
            assert(mv.drop_last() =~= members_view(ms@.take(i as int)));
            assert(mv.last() == (ms@[i as int].0@, json_view(ms@[i as int].1)));
        }
        if key_is(&ms[i].0, key) {
            proof {
                lemma_lookup_prefix(ms@, i as int + 1, key@);
            }
            return Some(&ms[i].1);
        }
        i = i + 1;
    }
    assert(ms@.take(i as int) =~= ms@);
    None
}

/// A member found in a prefix is the one found in the whole.
proof fn lemma_lookup_prefix(ms: Seq<(String, Json)>, n: int, k: Seq<char>)
    requires
        0 <= n <= ms.len(),
        lookup(members_view(ms.take(n)), k) is Some,
    ensures
        lookup(members_view(ms), k) == lookup(members_view(ms.take(n)), k),
    decreases ms.len() - n,
{
    if n < ms.len() {
        assert(ms.take(n + 1).drop_last() =~= ms.take(n));
        let mv = members_view(ms.take(n + 1));
        assert(mv.drop_last() =~= members_view(ms.take(n)));
        assert(lookup(mv, k) == lookup(members_view(ms.take(n)), k));
        lemma_lookup_prefix(ms, n + 1, k);
    } else {
        assert(ms.take(n) =~= ms);
    }
}

/// The model of a prefix of an array is the prefix of its model.
pub proof fn lemma_elements_view_take(s: Seq<Json>, n: int)
    requires
        0 <= n <= s.len(),
    ensures
        elements_view(s).len() == s.len(),
        elements_view(s).take(n) == elements_view(s.take(n)),
    decreases s.len(),
{
    if s.len() > 0 {
        lemma_elements_view_take(s.drop_last(), if n < s.len() { n } else { 0 });
    }
    if n == s.len() {
        assert(s.take(n) =~= s);
        assert(elements_view(s).take(n) =~= elements_view(s));
    } else {
        assert(s.drop_last().take(n) =~= s.take(n));
        assert(elements_view(s).take(n) =~= elements_view(s.drop_last()).take(n));
    }
}

/// No member named `k`: nothing is found.
pub proof fn lemma_lookup_absent(ms: Seq<(Seq<char>, JsonView)>, k: Seq<char>)
    requires
        lacks_key(ms, k),
    ensures
        lookup(ms, k) is None,
    decreases ms.len(),
{
    if ms.len() > 0 {
        assert(lacks_key(ms.drop_last(), k)) by {
            assert forall|i: int| 0 <= i < ms.drop_last().len() implies #[trigger] ms.drop_last()[i].0 != k by {
                assert(ms.drop_last()[i] == ms[i]);
            }
        }
        lemma_lookup_absent(ms.drop_last(), k);
        assert(ms[ms.len() - 1].0 != k);
    }
}

/// The first member named `k` is the one found.
pub proof fn lemma_lookup_at(ms: Seq<(Seq<char>, JsonView)>, i: int, k: Seq<char>)
    requires
        0 <= i < ms.len(),
        ms[i].0 == k,
        forall|j: int| 0 <= j < i ==> (#[trigger] ms[j]).0 != k,
    ensures
        lookup(ms, k) == Some(ms[i].1),
    decreases ms.len(),
{
    if i == ms.len() - 1 {
        assert(lacks_key(ms.drop_last(), k)) by {
            assert forall|j: int| 0 <= j < ms.drop_last().len() implies #[trigger] ms.drop_last()[j].0 != k by {
                assert(ms.drop_last()[j] == ms[j]);
            }
        }
        lemma_lookup_absent(ms.drop_last(), k);
    } else {
        assert forall|j: int| 0 <= j < i implies (#[trigger] ms.drop_last()[j]).0 != k by {
            assert(ms.drop_last()[j] == ms[j]);
        }
        lemma_lookup_at(ms.drop_last(), i, k);
    }
}

/// A member found in a prefix of the members is found in the whole.
pub proof fn lemma_lookup_append(a: Seq<(Seq<char>, JsonView)>, b: Seq<(Seq<char>, JsonView)>, k: Seq<char>)
    requires
        lookup(a, k) is Some,
    ensures
        lookup(a + b, k) == lookup(a, k),
    decreases b.len(),
{
    if b.len() == 0 {
        assert(a + b =~= a);
    } else {
        lemma_lookup_append(a, b.drop_last(), k);
        assert((a + b).drop_last() =~= a + b.drop_last());
    }
}

/// What is left without a key lacks it.
pub proof fn lemma_without_key_lacks(ms: Seq<(Seq<char>, JsonView)>, k: Seq<char>)
    ensures
        lacks_key(without_key(ms, k), k),
    decreases ms.len(),
{
    if ms.len() > 0 {
        lemma_without_key_lacks(ms.drop_last(), k);
        let w = without_key(ms.drop_last(), k);
        if ms.last().0 != k {
            assert forall|i: int| 0 <= i < w.push(ms.last()).len() implies #[trigger] w.push(ms.last())[i].0 != k by {
                if i < w.len() {
                    assert(w.push(ms.last())[i] == w[i]);
                }
            }
        }
    }
}

/// The members of `ms` not named `key`, copied.
pub fn without_member(ms: &Vec<(String, Json)>, key: &str) -> (r: Vec<(String, Json)>)
    ensures
        members_view(r@) == without_key(members_view(ms@), key@),
{
    let mut out: Vec<(String, Json)> = Vec::new();
    let mut i: usize = 0;
    while i < ms.len()
        invariant
            i <= ms@.len(),
            members_view(out@) == without_key(members_view(ms@.take(i as int)), key@),
        decreases ms@.len() - i,
    {
        proof {
            assert(ms@.take(i + 1).drop_last() =~= ms@.take(i as int));
            let mv = members_view(ms@.take(i + 1));
            assert(mv.drop_last() =~= members_view(ms@.take(i as int)));
            assert(mv.last() == (ms@[i as int].0@, json_view(ms@[i as int].1)));
        }
        if !key_is(&ms[i].0, key) {
            let k = ms[i].0.clone();
            let v = ms[i].1.duplicate();
            let ghost prev = out@;
            out.push((k, v));
            proof {
                assert(out@.drop_last() =~= prev);
            }
        }
        i = i + 1;
    }
    assert(ms@.take(i as int) =~= ms@);
    out
}

/// Appends the member `key: value` to an object's members.
pub fn push_member(ms: &mut Vec<(String, Json)>, key: &str, value: Json)
    ensures
        members_view(final(ms)@) == members_view(old(ms)@).push((key@, value@)),
{
    ms.push((key.to_owned(), value));
    proof {
        assert(ms@.drop_last() =~= old(ms)@);
    }
}

/// The members of an empty object.
pub proof fn lemma_members_view_empty()
    ensures
        members_view(Seq::<(String, Json)>::empty()) == Seq::<(Seq<char>, JsonView)>::empty(),
{
}

impl View for Json {
    type V = JsonView;

    open spec fn view(&self) -> JsonView {
        json_view(*self)
    }
}

proof fn lemma_element_decreases(j: Json, i: int)
    requires
        j is Array,
        0 <= i < j->Array_0.len(),
    ensures
        decreases_to!(j => j->Array_0[i]),
{
    assert(decreases_to!(j => j->Array_0));
}

proof fn lemma_member_decreases(j: Json, i: int)
    requires
        j is Object,
        0 <= i < j->Object_0.len(),
    ensures
        decreases_to!(j => j->Object_0[i].1),
{
    assert(decreases_to!(j => j->Object_0));
    assert(decreases_to!(j->Object_0 => j->Object_0[i]));
}

impl Json {
    /// A copy of the document that shares no storage with it.
    pub fn duplicate(&self) -> (r: Json)
        ensures
            r@ == self@,
        decreases self,
    {
        match self {
            Json::Null => Json::Null,
            Json::Bool(b) => Json::Bool(*b),
            Json::Number(n) => Json::Number(*n),
            Json::Str(s) => Json::Str(s.clone()),
            Json::Array(v) => {
                let mut out: Vec<Json> = Vec::new();
                let mut i: usize = 0;
                while i < v.len()
                    invariant
                        i <= v@.len(),
                        elements_view(out@) == elements_view(v@.take(i as int)),
                        *self == Json::Array(*v),
                    decreases v@.len() - i,
                {
                    proof {
                        lemma_element_decreases(*self, i as int);
                    }
                    let e = v[i].duplicate();
                    proof {
                        assert(out@.push(e).drop_last() =~= out@);
                        assert(v@.take(i + 1).drop_last() =~= v@.take(i as int));
                    }
                    out.push(e);
                    i = i + 1;
                }
                assert(v@.take(i as int) =~= v@);
                Json::Array(out)
            },
            Json::Object(v) => {
                let mut out: Vec<(String, Json)> = Vec::new();
                let mut i: usize = 0;
                while i < v.len()
                    invariant
                        i <= v@.len(),
                        members_view(out@) == members_view(v@.take(i as int)),
                        *self == Json::Object(*v),
                    decreases v@.len() - i,
                {
                    let k = v[i].0.clone();
                    proof {
                        lemma_member_decreases(*self, i as int);
                    }
                    let e = v[i].1.duplicate();
                    proof {
                        assert(out@.push((k, e)).drop_last() =~= out@);
                        assert(v@.take(i + 1).drop_last() =~= v@.take(i as int));
                    }
                    out.push((k, e));
                    i = i + 1;
                }
                assert(v@.take(i as int) =~= v@);
                Json::Object(out)
            },
        }
    }
}

impl Clone for Json {
    fn clone(&self) -> (r: Json)
        ensures
            r@ == self@,
    {
        self.duplicate()
    }
}

} // verus!
