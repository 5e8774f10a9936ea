//! JSON values and documents.
//!
//! A content item's payload is a JSON document: a mapping from string keys
//! to JSON values. `JsonValue` is the executable representation; its
//! mathematical view is `Jv`, and a `Document`'s view is a
//! `Map<Seq<char>, Jv>`.

use vstd::prelude::*;

verus! {

broadcast use vstd::std_specs::vec::axiom_vec_index_decreases;

/// Mathematical model of a JSON value. Numbers are modelled by their
/// decimal text, which is all the schema validator ever inspects.
pub enum Jv {
    Null,
    Bool(bool),
    Num(Seq<char>),
    Str(Seq<char>),
    Arr(Seq<Jv>),
    Obj(Seq<(Seq<char>, Jv)>),
}

/// A JSON value. The `Number` variant keeps the number's decimal text:
/// the engine never does arithmetic on document values, it only checks
/// their kind.
pub enum JsonValue {
    Null,
    Bool(bool),
    Number(String),
    String(String),
    Array(Vec<JsonValue>),
    Object(Vec<(String, JsonValue)>),
}

impl View for JsonValue {
    type V = Jv;

    open spec fn view(&self) -> Jv
        decreases self,
    {
        match self {
            JsonValue::Null => Jv::Null,
            JsonValue::Bool(b) => Jv::Bool(*b),
            JsonValue::Number(s) => Jv::Num(s@),
            JsonValue::String(s) => Jv::Str(s@),
            JsonValue::Array(vs) => Jv::Arr(
                Seq::new(
                    vs.len() as nat,
                    |i: int| if 0 <= i < vs.len() {
                        vs[i].view()
                    } else {
                        Jv::Null
                    },
                ),
            ),
            JsonValue::Object(ps) => Jv::Obj(
                Seq::new(
                    ps.len() as nat,
                    |i: int| if 0 <= i < ps.len() {
                        (ps[i].0@, ps[i].1.view())
                    } else {
                        (Seq::empty(), Jv::Null)
                    },
                ),
            ),
        }
    }
}

impl JsonValue {
    /// A structurally equal copy of this value.
    #[verifier::loop_isolation(false)]
    pub fn deep_clone(&self) -> (r: JsonValue)
        ensures
            r@ == self@,
        decreases self,
    {
        match self {
            JsonValue::Null => JsonValue::Null,
            JsonValue::Bool(b) => JsonValue::Bool(*b),
            JsonValue::Number(s) => JsonValue::Number(s.clone()),
            JsonValue::String(s) => JsonValue::String(s.clone()),
            JsonValue::Array(vs) => {
                let mut out: Vec<JsonValue> = Vec::new();
                let mut i: usize = 0;
                while i < vs.len()
                    invariant
                        i <= vs.len(),
                        out@.len() == i as nat,
                        forall|j: int| 0 <= j < i ==> out@[j]@ == vs@[j]@,
                    decreases vs.len() - i,
                {
                    out.push(vs[i].deep_clone());
                    i = i + 1;
                }
                let r = JsonValue::Array(out);
                proof {
                    assert(r@->Arr_0 =~= self@->Arr_0);
                }
                r
            },
            JsonValue::Object(ps) => {
                let mut out: Vec<(String, JsonValue)> = Vec::new();
                let mut i: usize = 0;
                while i < ps.len()
                    invariant
                        i <= ps.len(),
                        out@.len() == i as nat,
                        forall|j: int| 0 <= j < i ==> out@[j].0@ == ps@[j].0@ && out@[j].1@
                            == ps@[j].1@,
                    decreases ps.len() - i,
                {
                    let entry = &ps[i];
                    out.push((entry.0.clone(), entry.1.deep_clone()));
                    i = i + 1;
                }
                let r = JsonValue::Object(out);
                proof {
                    assert(r@->Obj_0 =~= self@->Obj_0);
                }
                r
            },
        }
    }
}

/// The contents of a sequence of keyed entries, as a map. A later entry
/// for the same key wins, as it would under repeated insertion.
spec fn map_of_entries(s: Seq<(String, JsonValue)>) -> Map<Seq<char>, Jv>
    decreases s.len(),
{
    if s.len() == 0 {
        Map::empty()
    } else {
        map_of_entries(s.drop_last()).insert(s.last().0@, s.last().1@)
    }
}

/// A key held by no entry is absent from the entry map.
proof fn lemma_absent_key(s: Seq<(String, JsonValue)>, k: Seq<char>)
    requires
        forall|j: int| 0 <= j < s.len() ==> s[j].0@ != k,
    ensures
        !map_of_entries(s).contains_key(k),
    decreases s.len(),
{
    if s.len() > 0 {
        assert(s[s.len() - 1].0@ != k);
        assert forall|j: int| 0 <= j < s.drop_last().len() implies s.drop_last()[j].0@ != k by {
            assert(s.drop_last()[j] == s[j]);
        }
        lemma_absent_key(s.drop_last(), k);
    }
}

/// Under unique keys, the entry map holds each entry's value at its key.
proof fn lemma_map_of_entries_at(s: Seq<(String, JsonValue)>, i: int)
    requires
        0 <= i < s.len(),
        forall|p: int, q: int| 0 <= p < q < s.len() ==> s[p].0@ != s[q].0@,
    ensures
        map_of_entries(s).contains_key(s[i].0@),
        map_of_entries(s)[s[i].0@] == s[i].1@,
    decreases s.len(),
{
    if i < s.len() - 1 {
        assert forall|p: int, q: int|
            0 <= p < q < s.drop_last().len() implies s.drop_last()[p].0@ != s.drop_last()[q].0@ by {
            assert(s.drop_last()[p] == s[p] && s.drop_last()[q] == s[q]);
        }
        lemma_map_of_entries_at(s.drop_last(), i);
        assert(s.drop_last()[i] == s[i]);
        assert(s[i].0@ != s[s.len() - 1].0@);
    }
}

/// A JSON document: a mapping from string keys to JSON values, as sent
/// with a content item. Its view is the map of its entries.
pub struct Document {
    entries: Vec<(String, JsonValue)>,
}

impl View for Document {
    type V = Map<Seq<char>, Jv>;

    closed spec fn view(&self) -> Map<Seq<char>, Jv> {
        map_of_entries(self.entries@)
    }
}

impl Document {
    /// The entries hold at most one value per key.
    pub closed spec fn wf(&self) -> bool {
        forall|p: int, q: int|
            0 <= p < q < self.entries@.len() ==> self.entries@[p].0@ != self.entries@[q].0@
    }

    /// An empty document.
    pub fn new() -> (d: Document)
        ensures
            d@ == Map::<Seq<char>, Jv>::empty(),
            d.wf(),
    {
        Document { entries: Vec::new() }
    }

    /// Whether the document has no entries at all.
    pub fn is_empty(&self) -> (r: bool)
        ensures
            r <==> self@ == Map::<Seq<char>, Jv>::empty(),
    {
        proof {
            if self.entries@.len() > 0 {
                assert(self@.contains_key(self.entries@.last().0@));
            } else {
                assert(self@ =~= Map::<Seq<char>, Jv>::empty());
            }
        }
        self.entries.len() == 0
    }

    /// The value stored under `key`, if any.
    pub fn get(&self, key: &String) -> (r: Option<&JsonValue>)
        requires
            self.wf(),
        ensures
            match r {
                Some(v) => self@.contains_key(key@) && v@ == self@[key@],
                None => !self@.contains_key(key@),
            },
    {
        let n: usize = self.entries.len();
        let mut i: usize = 0;
        while i < n
            invariant
                n == self.entries@.len(),
                i <= n,
                self.wf(),
                forall|j: int| 0 <= j < i ==> self.entries@[j].0@ != key@,
            decreases n - i,
        {
            if self.entries[i].0 == *key {
                proof {
                    lemma_map_of_entries_at(self.entries@, i as int);
                }
                return Some(&self.entries[i].1);
            }
            i = i + 1;
        }
        proof {
            lemma_absent_key(self.entries@, key@);
        }
        None
    }

    /// Put `value` under `key`, replacing any earlier value for that key.
    pub fn insert(&mut self, key: String, value: JsonValue)
        requires
            old(self).wf(),
        ensures
            final(self).wf(),
            final(self)@ == old(self)@.insert(key@, value@),
    {
        let n: usize = self.entries.len();
        let mut i: usize = 0;
        while i < n
            invariant
                *self == *old(self),
                n == self.entries@.len(),
                i <= n,
                self.wf(),
                forall|j: int| 0 <= j < i ==> self.entries@[j].0@ != key@,
            decreases n - i,
        {
            if self.entries[i].0 == key {
                let ghost pre = self.entries@;
                self.entries.set(i, (key, value));
                proof {
                    lemma_replace_entry(pre, self.entries@, i as int);
                }
                return ;
            }
            i = i + 1;
        }
        let ghost pre = self.entries@;
        self.entries.push((key, value));
        proof {
            assert(self.entries@.drop_last() =~= pre);
            lemma_absent_key(pre, key@);
            assert(self@ =~= old(self)@.insert(key@, value@));
        }
    }

    /// A structurally equal copy of this document.
    pub fn deep_clone(&self) -> (r: Document)
        ensures
            r@ == self@,
            self.wf() ==> r.wf(),
    {
        let n: usize = self.entries.len();
        let mut out: Vec<(String, JsonValue)> = Vec::new();
        let mut i: usize = 0;
        while i < n
            invariant
                n == self.entries@.len(),
                i <= n,
                out@.len() == i as nat,
                forall|j: int| #![all_triggers]
                    0 <= j < i ==> out@[j].0@ == self.entries@[j].0@ && out@[j].1@
                        == self.entries@[j].1@,
            decreases n - i,
        {
            let entry = &self.entries[i];
            out.push((entry.0.clone(), entry.1.deep_clone()));
            i = i + 1;
        }
        let r = Document { entries: out };
        proof {
            lemma_entrywise_equal_maps(r.entries@, self.entries@);
        }
        r
    }
}

/// Replacing the entry at `i` by one with an equal key changes the
/// entry map exactly at that key.
proof fn lemma_replace_entry(pre: Seq<(String, JsonValue)>, post: Seq<(String, JsonValue)>, i: int)
    requires
        0 <= i < pre.len(),
        post.len() == pre.len(),
        post[i].0@ == pre[i].0@,
        forall|j: int| 0 <= j < pre.len() && j != i ==> post[j] == pre[j],
        forall|p: int, q: int| 0 <= p < q < pre.len() ==> pre[p].0@ != pre[q].0@,
    ensures
        map_of_entries(post) == map_of_entries(pre).insert(post[i].0@, post[i].1@),
    decreases pre.len(),
{
    if i == pre.len() - 1 {
        assert(post.drop_last() =~= pre.drop_last());
        assert(map_of_entries(post) =~= map_of_entries(pre).insert(post[i].0@, post[i].1@));
    } else {
        lemma_replace_entry(pre.drop_last(), post.drop_last(), i);
        assert(post.last() == pre.last());
        assert(post.drop_last()[i] == post[i]);
        assert(map_of_entries(post) =~= map_of_entries(pre).insert(post[i].0@, post[i].1@));
    }
}

/// Two entry sequences equal entry by entry (up to views) have the same
/// entry map.
proof fn lemma_entrywise_equal_maps(a: Seq<(String, JsonValue)>, b: Seq<(String, JsonValue)>)
    requires
        a.len() == b.len(),
        forall|j: int| #![all_triggers] 0 <= j < a.len() ==> a[j].0@ == b[j].0@ && a[j].1@ == b[j].1@,
    ensures
        map_of_entries(a) == map_of_entries(b),
    decreases a.len(),
{
    if a.len() > 0 {
        lemma_entrywise_equal_maps(a.drop_last(), b.drop_last());
        assert(map_of_entries(a) =~= map_of_entries(b));
    }
}

} // verus!
