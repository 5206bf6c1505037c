//! An insertion-ordered map from names to booleans.
//!
//! It backs the modifier enable/disable configuration and the polyfill
//! flag defaults.  Keys are unique; inserting an existing key updates its
//! value in place and keeps its position, inserting a new key appends it.
use vstd::prelude::*;

use vstd::pervasive::VecAdditionalExecFns;

verus! {

broadcast use vstd::std_specs::vec::group_vec_axioms, vstd::seq::group_seq_axioms;

/// One name/value entry.
pub struct ConfigEntry {
    pub name: String,
    pub enabled: bool,
}

/// An insertion-ordered name-to-boolean map with unique keys.
pub struct ConfigMap {
    pub entries: Vec<ConfigEntry>,
}

/// The entries as mathematical pairs, in order.
pub open spec fn spec_entries(m: &ConfigMap) -> Seq<(Seq<char>, bool)> {
    Seq::new(m.entries@.len(), |i: int| (m.entries@[i].name@, m.entries@[i].enabled))
}

/// The position of the first entry with the given key, or -1.
pub open spec fn spec_index_of(es: Seq<(Seq<char>, bool)>, k: Seq<char>) -> int
    decreases es.len(),
{
    if es.len() == 0 {
        -1
    } else if es[0].0 == k {
        0
    } else {
        let r = spec_index_of(es.drop_first(), k);
        if r == -1 {
            -1
        } else {
            r + 1
        }
    }
}

pub open spec fn spec_contains_key(es: Seq<(Seq<char>, bool)>, k: Seq<char>) -> bool {
    spec_index_of(es, k) >= 0
}

/// The value of the entry with the given key.
pub open spec fn spec_value_of(es: Seq<(Seq<char>, bool)>, k: Seq<char>) -> bool {
    es[spec_index_of(es, k)].1
}

/// Keys occur at most once.
pub open spec fn spec_unique_keys(es: Seq<(Seq<char>, bool)>) -> bool {
    forall|i: int, j: int| 0 <= i < j < es.len() ==> es[i].0 != es[j].0
}

/// What inserting does: an existing key keeps its place with the new value,
/// a new key is appended.
pub open spec fn spec_insert(es: Seq<(Seq<char>, bool)>, k: Seq<char>, v: bool) -> Seq<
    (Seq<char>, bool),
> {
    if spec_contains_key(es, k) {
        es.update(spec_index_of(es, k), (k, v))
    } else {
        es.push((k, v))
    }
}

pub proof fn lemma_index_of_properties(es: Seq<(Seq<char>, bool)>, k: Seq<char>)
    ensures
        spec_index_of(es, k) >= -1,
        spec_index_of(es, k) == -1 ==> forall|i: int| 0 <= i < es.len() ==> es[i].0 != k,
        spec_index_of(es, k) >= 0 ==> {
            &&& spec_index_of(es, k) < es.len()
            &&& es[spec_index_of(es, k)].0 == k
            &&& forall|i: int| 0 <= i < spec_index_of(es, k) ==> es[i].0 != k
        },
    decreases es.len(),
{
    if es.len() > 0 && es[0].0 != k {
        let df = es.drop_first();
        lemma_index_of_properties(df, k);
        assert(forall|i: int| 0 <= i < df.len() ==> df[i] == es[i + 1]);
        let r = spec_index_of(es, k);
        let rp = spec_index_of(df, k);
        if r >= 0 {
            assert(df[rp] == es[rp + 1]);
            assert forall|i: int| 0 <= i < r implies es[i].0 != k by {
                if i > 0 {
                    assert(df[i - 1] == es[i]);
                }
            }
        } else {
            assert forall|i: int| 0 <= i < es.len() implies es[i].0 != k by {
                if i > 0 {
                    assert(df[i - 1] == es[i]);
                }
            }
        }
    }
}

/// A key is present exactly when some entry carries it.
pub proof fn lemma_contains_iff_exists(es: Seq<(Seq<char>, bool)>, k: Seq<char>)
    ensures
        spec_contains_key(es, k) <==> exists|i: int| 0 <= i < es.len() && es[i].0 == k,
{
    lemma_index_of_properties(es, k);
    if spec_index_of(es, k) >= 0 {
        assert(es[spec_index_of(es, k)].0 == k);
    } else {
        if exists|i: int| 0 <= i < es.len() && es[i].0 == k {
            let i = choose|i: int| 0 <= i < es.len() && es[i].0 == k;
            assert(es[i].0 != k);
        }
    }
}

/// With unique keys, the entry that carries a key is the one `spec_index_of`
/// finds.
pub proof fn lemma_unique_key_position(es: Seq<(Seq<char>, bool)>, k: Seq<char>, i: int)
    requires
        spec_unique_keys(es),
        0 <= i < es.len(),
        es[i].0 == k,
    ensures
        spec_index_of(es, k) == i,
{
    lemma_contains_iff_exists(es, k);
    lemma_index_of_properties(es, k);
    let r = spec_index_of(es, k);
    assert(r >= 0);
    if r != i {
        assert(es[r].0 == k);
    }
}

/// How an insert changes membership and values, key by key.
pub proof fn lemma_insert_properties(
    es: Seq<(Seq<char>, bool)>,
    k: Seq<char>,
    v: bool,
    q: Seq<char>,
)
    requires
        spec_unique_keys(es),
    ensures
        spec_unique_keys(spec_insert(es, k, v)),
        spec_contains_key(spec_insert(es, k, v), q) <==> (spec_contains_key(es, q) || q == k),
        q == k ==> spec_value_of(spec_insert(es, k, v), q) == v,
        q != k && spec_contains_key(es, q) ==> spec_value_of(spec_insert(es, k, v), q)
            == spec_value_of(es, q),
{
    let out = spec_insert(es, k, v);
    lemma_index_of_properties(es, k);
    lemma_index_of_properties(es, q);
    lemma_contains_iff_exists(es, k);
    lemma_contains_iff_exists(es, q);
    lemma_contains_iff_exists(out, q);
    if spec_contains_key(es, k) {
        let ik = spec_index_of(es, k);
        assert(out[ik].0 == k);
        assert(forall|i: int| 0 <= i < es.len() && i != ik ==> out[i] == es[i]);
        assert(spec_unique_keys(out));
        if q == k {
            lemma_unique_key_position(out, k, ik);
        } else if spec_contains_key(es, q) {
            let iq = spec_index_of(es, q);
            assert(es[iq].0 == q);
            assert(iq != ik);
            assert(out[iq] == es[iq]);
            lemma_unique_key_position(out, q, iq);
        }
    } else {
        assert(forall|i: int| 0 <= i < es.len() ==> out[i] == es[i]);
        assert(out.last() == (k, v));
        assert(forall|i: int| 0 <= i < es.len() ==> es[i].0 != k);
        assert(spec_unique_keys(out));
        if q == k {
            lemma_unique_key_position(out, k, es.len() as int);
        } else if spec_contains_key(es, q) {
            let iq = spec_index_of(es, q);
            assert(out[iq] == es[iq]);
            lemma_unique_key_position(out, q, iq);
        }
    }
}

impl ConfigMap {
    /// An empty map.
    pub fn new() -> (r: Self)
        ensures
            spec_entries(&r) == Seq::<(Seq<char>, bool)>::empty(),
            spec_unique_keys(spec_entries(&r)),
    {
        let r = ConfigMap { entries: Vec::new() };
        proof {
            assert(spec_entries(&r) =~= Seq::<(Seq<char>, bool)>::empty());
        }
        r
    }

    pub fn len(&self) -> (r: usize)
        ensures
            r == spec_entries(self).len(),
    {
        self.entries.len()
    }

    /// The name of the entry at a position.
    pub fn name_at(&self, i: usize) -> (r: &String)
        requires
            i < spec_entries(self).len(),
        ensures
            r@ == spec_entries(self)[i as int].0,
    {
        &self.entries[i].name
    }

    /// The value of the entry at a position.
    pub fn enabled_at(&self, i: usize) -> (r: bool)
        requires
            i < spec_entries(self).len(),
        ensures
            r == spec_entries(self)[i as int].1,
    {
        self.entries[i].enabled
    }

    /// Looks a name up.
    #[verifier::loop_isolation(false)]
    pub fn get(&self, name: &String) -> (r: Option<bool>)
        ensures
            spec_contains_key(spec_entries(self), name@) ==> r == Option::Some(
                spec_value_of(spec_entries(self), name@),
            ),
            !spec_contains_key(spec_entries(self), name@) ==> r is None,
    {
        let ghost es = spec_entries(self);
        proof {
            lemma_index_of_properties(es, name@);
            lemma_contains_iff_exists(es, name@);
        }
        let mut i: usize = 0;
        while i < self.entries.len()
            invariant
                i <= self.entries@.len(),
                es == spec_entries(self),
                forall|j: int| 0 <= j < i as int ==> es[j].0 != name@,
            decreases self.entries@.len() - i,
        {
            if self.entries[i].name == *name {
                proof {
                    assert(es[i as int].0 == name@);
                    assert(spec_index_of(es, name@) >= 0);
                    assert(spec_index_of(es, name@) == i as int) by {
                        let r = spec_index_of(es, name@);
                        if r < i as int {
                            assert(es[r].0 == name@);
                        }
                        if r > i as int {
                            assert(es[i as int].0 != name@);
                        }
                    }
                }
                return Option::Some(self.entries[i].enabled);
            }
            i += 1;
        }
        proof {
            assert(!spec_contains_key(es, name@));
        }
        Option::None
    }

    /// Inserts a name: an existing key keeps its position and takes the new
    /// value, a new key is appended.
    #[verifier::loop_isolation(false)]
    pub fn insert(&mut self, name: String, value: bool)
        requires
            spec_unique_keys(spec_entries(old(self))),
        ensures
            spec_entries(final(self)) == spec_insert(spec_entries(old(self)), name@, value),
            spec_unique_keys(spec_entries(final(self))),
    {
        let ghost es = spec_entries(old(self));
        proof {
            lemma_index_of_properties(es, name@);
            lemma_contains_iff_exists(es, name@);
            lemma_insert_properties(es, name@, value, name@);
        }
        let mut i: usize = 0;
        while i < self.entries.len()
            invariant
                i <= self.entries@.len(),
                *self == *old(self),
                es == spec_entries(self),
                forall|j: int| 0 <= j < i as int ==> es[j].0 != name@,
            decreases self.entries@.len() - i,
        {
            if self.entries[i].name == *(&name) {
                proof {
                    assert(es[i as int].0 == name@);
                    assert(spec_index_of(es, name@) == i as int) by {
                        let r = spec_index_of(es, name@);
                        if r < i as int {
                            assert(es[r].0 == name@);
                        }
                        if r > i as int {
                            assert(es[i as int].0 != name@);
                        }
                        assert(r >= 0);
                    }
                }
                self.entries.set(i, ConfigEntry { name, enabled: value });
                proof {
                    assert(spec_entries(self) =~= spec_insert(es, name@, value));
                }
                return ;
            }
            i += 1;
        }
        proof {
            assert(!spec_contains_key(es, name@));
        }
        self.entries.push(ConfigEntry { name, enabled: value });
        proof {
            assert(spec_entries(self) =~= spec_insert(es, name@, value));
        }
    }
}

} // verus!
