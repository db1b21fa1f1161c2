//! The storage engine: an append-only mapping from generated keys to
//! dynamically-shaped values. The `n`-th insertion is issued the key
//! `entry_n`; no update, deletion or eviction exists. All access is expected
//! to be serialized by the caller (one exclusive lock around the whole
//! store), so that no two insertions observe the same pre-insertion size;
//! under that discipline every issued key is fresh.

use vstd::prelude::*;
use crate::json::{JsonValue, SpecJson, view_arr, view_of, lemma_view_arr};
use crate::keys::{spec_key, make_key, lemma_key_injective};

verus! {

/// The store: the values in insertion order. The key of the `i`-th value
/// (counting from zero) is `entry_{i+1}`, so the values alone determine the
/// full mapping.
pub struct Store {
    entries: Vec<JsonValue>,
}

impl View for Store {
    type V = Seq<SpecJson>;

    closed spec fn view(&self) -> Seq<SpecJson> {
        view_arr(self.entries@)
    }
}

impl Store {
    /// A store with no entries, as created once at process start.
    pub fn new() -> (s: Store)
        ensures
            s@ == Seq::<SpecJson>::empty(),
    {
        Store { entries: Vec::new() }
    }

    /// How many entries the store holds.
    pub fn len(&self) -> (n: usize)
        ensures
            n == self@.len(),
    {
        proof {
            lemma_view_arr(self.entries@);
        }
        self.entries.len()
    }

    /// Append one value and return its generated key. The key is
    /// `entry_{n+1}` for the pre-insertion size `n`, and differs from the
    /// key of every entry already present.
    pub fn insert(&mut self, value: JsonValue) -> (key: String)
        requires
            old(self)@.len() < u64::MAX,
        ensures
            final(self)@ == old(self)@.push(value@),
            key@ == spec_key(old(self)@.len() + 1),
            forall|i: nat| 1 <= i <= old(self)@.len() ==> spec_key(i) != key@,
    {
        proof {
            lemma_view_arr(self.entries@);
        }
        let n = self.entries.len();
        let key = make_key((n as u64) + 1);
        self.entries.push(value);
        proof {
            assert(self.entries@.drop_last() =~= old(self).entries@);
            assert(self@ == old(self)@.push(value@));
            assert forall|i: nat| 1 <= i <= old(self)@.len() implies spec_key(i) != key@ by {
                lemma_key_injective(i, (old(self)@.len() + 1) as nat);
            }
        }
        key
    }

    /// A full independent copy of the mapping: one `(key, value)` pair per
    /// entry, in insertion order, the `i`-th pair keyed `entry_{i+1}` and
    /// holding a copy of the `i`-th stored value.
    pub fn snapshot(&self) -> (r: Vec<(String, JsonValue)>)
        ensures
            r@.len() == self@.len(),
            forall|i: int| 0 <= i < r@.len() ==> (#[trigger] r@[i]).0@ == spec_key((i + 1) as nat)
                && r@[i].1@ == self@[i],
            forall|i: int, j: int| 0 <= i < j < r@.len() ==> (#[trigger] r@[i]).0@ != (
            #[trigger] r@[j]).0@,
    {
        proof {
            lemma_view_arr(self.entries@);
        }
        let mut out: Vec<(String, JsonValue)> = Vec::new();
        let n = self.entries.len();
        let mut k: usize = 0;
        while k < n
            invariant
                n == self.entries@.len(),
                k <= n,
                out@.len() == k,
                self@ == view_arr(self.entries@),
                self@.len() == n,
                forall|i: int| 0 <= i < self.entries@.len() ==> #[trigger] self@[i] == view_of(
                    self.entries@[i],
                ),
                forall|i: int| 0 <= i < k ==> (#[trigger] out@[i]).0@ == spec_key((i + 1) as nat)
                    && out@[i].1@ == self@[i],
            decreases n - k,
        {
            let key = make_key((k as u64) + 1);
            let val = self.entries[k].deep_clone();
            out.push((key, val));
            k = k + 1;
        }
        proof {
            assert forall|i: int, j: int| 0 <= i < j < out@.len() implies (#[trigger] out@[i]).0@
                != (#[trigger] out@[j]).0@ by {
                lemma_key_injective((i + 1) as nat, (j + 1) as nat);
            }
        }
        out
    }
}

/// The reply body for a successful insertion: the fixed prefix, then the
/// generated key.
pub fn store_reply(key: &str) -> (r: String)
    ensures
        r@ == "Data stored with key: "@ + key@,
{
    let mut s = String::from_str("Data stored with key: ");
    s.append(key);
    s
}

/// The keys issued by the first `n` insertions, in order.
pub open spec fn issued_keys(n: nat) -> Seq<Seq<char>> {
    Seq::new(n, |i: int| spec_key((i + 1) as nat))
}

/// Sequential insertions of `n` payloads issue the keys
/// `entry_1` … `entry_n`, each appearing exactly once.
pub proof fn lemma_issued_keys_distinct(n: nat)
    ensures
        issued_keys(n).len() == n,
        forall|i: int| 0 <= i < n ==> #[trigger] issued_keys(n)[i] == spec_key((i + 1) as nat),
        forall|i: int, j: int| 0 <= i < j < n ==> issued_keys(n)[i] != issued_keys(n)[j],
{
    assert forall|i: int, j: int| 0 <= i < j < n implies issued_keys(n)[i] != issued_keys(
        n,
    )[j] by {
        lemma_key_injective((i + 1) as nat, (j + 1) as nat);
    }
}

/// After two payloads are stored in an empty store — in whichever order the
/// lock admits them — a snapshot holds exactly two entries: the first stored
/// payload under `entry_1`, the second under `entry_2`, and the two keys
/// differ, so neither insertion overwrites the other.
pub proof fn lemma_two_entries_exact(
    v1: SpecJson,
    v2: SpecJson,
    st: Seq<SpecJson>,
    snap: Seq<(Seq<char>, SpecJson)>,
)
    requires
        st == Seq::<SpecJson>::empty().push(v1).push(v2),
        snap.len() == st.len(),
        forall|i: int| 0 <= i < snap.len() ==> (#[trigger] snap[i]).0 == spec_key((i + 1) as nat)
            && snap[i].1 == st[i],
    ensures
        snap.len() == 2,
        snap[0].0 == spec_key(1) && snap[0].1 == v1,
        snap[1].0 == spec_key(2) && snap[1].1 == v2,
        snap[0].0 != snap[1].0,
{
    lemma_key_injective(1, 2);
}

} // verus!
