//! The stored entity and the mathematical model of the store's contents.
//!
//! A store's contents are modelled as a `Seq<SpecRecord>` whose keys
//! (`number` fields) are pairwise distinct; the sequence order is the
//! store's own iteration order, which `list` pages over. The spec
//! functions here define lookup, upsert and removal by key, and the
//! lemmas state how each operation moves the model.

use vstd::prelude::*;
use crate::view::{PokemonShow, SpecRecord};

verus! {

/// The stored entity: what the store owns for each key.
pub struct PokemonEntity {
    pub name: String,
    pub nick_name: String,
    pub number: i32,
    pub category: String,
}

impl View for PokemonEntity {
    type V = SpecRecord;

    open spec fn view(&self) -> SpecRecord {
        SpecRecord {
            name: self.name@,
            nick_name: self.nick_name@,
            number: self.number as int,
            category: self.category@,
        }
    }
}

impl PokemonEntity {
    /// An independent copy of this entity in its public shape; callers
    /// never receive a reference into the store.
    pub fn to_show(&self) -> (r: PokemonShow)
        ensures
            r@ == self@,
    {
        PokemonShow {
            name: self.name.clone(),
            nick_name: self.nick_name.clone(),
            number: self.number,
            category: self.category.clone(),
        }
    }
}

/// At most one record per key: no two positions carry the same `number`.
pub open spec fn keys_distinct(s: Seq<SpecRecord>) -> bool {
    forall|i: int, j: int| 0 <= i < j < s.len() ==> s[i].number != s[j].number
}

/// Some record in `s` has key `k`.
pub open spec fn has_key(s: Seq<SpecRecord>, k: int) -> bool {
    exists|i: int| 0 <= i < s.len() && s[i].number == k
}

/// The position of the record with key `k` (meaningful only when
/// `has_key(s, k)`; unique when `keys_distinct(s)`).
pub open spec fn key_index(s: Seq<SpecRecord>, k: int) -> int {
    choose|i: int| 0 <= i < s.len() && s[i].number == k
}

/// The record stored under key `k` (meaningful only when `has_key(s, k)`).
pub open spec fn record_at(s: Seq<SpecRecord>, k: int) -> SpecRecord {
    s[key_index(s, k)]
}

/// Insert-or-replace with no existence check: replace in place when the
/// key is present, else append.
pub open spec fn spec_upsert(s: Seq<SpecRecord>, r: SpecRecord) -> Seq<SpecRecord> {
    if has_key(s, r.number) {
        s.update(key_index(s, r.number), r)
    } else {
        s.push(r)
    }
}

/// Remove the record with key `k`, if any; otherwise leave `s` unchanged.
pub open spec fn spec_remove_key(s: Seq<SpecRecord>, k: int) -> Seq<SpecRecord> {
    if has_key(s, k) {
        s.remove(key_index(s, k))
    } else {
        s
    }
}

/// The keys of `s`, in the store's order.
pub open spec fn key_seq(s: Seq<SpecRecord>) -> Seq<int> {
    s.map_values(|r: SpecRecord| r.number)
}

/// The set of distinct keys of `s`.
pub open spec fn key_set(s: Seq<SpecRecord>) -> Set<int> {
    key_seq(s).to_set()
}

/// Under distinctness, the position found for a present key is the only one.
pub proof fn lemma_key_index(s: Seq<SpecRecord>, k: int)
    requires
        keys_distinct(s),
        has_key(s, k),
    ensures
        0 <= key_index(s, k) < s.len(),
        s[key_index(s, k)].number == k,
        forall|i: int| 0 <= i < s.len() && s[i].number == k ==> i == key_index(s, k),
{
    let w = key_index(s, k);
    assert(0 <= w < s.len() && s[w].number == k);
    assert forall|i: int| 0 <= i < s.len() && s[i].number == k implies i == w by {
        if i != w {
            if i < w {
                assert(s[i].number != s[w].number);
            } else {
                assert(s[w].number != s[i].number);
            }
        }
    }
}

/// How upsert moves the model: the given record ends up stored under its
/// key, every other key keeps its record, and the length grows only when
/// the key was absent.
pub proof fn lemma_upsert(s: Seq<SpecRecord>, r: SpecRecord)
    requires
        keys_distinct(s),
    ensures
        keys_distinct(spec_upsert(s, r)),
        has_key(spec_upsert(s, r), r.number),
        record_at(spec_upsert(s, r), r.number) == r,
        spec_upsert(s, r).len() == if has_key(s, r.number) { s.len() as int } else { s.len() + 1 as int },
        forall|k: int| k != r.number ==> has_key(spec_upsert(s, r), k) == has_key(s, k),
        forall|k: int|
            k != r.number && has_key(s, k) ==> record_at(spec_upsert(s, r), k) == record_at(s, k),
{
    let s2 = spec_upsert(s, r);
    if has_key(s, r.number) {
        let w = key_index(s, r.number);
        lemma_key_index(s, r.number);
        assert(s2 == s.update(w, r));
        assert(s2[w] == r);
        assert(keys_distinct(s2)) by {
            assert forall|i: int, j: int| 0 <= i < j < s2.len() implies s2[i].number != s2[j].number
            by {
                if i != w && j != w {
                    assert(s[i].number != s[j].number);
                }
            }
        }
        lemma_key_index(s2, r.number);
        assert(key_index(s2, r.number) == w);
        assert forall|k: int| k != r.number implies has_key(s2, k) == has_key(s, k) by {
            if has_key(s, k) {
                let i = key_index(s, k);
                lemma_key_index(s, k);
                assert(i != w);
                assert(s2[i].number == k);
            }
            if has_key(s2, k) {
                let i = key_index(s2, k);
                lemma_key_index(s2, k);
                assert(i != w);
                assert(s[i].number == k);
            }
        }
        assert forall|k: int| k != r.number && has_key(s, k) implies record_at(s2, k)
            == record_at(s, k) by {
            let i = key_index(s, k);
            lemma_key_index(s, k);
            assert(i != w);
            assert(s2[i].number == k);
            lemma_key_index(s2, k);
            assert(key_index(s2, k) == i);
        }
    } else {
        let n = s.len() as int;
        assert(s2 == s.push(r));
        assert(s2[n] == r);
        assert forall|i: int| 0 <= i < n implies s[i].number != r.number by {
            assert(!(exists|j: int| 0 <= j < s.len() && s[j].number == r.number));
        }
        assert(keys_distinct(s2)) by {
            assert forall|i: int, j: int| 0 <= i < j < s2.len() implies s2[i].number != s2[j].number
            by {
                if j < n {
                    assert(s[i].number != s[j].number);
                } else {
                    assert(s2[i] == s[i]);
                }
            }
        }
        lemma_key_index(s2, r.number);
        assert(key_index(s2, r.number) == n);
        assert forall|k: int| k != r.number implies has_key(s2, k) == has_key(s, k) by {
            if has_key(s, k) {
                let i = key_index(s, k);
                lemma_key_index(s, k);
                assert(s2[i].number == k);
            }
            if has_key(s2, k) {
                let i = key_index(s2, k);
                lemma_key_index(s2, k);
                assert(i != n);
                assert(s[i].number == k);
            }
        }
        assert forall|k: int| k != r.number && has_key(s, k) implies record_at(s2, k)
            == record_at(s, k) by {
            let i = key_index(s, k);
            lemma_key_index(s, k);
            assert(s2[i].number == k);
            lemma_key_index(s2, k);
            assert(key_index(s2, k) == i);
        }
    }
}

/// How removal by key moves the model: the key is gone, every other key
/// keeps its record, and the length shrinks only when the key was present.
pub proof fn lemma_remove_key(s: Seq<SpecRecord>, k: int)
    requires
        keys_distinct(s),
    ensures
        keys_distinct(spec_remove_key(s, k)),
        !has_key(spec_remove_key(s, k), k),
        spec_remove_key(s, k).len() == if has_key(s, k) { s.len() - 1 } else { s.len() as int },
        forall|k2: int| k2 != k ==> has_key(spec_remove_key(s, k), k2) == has_key(s, k2),
        forall|k2: int|
            k2 != k && has_key(s, k2) ==> record_at(spec_remove_key(s, k), k2) == record_at(s, k2),
{
    let s2 = spec_remove_key(s, k);
    if has_key(s, k) {
        let w = key_index(s, k);
        lemma_key_index(s, k);
        assert(s2 == s.remove(w));
        // Positions below w are unchanged; positions at or above w shift down by one.
        assert(forall|i: int| 0 <= i < w ==> s2[i] == s[i]);
        assert(forall|i: int| w <= i < s2.len() ==> s2[i] == s[i + 1]);
        assert(keys_distinct(s2)) by {
            assert forall|i: int, j: int| 0 <= i < j < s2.len() implies s2[i].number != s2[j].number
            by {
                let i0 = if i < w { i } else { i + 1 };
                let j0 = if j < w { j } else { j + 1 };
                assert(s2[i] == s[i0]);
                assert(s2[j] == s[j0]);
                assert(s[i0].number != s[j0].number);
            }
        }
        assert(!has_key(s2, k)) by {
            if has_key(s2, k) {
                let i = key_index(s2, k);
                assert(0 <= i < s2.len() && s2[i].number == k);
                let i0 = if i < w { i } else { i + 1 };
                assert(s[i0].number == k);
                lemma_key_index(s, k);
                assert(i0 == w);
                assert(false);
            }
        }
        assert forall|k2: int| k2 != k implies has_key(s2, k2) == has_key(s, k2) by {
            if has_key(s, k2) {
                let i = key_index(s, k2);
                lemma_key_index(s, k2);
                assert(i != w);
                if i < w {
                    assert(s2[i].number == k2);
                } else {
                    assert(s2[i - 1] == s[i]);
                    assert(s2[i - 1].number == k2);
                }
            }
            if has_key(s2, k2) {
                let i = key_index(s2, k2);
                lemma_key_index(s2, k2);
                let i0 = if i < w { i } else { i + 1 };
                assert(s[i0].number == k2);
            }
        }
        assert forall|k2: int| k2 != k && has_key(s, k2) implies record_at(s2, k2)
            == record_at(s, k2) by {
            let i = key_index(s, k2);
            lemma_key_index(s, k2);
            assert(i != w);
            let i2 = if i < w { i } else { i - 1 };
            assert(s2[i2] == s[i]);
            assert(s2[i2].number == k2);
            lemma_key_index(s2, k2);
            assert(key_index(s2, k2) == i2);
        }
    }
}

/// Under distinctness the store's length is exactly the number of distinct
/// keys it holds.
pub proof fn lemma_len_is_distinct_key_count(s: Seq<SpecRecord>)
    requires
        keys_distinct(s),
    ensures
        key_set(s).finite(),
        key_set(s).len() == s.len(),
{
    let ks = key_seq(s);
    assert(ks.no_duplicates()) by {
        assert forall|i: int, j: int|
            0 <= i < ks.len() && 0 <= j < ks.len() && i != j implies ks[i] != ks[j] by {
            if i < j {
                assert(s[i].number != s[j].number);
            } else {
                assert(s[j].number != s[i].number);
            }
        }
    }
    ks.unique_seq_to_set();
}

} // verus!
