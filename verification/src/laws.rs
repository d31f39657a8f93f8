//! Laws of the store, stated over the same model that the operations'
//! contracts use and proved once and for all.

use vstd::prelude::*;
use crate::model::{
    has_key, key_set, keys_distinct, lemma_key_index, lemma_len_is_distinct_key_count,
    lemma_remove_key, lemma_upsert, record_at, spec_remove_key, spec_upsert,
};
use crate::view::{spec_merge, SpecRecord, SpecUpdate};

verus! {

/// Pagination counts distinct keys: in a well-formed store the full count
/// that `list` reports as `total` — the store's length — equals the number
/// of distinct keys currently stored. (That the page itself holds
/// `min(limit, max(0, total - offset))` records is stated directly by
/// `list`'s contract, via `page_len`.)
pub proof fn law_total_counts_distinct_keys(s: Seq<SpecRecord>)
    requires
        keys_distinct(s),
    ensures
        key_set(s).finite(),
        key_set(s).len() == s.len(),
{
    lemma_len_is_distinct_key_count(s);
}

/// Upsert idempotence on unchanged input: creating the same record twice
/// leaves the store exactly as one create leaves it — well-formed (so at
/// most one record per key), with the record stored under its key equal to
/// the payload.
pub proof fn law_create_idempotent(s: Seq<SpecRecord>, r: SpecRecord)
    requires
        keys_distinct(s),
    ensures
        spec_upsert(spec_upsert(s, r), r) == spec_upsert(s, r),
        keys_distinct(spec_upsert(s, r)),
        has_key(spec_upsert(s, r), r.number),
        record_at(spec_upsert(s, r), r.number) == r,
{
    let s1 = spec_upsert(s, r);
    lemma_upsert(s, r);
    lemma_upsert(s1, r);
    lemma_key_index(s1, r.number);
    assert(spec_upsert(s1, r) =~= s1);
}

/// Update is a true partial merge: an update payload that sets only `name`
/// produces the stored record with only `name` replaced, the store keeps
/// it under the unchanged key, and a read after the update returns exactly
/// that record.
pub proof fn law_update_merges_name_only(s: Seq<SpecRecord>, k: int, nm: Seq<char>)
    requires
        keys_distinct(s),
        has_key(s, k),
    ensures
        ({
            let u = SpecUpdate { name: Some(nm), nick_name: None, number: None, category: None };
            let r0 = record_at(s, k);
            let m = spec_merge(r0, u);
            let s2 = spec_upsert(spec_remove_key(s, k), m);
            &&& m == (SpecRecord {
                name: nm,
                nick_name: r0.nick_name,
                number: r0.number,
                category: r0.category,
            })
            &&& keys_distinct(s2)
            &&& has_key(s2, k)
            &&& record_at(s2, k) == m
        }),
{
    let u = SpecUpdate { name: Some(nm), nick_name: None, number: None, category: None };
    let r0 = record_at(s, k);
    let m = spec_merge(r0, u);
    lemma_key_index(s, k);
    assert(m.number == k);
    lemma_remove_key(s, k);
    lemma_upsert(spec_remove_key(s, k), m);
}

/// Re-key overwrite: an update that moves a record from key `k` onto an
/// occupied key `k2` leaves nothing under `k`, the merged record under
/// `k2` (the record previously there is gone), and one record fewer in
/// the store — the deliberate policy of remove-then-unconditional-insert.
pub proof fn law_rekey_overwrites(s: Seq<SpecRecord>, k: int, u: SpecUpdate)
    requires
        keys_distinct(s),
        has_key(s, k),
        spec_merge(record_at(s, k), u).number != k,
        has_key(s, spec_merge(record_at(s, k), u).number),
    ensures
        ({
            let m = spec_merge(record_at(s, k), u);
            let s2 = spec_upsert(spec_remove_key(s, k), m);
            &&& keys_distinct(s2)
            &&& !has_key(s2, k)
            &&& has_key(s2, m.number)
            &&& record_at(s2, m.number) == m
            &&& s2.len() == s.len() - 1
        }),
{
    let m = spec_merge(record_at(s, k), u);
    let s1 = spec_remove_key(s, k);
    lemma_remove_key(s, k);
    lemma_upsert(s1, m);
}

/// Delete then re-read: removing a present key leaves a store in which
/// that key is absent — so a subsequent read reports `NotFound`, and a
/// second delete of the same key reports `NotFound` and changes nothing.
pub proof fn law_delete_then_gone(s: Seq<SpecRecord>, k: int)
    requires
        keys_distinct(s),
        has_key(s, k),
    ensures
        keys_distinct(spec_remove_key(s, k)),
        !has_key(spec_remove_key(s, k), k),
        spec_remove_key(spec_remove_key(s, k), k) == spec_remove_key(s, k),
        spec_remove_key(s, k).len() == s.len() - 1,
{
    lemma_remove_key(s, k);
}

} // verus!
