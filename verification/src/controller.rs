//! The record store and the five operations a request handler calls:
//! list (paginated), create (upsert), read, update (partial merge with
//! re-keying), and delete.
//!
//! The store's contents are the sequence `self@` of record values; the
//! well-formedness invariant `wf` says that keys are pairwise distinct.
//! Every operation returns independent copies, never references into the
//! store, and says in its contract exactly how it moves `self@`.

use vstd::prelude::*;
use vstd::string::StringExecFns;
use crate::model::{
    has_key, key_index, keys_distinct, lemma_key_index, lemma_remove_key, lemma_upsert, record_at,
    spec_remove_key, spec_upsert, PokemonEntity,
};
use crate::view::{
    spec_merge, CreatePokemon, FilterOptions, PokemonList, PokemonShow, SpecRecord, UpdatePokemon,
};

verus! {

/// The store's failure: the requested key holds no record.
#[derive(Clone, Copy, Debug, PartialEq, Eq)]
pub enum StoreError {
    NotFound,
}

/// The in-memory record store, keyed by the records' `number` fields.
pub struct PokemonStore {
    records: Vec<PokemonEntity>,
}

impl View for PokemonStore {
    type V = Seq<SpecRecord>;

    closed spec fn view(&self) -> Seq<SpecRecord> {
        self.records@.map_values(|e: PokemonEntity| e@)
    }
}

/// The number of records a page shows: up to `limit` records of the
/// collection, after skipping the first `offset`.
pub open spec fn page_len(total: int, offset: int, limit: int) -> int {
    if offset >= total {
        0
    } else if total - offset < limit {
        total - offset
    } else {
        limit
    }
}

impl PokemonStore {
    /// At most one record per key.
    pub open spec fn wf(&self) -> bool {
        keys_distinct(self@)
    }

    /// An empty store.
    pub fn new() -> (s: Self)
        ensures
            s.wf(),
            s@ == Seq::<SpecRecord>::empty(),
    {
        let s = PokemonStore { records: Vec::new() };
        proof {
            assert(s@ =~= Seq::<SpecRecord>::empty());
        }
        s
    }

    /// The store as the process starts it: two illustrative records,
    /// Bulbasaur at key 1 and Blastoise at key 9.
    pub fn seeded() -> (s: Self)
        ensures
            s.wf(),
            s@.len() == 2,
            s@[0] == (SpecRecord {
                name: "Bulbasaur"@,
                nick_name: "Hasso"@,
                number: 1,
                category: "Grass"@,
            }),
            s@[1] == (SpecRecord {
                name: "Blastoise"@,
                nick_name: "Blaster"@,
                number: 9,
                category: "Water"@,
            }),
    {
        let mut records: Vec<PokemonEntity> = Vec::new();
        records.push(PokemonEntity {
            name: String::from_str("Bulbasaur"),
            nick_name: String::from_str("Hasso"),
            number: 1,
            category: String::from_str("Grass"),
        });
        records.push(PokemonEntity {
            name: String::from_str("Blastoise"),
            nick_name: String::from_str("Blaster"),
            number: 9,
            category: String::from_str("Water"),
        });
        let s = PokemonStore { records };
        proof {
            assert(s@.len() == 2);
            assert(s.wf()) by {
                assert(s@[0].number == 1);
                assert(s@[1].number == 9);
            }
        }
        s
    }

    /// The position of the record with the given key, if any.
    fn find_index(&self, key: i32) -> (r: Option<usize>)
        requires
            self.wf(),
        ensures
            match r {
                Some(i) => has_key(self@, key as int) && i as int == key_index(self@, key as int),
                None => !has_key(self@, key as int),
            },
    {
        let n = self.records.len();
        let mut i: usize = 0;
        while i < n
            invariant
                self.wf(),
                n == self@.len(),
                i <= n,
                forall|j: int| 0 <= j < i ==> self@[j].number != key as int,
            decreases n - i,
        {
            if self.records[i].number == key {
                proof {
                    assert(self@[i as int].number == key as int);
                    lemma_key_index(self@, key as int);
                }
                return Some(i);
            }
            i += 1;
        }
        None
    }

    /// Insert-or-replace: store the entity under its key, silently
    /// overwriting any record that key already held.
    fn upsert(&mut self, e: PokemonEntity)
        requires
            old(self).wf(),
        ensures
            final(self).wf(),
            final(self)@ == spec_upsert(old(self)@, e@),
    {
        let ghost s0 = self@;
        let ghost ev = e@;
        let key = e.number;
        match self.find_index(key) {
            Some(i) => {
                self.records[i] = e;
                proof {
                    assert(self@ =~= s0.update(i as int, ev));
                    lemma_upsert(s0, ev);
                }
            },
            None => {
                self.records.push(e);
                proof {
                    assert(self@ =~= s0.push(ev));
                    lemma_upsert(s0, ev);
                }
            },
        }
    }
}

/// The request-level operations; each handler translates an HTTP request
/// into exactly one of these calls on the shared store.
pub struct PokemonController;

impl PokemonController {
    /// One page of the collection, with the full count captured together
    /// with the page: `total` and the slice are mutually consistent.
    ///
    /// The page number and limit default to 1 and 10; the offset is
    /// `(page - 1) * limit`, and an offset at or past the end yields an
    /// empty page with `total` still the full count.
    pub fn list(store: &PokemonStore, opts: FilterOptions) -> (r: PokemonList)
        requires
            store.wf(),
            opts.page is Some ==> opts.spec_page() >= 1,
            (opts.spec_page() - 1) * opts.spec_limit() <= usize::MAX as int,
        ensures
            r.total as int == store@.len(),
            r.limit as int == opts.spec_limit(),
            r.offset as int == (opts.spec_page() - 1) * opts.spec_limit(),
            r.pokemons@.len() == page_len(store@.len() as int, r.offset as int, r.limit as int),
            forall|j: int|
                0 <= j < r.pokemons@.len() ==> r.pokemons@[j]@ == store@[r.offset + j],
    {
        let limit: usize = match opts.limit {
            Some(l) => l,
            None => 10,
        };
        let page: usize = match opts.page {
            Some(p) => p,
            None => 1,
        };
        let offset: usize = (page - 1) * limit;
        let total: usize = store.records.len();

        let mut pokemons: Vec<PokemonShow> = Vec::new();
        let mut i: usize = offset;
        while i < total && pokemons.len() < limit
            invariant
                total == store@.len(),
                offset <= i,
                i <= total || i == offset,
                pokemons@.len() == i - offset,
                pokemons@.len() <= limit,
                forall|j: int| 0 <= j < pokemons@.len() ==> pokemons@[j]@ == store@[offset + j],
            decreases total - i,
        {
            let show = store.records[i].to_show();
            pokemons.push(show);
            i += 1;
        }
        PokemonList { total, limit, offset, pokemons }
    }

    /// Unconditional upsert of a fully specified record; echoes back what
    /// was stored. No failure path.
    pub fn create(store: &mut PokemonStore, payload: CreatePokemon) -> (r: PokemonShow)
        requires
            old(store).wf(),
        ensures
            final(store).wf(),
            final(store)@ == spec_upsert(old(store)@, payload@),
            r@ == payload@,
    {
        let entity = PokemonEntity {
            name: payload.name,
            nick_name: payload.nick_name,
            number: payload.number,
            category: payload.category,
        };
        let show = entity.to_show();
        store.upsert(entity);
        show
    }

    /// A copy of the record stored under `id`, or `NotFound`.
    pub fn read(store: &PokemonStore, id: i32) -> (r: Result<PokemonShow, StoreError>)
        requires
            store.wf(),
        ensures
            match r {
                Ok(show) => has_key(store@, id as int) && show@ == record_at(store@, id as int),
                Err(e) => !has_key(store@, id as int) && e == StoreError::NotFound,
            },
    {
        match store.find_index(id) {
            Some(i) => Ok(store.records[i].to_show()),
            None => Err(StoreError::NotFound),
        }
    }

    /// Field-level partial merge into the record stored under `id`, or
    /// `NotFound` when that key holds none.
    ///
    /// The merged record is stored under its own (possibly new) key: the
    /// old entry is removed first, then the merged record is inserted
    /// unconditionally, so an update that changes the key silently
    /// overwrites any other record already at the new key.
    pub fn update(store: &mut PokemonStore, id: i32, payload: UpdatePokemon) -> (r: Result<
        PokemonShow,
        StoreError,
    >)
        requires
            old(store).wf(),
        ensures
            final(store).wf(),
            match r {
                Ok(show) => {
                    &&& has_key(old(store)@, id as int)
                    &&& show@ == spec_merge(record_at(old(store)@, id as int), payload@)
                    &&& final(store)@ == spec_upsert(
                        spec_remove_key(old(store)@, id as int),
                        spec_merge(record_at(old(store)@, id as int), payload@),
                    )
                },
                Err(e) => {
                    &&& !has_key(old(store)@, id as int)
                    &&& e == StoreError::NotFound
                    &&& final(store)@ == old(store)@
                },
            },
    {
        let ghost s0 = store@;
        match store.find_index(id) {
            Some(i) => {
                let merged = PokemonEntity {
                    name: match payload.name {
                        Some(v) => v,
                        None => store.records[i].name.clone(),
                    },
                    nick_name: match payload.nick_name {
                        Some(v) => v,
                        None => store.records[i].nick_name.clone(),
                    },
                    number: match payload.number {
                        Some(v) => v,
                        None => store.records[i].number,
                    },
                    category: match payload.category {
                        Some(v) => v,
                        None => store.records[i].category.clone(),
                    },
                };
                proof {
                    lemma_key_index(s0, id as int);
                    assert(merged@ == spec_merge(record_at(s0, id as int), payload@));
                }
                let show = merged.to_show();
                store.records.remove(i);
                proof {
                    assert(store@ =~= s0.remove(i as int));
                    assert(store@ == spec_remove_key(s0, id as int));
                    lemma_remove_key(s0, id as int);
                }
                store.upsert(merged);
                Ok(show)
            },
            None => Err(StoreError::NotFound),
        }
    }

    /// Remove the record stored under `id`, or `NotFound`; a second delete
    /// of the same key reports `NotFound` by design.
    pub fn delete(store: &mut PokemonStore, id: i32) -> (r: Result<(), StoreError>)
        requires
            old(store).wf(),
        ensures
            final(store).wf(),
            match r {
                Ok(_) => has_key(old(store)@, id as int) && final(store)@ == spec_remove_key(
                    old(store)@,
                    id as int,
                ),
                Err(e) => {
                    &&& !has_key(old(store)@, id as int)
                    &&& e == StoreError::NotFound
                    &&& final(store)@ == old(store)@
                },
            },
    {
        let ghost s0 = store@;
        match store.find_index(id) {
            Some(i) => {
                store.records.remove(i);
                proof {
                    assert(store@ =~= s0.remove(i as int));
                    assert(store@ == spec_remove_key(s0, id as int));
                    lemma_remove_key(s0, id as int);
                }
                Ok(())
            },
            None => Err(StoreError::NotFound),
        }
    }
}

} // verus!
