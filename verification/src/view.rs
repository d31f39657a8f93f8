//! Wire-facing shapes of the service and their mathematical views.
//!
//! Every value that crosses the service boundary is one of these plain
//! structs; the contracts of the store operations speak of the ghost
//! counterparts `SpecRecord` and `SpecUpdate`.

use vstd::prelude::*;

verus! {

/// Mathematical value of a stored record: the four fields of a pokemon,
/// with the key (`number`) as an unbounded integer.
pub ghost struct SpecRecord {
    pub name: Seq<char>,
    pub nick_name: Seq<char>,
    pub number: int,
    pub category: Seq<char>,
}

/// Mathematical value of a partial update: each field is independently
/// either `Some` (set to a new value) or `None` (leave unchanged).
pub ghost struct SpecUpdate {
    pub name: Option<Seq<char>>,
    pub nick_name: Option<Seq<char>>,
    pub number: Option<int>,
    pub category: Option<Seq<char>>,
}

/// The record produced by merging a partial update into an existing record:
/// field by field, the caller-supplied value if present, else the old one.
pub open spec fn spec_merge(r: SpecRecord, u: SpecUpdate) -> SpecRecord {
    SpecRecord {
        name: match u.name {
            Some(v) => v,
            None => r.name,
        },
        nick_name: match u.nick_name {
            Some(v) => v,
            None => r.nick_name,
        },
        number: match u.number {
            Some(v) => v,
            None => r.number,
        },
        category: match u.category {
            Some(v) => v,
            None => r.category,
        },
    }
}

/// Pagination query parameters; a missing field takes its default
/// (page 1, limit 10).
#[derive(Clone, Copy)]
pub struct FilterOptions {
    pub page: Option<usize>,
    pub limit: Option<usize>,
}

impl FilterOptions {
    /// The effective page number: 1 when absent.
    pub open spec fn spec_page(&self) -> int {
        match self.page {
            Some(p) => p as int,
            None => 1,
        }
    }

    /// The effective page size: 10 when absent.
    pub open spec fn spec_limit(&self) -> int {
        match self.limit {
            Some(l) => l as int,
            None => 10,
        }
    }
}

impl Default for FilterOptions {
    /// Both parameters absent, so that the defaults apply.
    fn default() -> (r: Self)
        ensures
            r.page is None,
            r.limit is None,
    {
        FilterOptions { page: None, limit: None }
    }
}

/// Creation payload: a fully specified record, keyed by `number`.
pub struct CreatePokemon {
    pub name: String,
    pub nick_name: String,
    pub number: i32,
    pub category: String,
}

impl View for CreatePokemon {
    type V = SpecRecord;

    open spec fn view(&self) -> SpecRecord {
        SpecRecord {
            name: self.name@,
            nick_name: self.nick_name@,
            number: self.number as int,
            category: self.category@,
        }
    }
}

/// Update payload: each field independently present-or-absent.
pub struct UpdatePokemon {
    pub name: Option<String>,
    pub nick_name: Option<String>,
    pub number: Option<i32>,
    pub category: Option<String>,
}

impl View for UpdatePokemon {
    type V = SpecUpdate;

    open spec fn view(&self) -> SpecUpdate {
        SpecUpdate {
            name: match self.name {
                Some(v) => Some(v@),
                None => None,
            },
            nick_name: match self.nick_name {
                Some(v) => Some(v@),
                None => None,
            },
            number: match self.number {
                Some(v) => Some(v as int),
                None => None,
            },
            category: match self.category {
                Some(v) => Some(v@),
                None => None,
            },
        }
    }
}

impl Default for UpdatePokemon {
    /// All fields absent: the update that changes nothing.
    fn default() -> (r: Self)
        ensures
            r@ == (SpecUpdate { name: None, nick_name: None, number: None, category: None }),
    {
        UpdatePokemon { name: None, nick_name: None, number: None, category: None }
    }
}

/// Public shape of a record, as returned to callers: an independent copy,
/// never a reference into the store.
#[derive(Debug, PartialEq, Eq)]
pub struct PokemonShow {
    pub name: String,
    pub nick_name: String,
    pub number: i32,
    pub category: String,
}

impl View for PokemonShow {
    type V = SpecRecord;

    open spec fn view(&self) -> SpecRecord {
        SpecRecord {
            name: self.name@,
            nick_name: self.nick_name@,
            number: self.number as int,
            category: self.category@,
        }
    }
}

/// One page of records, together with the pagination bookkeeping that was
/// computed under the same lock as the page itself.
#[derive(Debug)]
pub struct PokemonList {
    pub total: usize,
    pub limit: usize,
    pub offset: usize,
    pub pokemons: Vec<PokemonShow>,
}

} // verus!
