use pokedex::controller::{PokemonController, PokemonStore, StoreError};
use pokedex::view::{CreatePokemon, FilterOptions, PokemonShow, UpdatePokemon};

fn payload(name: &str, nick_name: &str, number: i32, category: &str) -> CreatePokemon {
    CreatePokemon {
        name: name.to_string(),
        nick_name: nick_name.to_string(),
        number,
        category: category.to_string(),
    }
}

fn show(name: &str, nick_name: &str, number: i32, category: &str) -> PokemonShow {
    PokemonShow {
        name: name.to_string(),
        nick_name: nick_name.to_string(),
        number,
        category: category.to_string(),
    }
}

fn no_change() -> UpdatePokemon {
    UpdatePokemon::default()
}

fn opts(page: Option<usize>, limit: Option<usize>) -> FilterOptions {
    FilterOptions { page, limit }
}

#[test]
fn list_empty_store() {
    let store = PokemonStore::new();
    let r = PokemonController::list(&store, opts(None, None));
    assert_eq!(r.total, 0);
    assert_eq!(r.limit, 10);
    assert_eq!(r.offset, 0);
    assert!(r.pokemons.is_empty());
}

#[test]
fn list_counts_and_slices_consistently() {
    let mut store = PokemonStore::new();
    for n in 1..=5 {
        PokemonController::create(&mut store, payload("Mon", "Nick", n, "Kind"));
    }
    // total is the number of distinct keys; item count is min(limit, max(0, total - offset)).
    let r = PokemonController::list(&store, opts(Some(1), Some(2)));
    assert_eq!(r.total, 5);
    assert_eq!(r.limit, 2);
    assert_eq!(r.offset, 0);
    assert_eq!(r.pokemons.len(), 2);

    let r = PokemonController::list(&store, opts(Some(3), Some(2)));
    assert_eq!(r.total, 5);
    assert_eq!(r.offset, 4);
    assert_eq!(r.pokemons.len(), 1);

    let r = PokemonController::list(&store, opts(Some(4), Some(2)));
    assert_eq!(r.total, 5);
    assert_eq!(r.offset, 6);
    assert_eq!(r.pokemons.len(), 0);
}

#[test]
fn list_limit_zero_yields_empty_page() {
    let mut store = PokemonStore::new();
    PokemonController::create(&mut store, payload("Mon", "Nick", 1, "Kind"));
    let r = PokemonController::list(&store, opts(Some(1), Some(0)));
    assert_eq!(r.total, 1);
    assert_eq!(r.limit, 0);
    assert_eq!(r.offset, 0);
    assert!(r.pokemons.is_empty());
}

#[test]
fn create_echoes_what_was_stored() {
    let mut store = PokemonStore::new();
    let shown = PokemonController::create(&mut store, payload("Pikachu", "Pika", 25, "Electric"));
    assert_eq!(shown, show("Pikachu", "Pika", 25, "Electric"));
    let got = PokemonController::read(&store, 25);
    assert_eq!(got, Ok(show("Pikachu", "Pika", 25, "Electric")));
}

#[test]
fn create_twice_same_payload_keeps_one_record() {
    let mut store = PokemonStore::new();
    PokemonController::create(&mut store, payload("Pikachu", "Pika", 25, "Electric"));
    PokemonController::create(&mut store, payload("Pikachu", "Pika", 25, "Electric"));
    let r = PokemonController::list(&store, opts(None, None));
    assert_eq!(r.total, 1);
    assert_eq!(r.pokemons.len(), 1);
    let got = PokemonController::read(&store, 25);
    assert_eq!(got, Ok(show("Pikachu", "Pika", 25, "Electric")));
}

#[test]
fn create_overwrites_existing_key_silently() {
    let mut store = PokemonStore::new();
    PokemonController::create(&mut store, payload("Pikachu", "Pika", 25, "Electric"));
    PokemonController::create(&mut store, payload("Raichu", "Rai", 25, "Electric"));
    let r = PokemonController::list(&store, opts(None, None));
    assert_eq!(r.total, 1);
    let got = PokemonController::read(&store, 25);
    assert_eq!(got, Ok(show("Raichu", "Rai", 25, "Electric")));
}

#[test]
fn read_missing_key_is_not_found() {
    let store = PokemonStore::new();
    assert_eq!(PokemonController::read(&store, 7), Err(StoreError::NotFound));
}

#[test]
fn update_merges_only_supplied_fields() {
    let mut store = PokemonStore::new();
    PokemonController::create(&mut store, payload("Pikachu", "Pika", 25, "Electric"));
    let mut upd = no_change();
    upd.name = Some("Raichu".to_string());
    let merged = PokemonController::update(&mut store, 25, upd);
    // Only `name` is replaced; read after update returns that exact result.
    assert_eq!(merged, Ok(show("Raichu", "Pika", 25, "Electric")));
    let got = PokemonController::read(&store, 25);
    assert_eq!(got, Ok(show("Raichu", "Pika", 25, "Electric")));
}

#[test]
fn update_with_empty_payload_changes_nothing() {
    let mut store = PokemonStore::new();
    PokemonController::create(&mut store, payload("Pikachu", "Pika", 25, "Electric"));
    let merged = PokemonController::update(&mut store, 25, no_change());
    assert_eq!(merged, Ok(show("Pikachu", "Pika", 25, "Electric")));
    let r = PokemonController::list(&store, opts(None, None));
    assert_eq!(r.total, 1);
}

#[test]
fn update_with_all_fields_replaces_record() {
    let mut store = PokemonStore::new();
    PokemonController::create(&mut store, payload("Pikachu", "Pika", 25, "Electric"));
    let upd = UpdatePokemon {
        name: Some("Eevee".to_string()),
        nick_name: Some("Vee".to_string()),
        number: Some(133),
        category: Some("Normal".to_string()),
    };
    let merged = PokemonController::update(&mut store, 25, upd);
    assert_eq!(merged, Ok(show("Eevee", "Vee", 133, "Normal")));
    assert_eq!(PokemonController::read(&store, 25), Err(StoreError::NotFound));
    assert_eq!(PokemonController::read(&store, 133), Ok(show("Eevee", "Vee", 133, "Normal")));
}

#[test]
fn update_missing_key_is_not_found() {
    let mut store = PokemonStore::new();
    let mut upd = no_change();
    upd.name = Some("Ghost".to_string());
    assert_eq!(PokemonController::update(&mut store, 404, upd), Err(StoreError::NotFound));
    let r = PokemonController::list(&store, opts(None, None));
    assert_eq!(r.total, 0);
}

#[test]
fn rekey_update_overwrites_other_record() {
    // Records at keys 1 and 2; updating key 1's record to number 2 removes
    // key 1 and replaces the record that was at key 2.
    let mut store = PokemonStore::new();
    PokemonController::create(&mut store, payload("First", "One", 1, "KindA"));
    PokemonController::create(&mut store, payload("Second", "Two", 2, "KindB"));
    let mut upd = no_change();
    upd.number = Some(2);
    let merged = PokemonController::update(&mut store, 1, upd);
    assert_eq!(merged, Ok(show("First", "One", 2, "KindA")));
    assert_eq!(PokemonController::read(&store, 1), Err(StoreError::NotFound));
    assert_eq!(PokemonController::read(&store, 2), Ok(show("First", "One", 2, "KindA")));
    let r = PokemonController::list(&store, opts(None, None));
    assert_eq!(r.total, 1);
}

#[test]
fn delete_then_reread_both_not_found() {
    let mut store = PokemonStore::new();
    PokemonController::create(&mut store, payload("Pikachu", "Pika", 25, "Electric"));
    assert_eq!(PokemonController::delete(&mut store, 25), Ok(()));
    assert_eq!(PokemonController::read(&store, 25), Err(StoreError::NotFound));
    assert_eq!(PokemonController::delete(&mut store, 25), Err(StoreError::NotFound));
}

#[test]
fn delete_missing_key_is_not_found() {
    let mut store = PokemonStore::new();
    assert_eq!(PokemonController::delete(&mut store, 7), Err(StoreError::NotFound));
}

#[test]
fn end_to_end_seeded_scenario() {
    // Seeded with {1: Bulbasaur/Grass} and {9: Blastoise/Water}.
    let mut store = PokemonStore::seeded();

    let r = PokemonController::list(&store, opts(Some(1), Some(10)));
    assert_eq!(r.total, 2);
    assert_eq!(r.limit, 10);
    assert_eq!(r.offset, 0);
    assert_eq!(r.pokemons.len(), 2);
    assert_eq!(r.pokemons[0], show("Bulbasaur", "Hasso", 1, "Grass"));
    assert_eq!(r.pokemons[1], show("Blastoise", "Blaster", 9, "Water"));

    assert_eq!(PokemonController::delete(&mut store, 9), Ok(()));
    assert_eq!(PokemonController::read(&store, 9), Err(StoreError::NotFound));

    let r = PokemonController::list(&store, opts(Some(1), Some(10)));
    assert_eq!(r.total, 1);
    assert_eq!(r.pokemons.len(), 1);
    assert_eq!(r.pokemons[0], show("Bulbasaur", "Hasso", 1, "Grass"));
}
