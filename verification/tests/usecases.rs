use arino::database::insert::{dish, ingredient, price, recipe};
use arino::database::modify;
use arino::database::schema::{Ingredient, Price, RecipeLine, StoreError};
use arino::database::store::Store;

fn pantry() -> Store {
    let mut store = Store::new();
    for name in ["vegetable", "fruit", "dairy", "meat", "condiment", "grain"] {
        store.add_category(name).unwrap();
    }
    store
}

#[test]
fn ingredient_is_inserted_under_the_named_category() {
    let mut store = pantry();
    assert_eq!(ingredient(&mut store, "flour", "grain", "6mo"), Ok(Some(1)));
    assert_eq!(
        store.ingredient_by_name("flour"),
        Ok(&Ingredient {
            id: 1,
            category_id: 6,
            name: "flour".to_string(),
            lifespan: "6mo".to_string()
        })
    );
}

#[test]
fn ingredient_with_an_empty_answer_writes_nothing() {
    let mut store = pantry();
    let before = store.clone();
    assert_eq!(ingredient(&mut store, "", "grain", "6mo"), Ok(None));
    assert_eq!(ingredient(&mut store, "flour", "", "6mo"), Ok(None));
    assert_eq!(ingredient(&mut store, "flour", "grain", ""), Ok(None));
    assert_eq!(ingredient(&mut store, "", "no such category", ""), Ok(None));
    assert_eq!(store, before);
}

#[test]
fn ingredient_of_an_unknown_category_is_refused() {
    let mut store = pantry();
    let before = store.clone();
    assert_eq!(ingredient(&mut store, "cod", "fish", "2d"), Err(StoreError::NotFound));
    assert_eq!(store, before);
}

#[test]
fn ingredient_twice_is_a_conflict() {
    let mut store = pantry();
    assert_eq!(ingredient(&mut store, "flour", "grain", "6mo"), Ok(Some(1)));
    assert_eq!(ingredient(&mut store, "flour", "fruit", "1y"), Err(StoreError::Conflict));
    assert_eq!(store.ingredients().len(), 1);
}

#[test]
fn price_is_appended_to_the_named_ingredient() {
    let mut store = pantry();
    ingredient(&mut store, "flour", "grain", "6mo").unwrap();
    assert_eq!(price(&mut store, "flour", Some(1.5f32.to_bits())), Ok(Some(1)));
    assert_eq!(price(&mut store, "flour", Some(2.5f32.to_bits())), Ok(Some(2)));
    assert_eq!(
        store.prices(),
        &vec![
            Price { id: 1, ingredient_id: 1, amount: 1.5f32.to_bits() },
            Price { id: 2, ingredient_id: 1, amount: 2.5f32.to_bits() }
        ]
    );
}

#[test]
fn price_without_a_name_or_an_amount_writes_nothing() {
    let mut store = pantry();
    ingredient(&mut store, "flour", "grain", "6mo").unwrap();
    let before = store.clone();
    assert_eq!(price(&mut store, "", Some(7)), Ok(None));
    assert_eq!(price(&mut store, "flour", None), Ok(None));
    assert_eq!(price(&mut store, "salt", None), Ok(None));
    assert_eq!(store, before);
}

#[test]
fn price_of_an_unknown_ingredient_is_refused() {
    let mut store = pantry();
    assert_eq!(price(&mut store, "salt", Some(7)), Err(StoreError::NotFound));
    assert!(store.prices().is_empty());
}

#[test]
fn dish_is_inserted_once() {
    let mut store = pantry();
    assert_eq!(dish(&mut store, "pancake"), Ok(Some(1)));
    assert_eq!(dish(&mut store, "pancake"), Err(StoreError::Conflict));
    assert_eq!(dish(&mut store, ""), Ok(None));
    assert_eq!(store.dishes().len(), 1);
    assert_eq!(store.dish_by_name("pancake").unwrap().id, 1);
}

fn lines(list: &[(&str, u32)]) -> Vec<(String, u32)> {
    list.iter().map(|(n, q)| (n.to_string(), *q)).collect()
}

fn kitchen() -> Store {
    let mut store = pantry();
    ingredient(&mut store, "flour", "grain", "6mo").unwrap();
    ingredient(&mut store, "egg", "dairy", "3w").unwrap();
    ingredient(&mut store, "milk", "dairy", "7d").unwrap();
    dish(&mut store, "pancake").unwrap();
    store
}

#[test]
fn recipe_records_each_line_in_order() {
    let mut store = kitchen();
    let added = recipe(&mut store, "pancake", &lines(&[("flour", 200), ("egg", 2), ("milk", 100)]));
    assert_eq!(added, Ok(vec!["flour".to_string(), "egg".to_string(), "milk".to_string()]));
    assert_eq!(
        store.recipes(),
        &vec![
            RecipeLine { dish_id: 1, ingredient_id: 1, quantity: 200 },
            RecipeLine { dish_id: 1, ingredient_id: 2, quantity: 2 },
            RecipeLine { dish_id: 1, ingredient_id: 3, quantity: 100 }
        ]
    );
}

#[test]
fn recipe_ends_at_the_first_empty_name() {
    let mut store = kitchen();
    let added = recipe(&mut store, "pancake", &lines(&[("flour", 200), ("", 5), ("milk", 100)]));
    assert_eq!(added, Ok(vec!["flour".to_string()]));
    assert_eq!(store.recipes().len(), 1);
}

#[test]
fn recipe_without_lines_adds_nothing() {
    let mut store = kitchen();
    let before = store.clone();
    assert_eq!(recipe(&mut store, "pancake", &vec![]), Ok(vec![]));
    assert_eq!(recipe(&mut store, "pancake", &lines(&[("", 1)])), Ok(vec![]));
    assert_eq!(store, before);
}

#[test]
fn recipe_of_no_dish_adds_nothing() {
    let mut store = kitchen();
    let before = store.clone();
    assert_eq!(recipe(&mut store, "", &lines(&[("flour", 200)])), Ok(vec![]));
    assert_eq!(store, before);
}

#[test]
fn recipe_of_an_unknown_dish_is_refused() {
    let mut store = kitchen();
    let before = store.clone();
    assert_eq!(recipe(&mut store, "waffle", &lines(&[("flour", 200)])), Err(StoreError::NotFound));
    assert_eq!(store, before);
}

#[test]
fn recipe_keeps_the_lines_before_a_refused_one() {
    let mut store = kitchen();
    let r = recipe(&mut store, "pancake", &lines(&[("flour", 200), ("salt", 1), ("milk", 100)]));
    assert_eq!(r, Err(StoreError::NotFound));
    assert_eq!(store.recipes(), &vec![RecipeLine { dish_id: 1, ingredient_id: 1, quantity: 200 }]);
}

#[test]
fn recipe_refuses_a_repeated_ingredient_and_a_zero_quantity() {
    let mut store = kitchen();
    let r = recipe(&mut store, "pancake", &lines(&[("flour", 200), ("flour", 50)]));
    assert_eq!(r, Err(StoreError::Conflict));
    assert_eq!(store.recipes().len(), 1);
    let r = recipe(&mut store, "pancake", &lines(&[("egg", 0), ("milk", 100)]));
    assert_eq!(r, Err(StoreError::Conflict));
    assert_eq!(store.recipes().len(), 1);
}

#[test]
fn modify_changes_the_lifespan_only() {
    let mut store = kitchen();
    assert_eq!(modify::ingredient(&mut store, "flour", "", "2d", ""), Ok(true));
    assert_eq!(
        store.ingredient_by_name("flour"),
        Ok(&Ingredient {
            id: 1,
            category_id: 6,
            name: "flour".to_string(),
            lifespan: "2d".to_string()
        })
    );
}

#[test]
fn modify_changes_name_and_category() {
    let mut store = kitchen();
    assert_eq!(modify::ingredient(&mut store, "egg", "duck egg", "", "meat"), Ok(true));
    assert_eq!(
        store.ingredient_by_name("duck egg"),
        Ok(&Ingredient {
            id: 2,
            category_id: 4,
            name: "duck egg".to_string(),
            lifespan: "3w".to_string()
        })
    );
    assert_eq!(store.ingredient_by_name("egg"), Err(StoreError::NotFound));
}

#[test]
fn modify_without_answers_writes_nothing() {
    let mut store = kitchen();
    let before = store.clone();
    assert_eq!(modify::ingredient(&mut store, "", "x", "y", "meat"), Ok(false));
    assert_eq!(modify::ingredient(&mut store, "flour", "", "", ""), Ok(false));
    assert_eq!(store, before);
}

#[test]
fn modify_is_refused_as_a_whole() {
    let mut store = kitchen();
    let before = store.clone();
    assert_eq!(modify::ingredient(&mut store, "salt", "x", "", ""), Err(StoreError::NotFound));
    assert_eq!(modify::ingredient(&mut store, "flour", "x", "1d", "fish"), Err(StoreError::NotFound));
    assert_eq!(modify::ingredient(&mut store, "flour", "egg", "1d", ""), Err(StoreError::Conflict));
    assert_eq!(store, before);
}
