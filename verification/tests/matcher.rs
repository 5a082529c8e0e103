use arino::database::insert::{dish, ingredient, recipe};
use arino::database::query::dish_by_ingredients::{matchable_dishes, MatchError};
use arino::database::store::Store;

fn names(list: &[&str]) -> Vec<String> {
    list.iter().map(|n| n.to_string()).collect()
}

fn kitchen() -> Store {
    let mut store = Store::new();
    store.add_category("grain").unwrap();
    store.add_category("dairy").unwrap();
    ingredient(&mut store, "flour", "grain", "6mo").unwrap();
    ingredient(&mut store, "egg", "dairy", "3w").unwrap();
    ingredient(&mut store, "milk", "dairy", "7d").unwrap();
    dish(&mut store, "pancake").unwrap();
    dish(&mut store, "omelette").unwrap();
    let pancake = vec![("flour".to_string(), 200), ("egg".to_string(), 2), ("milk".to_string(), 100)];
    assert_eq!(recipe(&mut store, "pancake", &pancake), Ok(names(&["flour", "egg", "milk"])));
    assert_eq!(recipe(&mut store, "omelette", &vec![("egg".to_string(), 3)]), Ok(names(&["egg"])));
    store
}

#[test]
fn egg_alone_makes_the_omelette() {
    assert_eq!(matchable_dishes(&kitchen(), &names(&["egg"])), Ok(names(&["omelette"])));
}

#[test]
fn all_three_make_both_dishes_in_id_order() {
    assert_eq!(
        matchable_dishes(&kitchen(), &names(&["flour", "egg", "milk"])),
        Ok(names(&["pancake", "omelette"]))
    );
}

#[test]
fn order_of_the_input_does_not_matter() {
    assert_eq!(
        matchable_dishes(&kitchen(), &names(&["milk", "egg", "flour", "egg"])),
        Ok(names(&["pancake", "omelette"]))
    );
}

#[test]
fn flour_alone_makes_nothing() {
    assert_eq!(matchable_dishes(&kitchen(), &names(&["flour"])), Ok(vec![]));
}

#[test]
fn two_of_three_do_not_make_the_pancake() {
    assert_eq!(matchable_dishes(&kitchen(), &names(&["flour", "milk"])), Ok(vec![]));
    assert_eq!(matchable_dishes(&kitchen(), &names(&["flour", "egg"])), Ok(names(&["omelette"])));
}

#[test]
fn no_input_is_refused() {
    assert_eq!(matchable_dishes(&kitchen(), &vec![]), Err(MatchError::EmptyInput));
}

#[test]
fn unknown_name_is_refused() {
    assert_eq!(
        matchable_dishes(&kitchen(), &names(&["not-a-real-ingredient"])),
        Err(MatchError::UnknownIngredient("not-a-real-ingredient".to_string()))
    );
}

#[test]
fn first_unknown_name_is_the_one_told() {
    assert_eq!(
        matchable_dishes(&kitchen(), &names(&["egg", "salt", "flour", "pepper"])),
        Err(MatchError::UnknownIngredient("salt".to_string()))
    );
}

#[test]
fn empty_name_is_unknown() {
    assert_eq!(
        matchable_dishes(&kitchen(), &names(&[""])),
        Err(MatchError::UnknownIngredient(String::new()))
    );
}

#[test]
fn dish_without_recipe_is_always_matched() {
    let mut store = kitchen();
    dish(&mut store, "water").unwrap();
    assert_eq!(matchable_dishes(&store, &names(&["flour"])), Ok(names(&["water"])));
    assert_eq!(
        matchable_dishes(&store, &names(&["egg"])),
        Ok(names(&["omelette", "water"]))
    );
}

#[test]
fn store_without_dishes_matches_nothing() {
    let mut store = Store::new();
    store.add_category("grain").unwrap();
    ingredient(&mut store, "flour", "grain", "6mo").unwrap();
    assert_eq!(matchable_dishes(&store, &names(&["flour"])), Ok(vec![]));
}

#[test]
fn matching_leaves_the_store_as_it_was() {
    let store = kitchen();
    let before = store.clone();
    let _ = matchable_dishes(&store, &names(&["egg"]));
    assert_eq!(store, before);
}
