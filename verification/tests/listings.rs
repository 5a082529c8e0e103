use arino::database::insert::{dish, ingredient, recipe};
use arino::database::query::{all_dish_names, all_ingredients, recipe_by_dish_name};
use arino::database::schema::StoreError;
use arino::database::store::Store;
use arino::database::table::table_of;
use prettytable::Table;

/// The texts of the cells of a table, row by row.
fn cells(table: &Table) -> Vec<Vec<String>> {
    table.row_iter().map(|row| row.iter().map(|cell| cell.get_content()).collect()).collect()
}

fn grid(rows: &[&[&str]]) -> Vec<Vec<String>> {
    rows.iter().map(|row| row.iter().map(|c| c.to_string()).collect()).collect()
}

fn kitchen() -> Store {
    let mut store = Store::new();
    store.add_category("grain").unwrap();
    store.add_category("dairy").unwrap();
    ingredient(&mut store, "flour", "grain", "6mo").unwrap();
    ingredient(&mut store, "egg", "dairy", "3w").unwrap();
    ingredient(&mut store, "milk", "dairy", "7d").unwrap();
    dish(&mut store, "pancake").unwrap();
    dish(&mut store, "omelette").unwrap();
    let pancake = vec![("flour".to_string(), 200), ("egg".to_string(), 2), ("milk".to_string(), 100)];
    recipe(&mut store, "pancake", &pancake).unwrap();
    recipe(&mut store, "omelette", &vec![("egg".to_string(), 3)]).unwrap();
    store
}

fn labels(list: &[&str]) -> Vec<String> {
    list.iter().map(|l| l.to_string()).collect()
}

#[test]
fn table_holds_the_rows_it_is_made_of() {
    let rows = grid(&[&["a", "b"], &[], &["c"], &["", "d d", "e"]]);
    let table = table_of(&rows);
    assert_eq!(table.len(), 4);
    assert_eq!(cells(&table), rows);
}

#[test]
fn table_of_no_rows_is_empty() {
    let table = table_of(&vec![]);
    assert!(table.is_empty());
}

#[test]
fn cell_with_line_breaks_holds_its_lines() {
    let table = table_of(&grid(&[&["one\ntwo", "three\r\nfour", "five\n"]]));
    assert_eq!(cells(&table), grid(&[&["one\ntwo", "three\nfour", "five"]]));
}

#[test]
fn dishes_are_listed_with_their_ids() {
    let table = all_dish_names(&kitchen());
    assert_eq!(cells(&table), grid(&[&["ID", "Name"], &["1", "pancake"], &["2", "omelette"]]));
}

#[test]
fn no_dishes_list_the_heading_alone() {
    let table = all_dish_names(&Store::new());
    assert_eq!(cells(&table), grid(&[&["ID", "Name"]]));
}

#[test]
fn recipe_is_listed_line_by_line() {
    let table = recipe_by_dish_name(&kitchen(), "pancake").unwrap().unwrap();
    assert_eq!(
        cells(&table),
        grid(&[
            &["Ingredient", "Quantity (normally g)"],
            &["flour", "200"],
            &["egg", "2"],
            &["milk", "100"]
        ])
    );
    let table = recipe_by_dish_name(&kitchen(), "omelette").unwrap().unwrap();
    assert_eq!(cells(&table), grid(&[&["Ingredient", "Quantity (normally g)"], &["egg", "3"]]));
}

#[test]
fn recipe_of_a_dish_without_lines_is_the_heading_alone() {
    let mut store = kitchen();
    dish(&mut store, "water").unwrap();
    let table = recipe_by_dish_name(&store, "water").unwrap().unwrap();
    assert_eq!(cells(&table), grid(&[&["Ingredient", "Quantity (normally g)"]]));
}

#[test]
fn recipe_of_a_blank_name_lists_nothing() {
    assert!(matches!(recipe_by_dish_name(&kitchen(), ""), Ok(None)));
    assert!(matches!(recipe_by_dish_name(&kitchen(), "  \t"), Ok(None)));
}

#[test]
fn recipe_of_an_unknown_dish_is_not_found() {
    assert!(matches!(recipe_by_dish_name(&kitchen(), "waffle"), Err(StoreError::NotFound)));
    assert!(matches!(recipe_by_dish_name(&kitchen(), " pancake"), Err(StoreError::NotFound)));
}

#[test]
fn all_ingredients_are_listed_with_their_labels() {
    let table = all_ingredients(&kitchen(), "all", &labels(&["$1.50", "$0.00", "$2.25"])).unwrap().unwrap();
    assert_eq!(
        cells(&table),
        grid(&[
            &["ID", "Name", "Lifespan", "Price"],
            &["1", "flour", "6mo", "$1.50"],
            &["2", "egg", "3w", "$0.00"],
            &["3", "milk", "7d", "$2.25"]
        ])
    );
}

#[test]
fn ingredients_of_one_category_keep_their_own_labels() {
    let table = all_ingredients(&kitchen(), "dairy", &labels(&["$1.50", "$0.00", "$2.25"])).unwrap().unwrap();
    assert_eq!(
        cells(&table),
        grid(&[
            &["ID", "Name (dairy)", "Lifespan", "Price"],
            &["2", "egg", "3w", "$0.00"],
            &["3", "milk", "7d", "$2.25"]
        ])
    );
}

#[test]
fn missing_labels_leave_the_price_empty() {
    let table = all_ingredients(&kitchen(), "all", &labels(&["$1.50"])).unwrap().unwrap();
    assert_eq!(
        cells(&table),
        grid(&[
            &["ID", "Name", "Lifespan", "Price"],
            &["1", "flour", "6mo", "$1.50"],
            &["2", "egg", "3w", ""],
            &["3", "milk", "7d", ""]
        ])
    );
}

#[test]
fn category_without_ingredients_lists_the_heading_alone() {
    let mut store = kitchen();
    store.add_category("fruit").unwrap();
    let table = all_ingredients(&store, "fruit", &vec![]).unwrap().unwrap();
    assert_eq!(cells(&table), grid(&[&["ID", "Name (fruit)", "Lifespan", "Price"]]));
}

#[test]
fn ingredients_of_no_category_list_nothing() {
    assert!(matches!(all_ingredients(&kitchen(), "", &vec![]), Ok(None)));
}

#[test]
fn ingredients_of_an_unknown_category_are_not_found() {
    assert!(matches!(all_ingredients(&kitchen(), "fish", &vec![]), Err(StoreError::NotFound)));
}

#[test]
fn escape_characters_are_replaced_in_cells() {
    let table = table_of(&grid(&[&["\u{1b}[31mred\u{1b}[0m", "plain"]]));
    assert_eq!(cells(&table), grid(&[&["\u{fffd}[31mred\u{fffd}[0m", "plain"]]));
}

#[test]
fn escape_before_joined_letters_makes_a_cell() {
    let text = "\u{1b}[\u{644}\u{627}\u{644}\u{627}\u{644}\u{627}";
    let table = table_of(&grid(&[&[text]]));
    assert_eq!(cells(&table), grid(&[&["\u{fffd}[\u{644}\u{627}\u{644}\u{627}\u{644}\u{627}"]]));
}

#[test]
fn dish_with_an_escape_in_its_name_is_listed() {
    let mut store = Store::new();
    dish(&mut store, "\u{1b}[\u{644}\u{627}\u{644}\u{627}\u{644}\u{627}").unwrap();
    let table = all_dish_names(&store);
    assert_eq!(
        cells(&table),
        grid(&[&["ID", "Name"], &["1", "\u{fffd}[\u{644}\u{627}\u{644}\u{627}\u{644}\u{627}"]])
    );
}
