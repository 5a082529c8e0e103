//! The listings: what is in the store, laid out as printable tables.

pub mod dish_by_ingredients;

use vstd::prelude::*;
use vstd::string::StringExecFns;
use prettytable::Table;
use crate::database::schema::{
    CategoryView, DishView, IngredientView, RecipeLine, StoreError, Tables,
};
use crate::database::store::Store;
use crate::database::table::{grid, grid_texts, row_texts, table_of, table_rows};
use crate::text::{blank, decimal, decimal_text, is_blank};

verus! {

/// The listing of all dishes: a heading, then one row per dish with its id
/// and its name, in row order.
pub open spec fn dish_rows(t: Tables) -> Seq<Seq<Seq<char>>> {
    seq![seq!["ID"@, "Name"@]] + t.dishes.map_values(
        |d: DishView| seq![decimal_text(d.id as nat), d.name],
    )
}

/// The listing of one recipe: a heading, then one row per line of the dish
/// with the name of the ingredient and the quantity, in the order recorded.
pub open spec fn recipe_rows(t: Tables, dish_id: u32) -> Seq<Seq<Seq<char>>> {
    seq![seq!["Ingredient"@, "Quantity (normally g)"@]] + t.recipe_of(dish_id).map_values(
        |l: RecipeLine| seq![t.ingredient_name(l.ingredient_id), decimal_text(l.quantity as nat)],
    )
}

/// The label at a position of a list of labels, empty past its end.
pub open spec fn label_at(labels: Seq<Seq<char>>, i: int) -> Seq<char> {
    if 0 <= i < labels.len() {
        labels[i]
    } else {
        Seq::empty()
    }
}

/// The heading of the listing of ingredients: that of one category names it.
pub open spec fn ingredient_heading(category: Option<CategoryView>) -> Seq<Seq<char>> {
    match category {
        Some(c) => seq!["ID"@, "Name ("@ + c.name + ")"@, "Lifespan"@, "Price"@],
        None => seq!["ID"@, "Name"@, "Lifespan"@, "Price"@],
    }
}

/// Whether an ingredient is listed: all are where no category is chosen.
pub open spec fn listed(row: IngredientView, category: Option<CategoryView>) -> bool {
    match category {
        Some(c) => row.category_id == c.id,
        None => true,
    }
}

/// The rows of the first `n` ingredients that are listed: id, name, shelf
/// life, and the price label at the position of the ingredient.
pub open spec fn ingredient_lines(
    t: Tables,
    category: Option<CategoryView>,
    labels: Seq<Seq<char>>,
    n: int,
) -> Seq<Seq<Seq<char>>>
    decreases n,
{
    if n <= 0 {
        Seq::empty()
    } else {
        let before = ingredient_lines(t, category, labels, n - 1);
        let row = t.ingredients[n - 1];
        if listed(row, category) {
            before.push(
                seq![decimal_text(row.id as nat), row.name, row.lifespan, label_at(labels, n - 1)],
            )
        } else {
            before
        }
    }
}

/// The listing of ingredients, of one category or of all: a heading, then
/// one row per listed ingredient, in row order.
pub open spec fn ingredient_rows(
    t: Tables,
    category: Option<CategoryView>,
    labels: Seq<Seq<char>>,
) -> Seq<Seq<Seq<char>>> {
    seq![ingredient_heading(category)] + ingredient_lines(
        t,
        category,
        labels,
        t.ingredients.len() as int,
    )
}

fn pair(a: String, b: String) -> (row: Vec<String>)
    ensures
        row_texts(row@) == seq![a@, b@],
{
    let mut row: Vec<String> = Vec::new();
    row.push(a);
    row.push(b);
    assert(row_texts(row@) =~= seq![a@, b@]);
    row
}

fn quad(a: String, b: String, c: String, d: String) -> (row: Vec<String>)
    ensures
        row_texts(row@) == seq![a@, b@, c@, d@],
{
    let mut row: Vec<String> = Vec::new();
    row.push(a);
    row.push(b);
    row.push(c);
    row.push(d);
    assert(row_texts(row@) =~= seq![a@, b@, c@, d@]);
    row
}

/// Lists every dish with its id.
pub fn all_dish_names(store: &Store) -> (table: Table)
    ensures
        table_rows(table) == grid(dish_rows(store@)),
{
    let dishes = store.dishes();
    let ghost body = store@.dishes.map_values(
        |d: DishView| seq![decimal_text(d.id as nat), d.name],
    );
    let mut rows: Vec<Vec<String>> = Vec::new();
    rows.push(pair("ID".to_owned(), "Name".to_owned()));
    let mut i: usize = 0;
    assert(grid_texts(rows@) =~= seq![seq!["ID"@, "Name"@]] + body.take(0));
    while i < dishes.len()
        invariant
            i <= dishes.len(),
            dishes@.len() == store@.dishes.len(),
            forall|k: int| 0 <= k < dishes@.len() ==> dishes@[k]@ == store@.dishes[k],
            body == store@.dishes.map_values(
                |d: DishView| seq![decimal_text(d.id as nat), d.name],
            ),
            grid_texts(rows@) == seq![seq!["ID"@, "Name"@]] + body.take(i as int),
        decreases dishes.len() - i,
    {
        let ghost before = grid_texts(rows@);
        let row = pair(decimal(dishes[i].id), dishes[i].name.clone());
        rows.push(row);
        assert(dishes@[i as int]@ == store@.dishes[i as int]);
        assert(grid_texts(rows@) =~= before.push(body[i as int]));
        assert(body.take(i + 1) =~= body.take(i as int).push(body[i as int]));
        i += 1;
    }
    assert(body.take(i as int) =~= body);
    table_of(&rows)
}

/// Lists the recipe of a dish: each ingredient with its quantity. A blank
/// name asks for nothing, and nothing is listed.
pub fn recipe_by_dish_name(store: &Store, dish_name: &str) -> (r: Result<
    Option<Table>,
    StoreError,
>)
    requires
        store.wf(),
    ensures
        blank(dish_name@) ==> r is Ok && r->Ok_0 is None,
        !blank(dish_name@) ==> match store@.find_dish(dish_name@) {
            Some(d) => r is Ok && r->Ok_0 is Some && table_rows(r->Ok_0->0) == grid(
                recipe_rows(store@, d.id),
            ),
            None => r is Err && r->Err_0 == StoreError::NotFound,
        },
{
    if is_blank(dish_name) {
        return Ok(None);
    }
    let dish_id: u32 = match store.dish_by_name(dish_name) {
        Ok(dish) => dish.id,
        Err(e) => {
            return Err(e);
        },
    };
    let ghost wanted = store@.recipe_of(dish_id);
    let ghost body = wanted.map_values(
        |l: RecipeLine|
            seq![store@.ingredient_name(l.ingredient_id), decimal_text(l.quantity as nat)],
    );
    let lines = match store.recipe_of(dish_id) {
        Ok(lines) => lines,
        Err(e) => {
            proof {
                let k = store@.dish_names().index_of(dish_name@);
                assert(store@.dish_ids()[k] == dish_id);
            }
            return Err(e);
        },
    };
    let mut rows: Vec<Vec<String>> = Vec::new();
    rows.push(pair("Ingredient".to_owned(), "Quantity (normally g)".to_owned()));
    let mut i: usize = 0;
    assert(grid_texts(rows@) =~= seq![seq!["Ingredient"@, "Quantity (normally g)"@]] + body.take(
        0,
    ));
    while i < lines.len()
        invariant
            i <= lines.len(),
            store.wf(),
            lines@ == wanted,
            wanted == store@.recipe_of(dish_id),
            body == wanted.map_values(
                |l: RecipeLine|
                    seq![
                        store@.ingredient_name(l.ingredient_id),
                        decimal_text(l.quantity as nat),
                    ],
            ),
            grid_texts(rows@) == seq![seq!["Ingredient"@, "Quantity (normally g)"@]] + body.take(
                i as int,
            ),
        decreases lines.len() - i,
    {
        let ghost before = grid_texts(rows@);
        let line = lines[i];
        proof {
            store@.recipes.lemma_filter_contains_rev(
                |l: RecipeLine| l.dish_id == dish_id,
                line,
            );
            let k = store@.recipes.index_of(line);
            assert(store@.recipes[k] == line);
        }
        let name = match store.ingredient_by_id(line.ingredient_id) {
            Ok(row) => row.name.clone(),
            Err(e) => {
                return Err(e);
            },
        };
        rows.push(pair(name, decimal(line.quantity)));
        assert(grid_texts(rows@) =~= before.push(body[i as int]));
        assert(body.take(i + 1) =~= body.take(i as int).push(body[i as int]));
        i += 1;
    }
    assert(body.take(i as int) =~= body);
    Ok(Some(table_of(&rows)))
}

/// Lists the ingredients of one category, or of all where the category asked
/// for is `all`, each with its shelf life and a price label. The label of an
/// ingredient is the one at its position among the ingredients of the store.
/// An empty category asks for nothing, and nothing is listed.
pub fn all_ingredients(store: &Store, category: &str, price_labels: &Vec<String>) -> (r: Result<
    Option<Table>,
    StoreError,
>)
    requires
        store.wf(),
    ensures
        category@.len() == 0 ==> r is Ok && r->Ok_0 is None,
        category@.len() > 0 && category@ == "all"@ ==> r is Ok && r->Ok_0 is Some && table_rows(
            r->Ok_0->0,
        ) == grid(ingredient_rows(store@, None, row_texts(price_labels@))),
        category@.len() > 0 && category@ != "all"@ ==> match store@.find_category(category@) {
            Some(c) => r is Ok && r->Ok_0 is Some && table_rows(r->Ok_0->0) == grid(
                ingredient_rows(store@, Some(c), row_texts(price_labels@)),
            ),
            None => r is Err && r->Err_0 == StoreError::NotFound,
        },
{
    if category.is_empty() {
        return Ok(None);
    }
    let mut chosen: Option<u32> = None;
    let ghost choice: Option<CategoryView> = None;
    let mut heading = "Name".to_owned();
    if category.to_owned() != "all".to_owned() {
        match store.category_by_name(category) {
            Ok(c) => {
                chosen = Some(c.id);
                proof {
                    choice = Some(c@);
                }
                heading = "Name (".to_owned();
                heading.append(c.name.as_str());
                heading.append(")");
            },
            Err(e) => {
                return Err(e);
            },
        }
    }
    let ingredients = store.ingredients();
    let ghost labels = row_texts(price_labels@);
    let mut rows: Vec<Vec<String>> = Vec::new();
    rows.push(quad("ID".to_owned(), heading, "Lifespan".to_owned(), "Price".to_owned()));
    let mut i: usize = 0;
    assert(grid_texts(rows@) =~= seq![ingredient_heading(choice)] + ingredient_lines(
        store@,
        choice,
        labels,
        0,
    ));
    while i < ingredients.len()
        invariant
            i <= ingredients.len(),
            ingredients@.len() == store@.ingredients.len(),
            forall|k: int| 0 <= k < ingredients@.len() ==> ingredients@[k]@ == store@.ingredients[k],
            labels == row_texts(price_labels@),
            match choice {
                Some(c) => chosen == Some(c.id),
                None => chosen is None,
            },
            grid_texts(rows@) == seq![ingredient_heading(choice)] + ingredient_lines(
                store@,
                choice,
                labels,
                i as int,
            ),
        decreases ingredients.len() - i,
    {
        let ghost before = grid_texts(rows@);
        let row = &ingredients[i];
        assert(row@ == store@.ingredients[i as int]);
        let wanted = match chosen {
            Some(id) => row.category_id == id,
            None => true,
        };
        if wanted {
            let label = if i < price_labels.len() {
                price_labels[i].clone()
            } else {
                String::new()
            };
            rows.push(quad(decimal(row.id), row.name.clone(), row.lifespan.clone(), label));
            assert(grid_texts(rows@) =~= before.push(
                seq![
                    decimal_text(row.id as nat),
                    row.name@,
                    row.lifespan@,
                    label_at(labels, i as int),
                ],
            ));
        }
        i += 1;
    }
    Ok(Some(table_of(&rows)))
}

} // verus!
