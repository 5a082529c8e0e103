//! What holds of the tables across operations: every write keeps them well
//! formed, and what is written can be read back.

use vstd::prelude::*;
use crate::database::schema::{next_id, Price, RecipeLine, Tables};

verus! {

/// Adding a category keeps the tables well formed.
pub proof fn add_category_keeps_wf(t: Tables, name: Seq<char>)
    requires
        t.wf(),
        t.add_category(name) is Ok,
    ensures
        t.add_category(name)->Ok_0.wf(),
{
    let u = t.add_category(name)->Ok_0;
    assert(u.category_ids() =~= t.category_ids().push(u.categories.last().id));
    assert(u.category_names() =~= t.category_names().push(name));
    assert forall|i: int| 0 <= i < u.ingredients.len() implies u.category_ids().contains(
        (#[trigger] u.ingredients[i]).category_id,
    ) by {
        let k = t.category_ids().index_of(t.ingredients[i].category_id);
        assert(u.category_ids()[k] == t.ingredients[i].category_id);
    }
}

/// Inserting an ingredient keeps the tables well formed.
pub proof fn insert_ingredient_keeps_wf(
    t: Tables,
    category_id: u32,
    name: Seq<char>,
    lifespan: Seq<char>,
)
    requires
        t.wf(),
        t.insert_ingredient(category_id, name, lifespan) is Ok,
    ensures
        t.insert_ingredient(category_id, name, lifespan)->Ok_0.wf(),
{
    let u = t.insert_ingredient(category_id, name, lifespan)->Ok_0;
    assert(u.ingredient_ids() =~= t.ingredient_ids().push(u.ingredients.last().id));
    assert(u.ingredient_names() =~= t.ingredient_names().push(name));
    assert forall|i: int| 0 <= i < u.prices.len() implies u.ingredient_ids().contains(
        (#[trigger] u.prices[i]).ingredient_id,
    ) by {
        let k = t.ingredient_ids().index_of(t.prices[i].ingredient_id);
        assert(u.ingredient_ids()[k] == t.prices[i].ingredient_id);
    }
    assert forall|i: int| 0 <= i < u.recipes.len() implies u.ingredient_ids().contains(
        (#[trigger] u.recipes[i]).ingredient_id,
    ) by {
        let k = t.ingredient_ids().index_of(t.recipes[i].ingredient_id);
        assert(u.ingredient_ids()[k] == t.recipes[i].ingredient_id);
    }
}

/// Appending a price observation keeps the tables well formed.
pub proof fn insert_price_keeps_wf(t: Tables, ingredient_id: u32, amount: u32)
    requires
        t.wf(),
        t.insert_price(ingredient_id, amount) is Ok,
    ensures
        t.insert_price(ingredient_id, amount)->Ok_0.wf(),
{
    let u = t.insert_price(ingredient_id, amount)->Ok_0;
    assert(u.price_ids() =~= t.price_ids().push(u.prices.last().id));
}

/// Inserting a dish keeps the tables well formed.
pub proof fn insert_dish_keeps_wf(t: Tables, name: Seq<char>)
    requires
        t.wf(),
        t.insert_dish(name) is Ok,
    ensures
        t.insert_dish(name)->Ok_0.wf(),
{
    let u = t.insert_dish(name)->Ok_0;
    assert(u.dish_ids() =~= t.dish_ids().push(u.dishes.last().id));
    assert(u.dish_names() =~= t.dish_names().push(name));
    assert forall|i: int| 0 <= i < u.recipes.len() implies u.dish_ids().contains(
        (#[trigger] u.recipes[i]).dish_id,
    ) by {
        let k = t.dish_ids().index_of(t.recipes[i].dish_id);
        assert(u.dish_ids()[k] == t.recipes[i].dish_id);
    }
}

/// Recording a recipe line keeps the tables well formed.
pub proof fn insert_recipe_line_keeps_wf(t: Tables, dish_id: u32, ingredient_id: u32, quantity: u32)
    requires
        t.wf(),
        t.insert_recipe_line(dish_id, ingredient_id, quantity) is Ok,
    ensures
        t.insert_recipe_line(dish_id, ingredient_id, quantity)->Ok_0.wf(),
{
    let u = t.insert_recipe_line(dish_id, ingredient_id, quantity)->Ok_0;
    assert(u.recipe_keys() =~= t.recipe_keys().push((dish_id, ingredient_id)));
}

/// Replacing fields of an ingredient keeps the tables well formed.
pub proof fn update_ingredient_keeps_wf(
    t: Tables,
    id: u32,
    name: Option<Seq<char>>,
    lifespan: Option<Seq<char>>,
    category_id: Option<u32>,
)
    requires
        t.wf(),
        t.update_ingredient(id, name, lifespan, category_id) is Ok,
    ensures
        t.update_ingredient(id, name, lifespan, category_id)->Ok_0.wf(),
{
    let u = t.update_ingredient(id, name, lifespan, category_id)->Ok_0;
    let at = t.ingredient_ids().index_of(id);
    assert(0 <= at < t.ingredients.len() && t.ingredient_ids()[at] == id);
    let old_names = t.ingredient_names();
    let new_names = u.ingredient_names();
    assert(u.ingredient_ids() =~= t.ingredient_ids());
    assert(new_names =~= old_names.update(at, u.ingredients[at].name));
    assert forall|i: int, j: int| 0 <= i < j < new_names.len() implies new_names[i]
        != new_names[j] by {
        assert(old_names[i] != old_names[j]);
        if i == at && new_names[at] != old_names[at] {
            assert(!old_names.contains(new_names[at]));
            assert(old_names[j] != new_names[at]);
        }
        if j == at && new_names[at] != old_names[at] {
            assert(!old_names.contains(new_names[at]));
            assert(old_names[i] != new_names[at]);
        }
    }
    assert forall|i: int| 0 <= i < new_names.len() implies (#[trigger] new_names[i]).len()
        > 0 by {
        assert(old_names[i].len() > 0);
    }
    assert forall|i: int| 0 <= i < u.ingredients.len() implies u.category_ids().contains(
        (#[trigger] u.ingredients[i]).category_id,
    ) by {
        if i != at {
            assert(u.ingredients[i] == t.ingredients[i]);
        }
    }
}

/// An ingredient that was inserted is found under its name, with the
/// category, the name and the shelf life it was inserted with.
pub proof fn inserted_ingredient_is_found(
    t: Tables,
    category_id: u32,
    name: Seq<char>,
    lifespan: Seq<char>,
)
    requires
        t.wf(),
        t.insert_ingredient(category_id, name, lifespan) is Ok,
    ensures
        ({
            let u = t.insert_ingredient(category_id, name, lifespan)->Ok_0;
            &&& u.find_ingredient(name) is Some
            &&& u.find_ingredient(name)->0.category_id == category_id
            &&& u.find_ingredient(name)->0.name == name
            &&& u.find_ingredient(name)->0.lifespan == lifespan
            &&& u.find_ingredient(name)->0.id == next_id(t.ingredient_ids())
        }),
{
    let u = t.insert_ingredient(category_id, name, lifespan)->Ok_0;
    insert_ingredient_keeps_wf(t, category_id, name, lifespan);
    let last = u.ingredients.len() - 1;
    assert(u.ingredient_names()[last] == name);
    let at = u.ingredient_names().index_of(name);
    assert(u.ingredient_names()[at] == name);
    assert(at == last);
}

/// A dish that was inserted is found under its name.
pub proof fn inserted_dish_is_found(t: Tables, name: Seq<char>)
    requires
        t.wf(),
        t.insert_dish(name) is Ok,
    ensures
        ({
            let u = t.insert_dish(name)->Ok_0;
            &&& u.find_dish(name) is Some
            &&& u.find_dish(name)->0.name == name
            &&& u.find_dish(name)->0.id == next_id(t.dish_ids())
        }),
{
    let u = t.insert_dish(name)->Ok_0;
    insert_dish_keeps_wf(t, name);
    let last = u.dishes.len() - 1;
    assert(u.dish_names()[last] == name);
    let at = u.dish_names().index_of(name);
    assert(u.dish_names()[at] == name);
    assert(at == last);
}

/// Replacing fields of an ingredient changes the fields that are given, in
/// the row of that ingredient, and nothing else: a field given as `None`
/// stays, every other row stays, and so does every other table. Giving a
/// new shelf life alone always succeeds for an ingredient that exists.
pub proof fn update_is_partial(
    t: Tables,
    id: u32,
    name: Option<Seq<char>>,
    lifespan: Option<Seq<char>>,
    category_id: Option<u32>,
)
    requires
        t.wf(),
        t.ingredient_ids().contains(id),
    ensures
        name is None && category_id is None ==> t.update_ingredient(
            id,
            name,
            lifespan,
            category_id,
        ) is Ok,
        t.update_ingredient(id, name, lifespan, category_id) is Ok ==> ({
            let u = t.update_ingredient(id, name, lifespan, category_id)->Ok_0;
            let at = t.ingredient_ids().index_of(id);
            &&& 0 <= at < t.ingredients.len()
            &&& t.ingredients[at].id == id
            &&& u.ingredients.len() == t.ingredients.len()
            &&& u.ingredients[at].id == id
            &&& u.ingredients[at].name == if name is Some {
                name->0
            } else {
                t.ingredients[at].name
            }
            &&& u.ingredients[at].lifespan == if lifespan is Some {
                lifespan->0
            } else {
                t.ingredients[at].lifespan
            }
            &&& u.ingredients[at].category_id == if category_id is Some {
                category_id->0
            } else {
                t.ingredients[at].category_id
            }
            &&& forall|i: int|
                0 <= i < t.ingredients.len() && i != at ==> u.ingredients[i] == t.ingredients[i]
            &&& u.categories == t.categories
            &&& u.prices == t.prices
            &&& u.dishes == t.dishes
            &&& u.recipes == t.recipes
        }),
{
    let at = t.ingredient_ids().index_of(id);
    assert(0 <= at < t.ingredients.len() && t.ingredient_ids()[at] == id);
}

/// The price history of an ingredient only grows: a new observation goes to
/// the end of the history of its ingredient, and the history of every other
/// ingredient stays as it was.
pub proof fn price_history_is_append_only(t: Tables, ingredient_id: u32, amount: u32, other: u32)
    requires
        t.insert_price(ingredient_id, amount) is Ok,
        other != ingredient_id,
    ensures
        ({
            let u = t.insert_price(ingredient_id, amount)->Ok_0;
            &&& u.prices_of(ingredient_id) == t.prices_of(ingredient_id).push(
                Price { id: next_id(t.price_ids()) as u32, ingredient_id, amount },
            )
            &&& u.prices_of(other) == t.prices_of(other)
        }),
{
    let row = Price { id: next_id(t.price_ids()) as u32, ingredient_id, amount };
    t.prices.lemma_filter_push(row, |p: Price| p.ingredient_id == ingredient_id);
    t.prices.lemma_filter_push(row, |p: Price| p.ingredient_id == other);
}

/// A recipe line that was recorded is the last line of its dish, and the
/// recipe of every other dish stays as it was.
pub proof fn recipe_grows_by_the_line(
    t: Tables,
    dish_id: u32,
    ingredient_id: u32,
    quantity: u32,
    other: u32,
)
    requires
        t.insert_recipe_line(dish_id, ingredient_id, quantity) is Ok,
        other != dish_id,
    ensures
        ({
            let u = t.insert_recipe_line(dish_id, ingredient_id, quantity)->Ok_0;
            &&& u.recipe_of(dish_id) == t.recipe_of(dish_id).push(
                RecipeLine { dish_id, ingredient_id, quantity },
            )
            &&& u.recipe_of(other) == t.recipe_of(other)
        }),
{
    let row = RecipeLine { dish_id, ingredient_id, quantity };
    t.recipes.lemma_filter_push(row, |l: RecipeLine| l.dish_id == dish_id);
    t.recipes.lemma_filter_push(row, |l: RecipeLine| l.dish_id == other);
}

} // verus!
