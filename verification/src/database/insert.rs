//! The use-cases that add rows: an ingredient, a price, a dish, the lines of
//! a recipe. Each takes what the user answered; an empty answer means that
//! the user gave up, and nothing is written.

use vstd::prelude::*;
use crate::database::schema::{StoreError, Tables};
use crate::database::store::Store;
use crate::database::table::row_texts;

verus! {

/// What inserting an ingredient comes to: `None` where an answer is empty,
/// else the tables with the new row, or the reason why they cannot take it.
pub open spec fn ingredient_outcome(
    t: Tables,
    name: Seq<char>,
    category: Seq<char>,
    lifespan: Seq<char>,
) -> Option<Result<Tables, StoreError>> {
    if name.len() == 0 || category.len() == 0 || lifespan.len() == 0 {
        None
    } else {
        Some(
            match t.find_category(category) {
                Some(c) => t.insert_ingredient(c.id, name, lifespan),
                None => Err(StoreError::NotFound),
            },
        )
    }
}

/// Inserts an ingredient of the named category and returns its id, or
/// `None` where the user gave up.
pub fn ingredient(store: &mut Store, name: &str, category: &str, lifespan: &str) -> (r: Result<
    Option<u32>,
    StoreError,
>)
    requires
        old(store).wf(),
    ensures
        final(store).wf(),
        match ingredient_outcome(old(store)@, name@, category@, lifespan@) {
            None => final(store)@ == old(store)@ && r == Ok::<Option<u32>, StoreError>(None),
            Some(Ok(t)) => final(store)@ == t && r == Ok::<Option<u32>, StoreError>(
                Some(t.ingredients.last().id),
            ),
            Some(Err(e)) => final(store)@ == old(store)@ && r == Err::<Option<u32>, StoreError>(e),
        },
{
    if name.is_empty() || category.is_empty() || lifespan.is_empty() {
        return Ok(None);
    }
    let category_id = match store.category_by_name(category) {
        Ok(c) => c.id,
        Err(e) => {
            return Err(e);
        },
    };
    match store.insert_ingredient(category_id, name, lifespan) {
        Ok(id) => Ok(Some(id)),
        Err(e) => Err(e),
    }
}

/// What recording a price comes to: `None` where the name is empty or the
/// amount is absent, else the tables with the new observation, or the reason
/// why they cannot take it.
pub open spec fn price_outcome(t: Tables, ingredient: Seq<char>, amount: Option<u32>) -> Option<
    Result<Tables, StoreError>,
> {
    if ingredient.len() == 0 || amount is None {
        None
    } else {
        Some(
            match t.find_ingredient(ingredient) {
                Some(row) => t.insert_price(row.id, amount->0),
                None => Err(StoreError::NotFound),
            },
        )
    }
}

/// Appends a price observation to the history of the named ingredient and
/// returns its id, or `None` where the user gave up or what was typed for the
/// price was no number.
pub fn price(store: &mut Store, ingredient: &str, amount: Option<u32>) -> (r: Result<
    Option<u32>,
    StoreError,
>)
    requires
        old(store).wf(),
    ensures
        final(store).wf(),
        match price_outcome(old(store)@, ingredient@, amount) {
            None => final(store)@ == old(store)@ && r == Ok::<Option<u32>, StoreError>(None),
            Some(Ok(t)) => final(store)@ == t && r == Ok::<Option<u32>, StoreError>(
                Some(t.prices.last().id),
            ),
            Some(Err(e)) => final(store)@ == old(store)@ && r == Err::<Option<u32>, StoreError>(e),
        },
{
    if ingredient.is_empty() {
        return Ok(None);
    }
    let amount = match amount {
        Some(a) => a,
        None => {
            return Ok(None);
        },
    };
    let ingredient_id = match store.ingredient_by_name(ingredient) {
        Ok(row) => row.id,
        Err(e) => {
            return Err(e);
        },
    };
    match store.insert_price(ingredient_id, amount) {
        Ok(id) => Ok(Some(id)),
        Err(e) => Err(e),
    }
}

/// What inserting a dish comes to: `None` where the name is empty, else the
/// tables with the new row, or the reason why they cannot take it.
pub open spec fn dish_outcome(t: Tables, name: Seq<char>) -> Option<Result<Tables, StoreError>> {
    if name.len() == 0 {
        None
    } else {
        Some(t.insert_dish(name))
    }
}

/// Inserts a dish and returns its id, or `None` where the user gave up.
pub fn dish(store: &mut Store, name: &str) -> (r: Result<Option<u32>, StoreError>)
    requires
        old(store).wf(),
    ensures
        final(store).wf(),
        match dish_outcome(old(store)@, name@) {
            None => final(store)@ == old(store)@ && r == Ok::<Option<u32>, StoreError>(None),
            Some(Ok(t)) => final(store)@ == t && r == Ok::<Option<u32>, StoreError>(
                Some(t.dishes.last().id),
            ),
            Some(Err(e)) => final(store)@ == old(store)@ && r == Err::<Option<u32>, StoreError>(e),
        },
{
    if name.is_empty() {
        return Ok(None);
    }
    match store.insert_dish(name) {
        Ok(id) => Ok(Some(id)),
        Err(e) => Err(e),
    }
}

/// The lines of a recipe as the user gave them: for each the name of the
/// ingredient and the quantity.
pub open spec fn portions(lines: Seq<(String, u32)>) -> Seq<(Seq<char>, u32)> {
    Seq::new(lines.len(), |i: int| (lines[i].0@, lines[i].1))
}

/// How far a list of recipe lines gets.
pub struct Progress {
    /// The tables with the lines that were recorded.
    pub tables: Tables,
    /// The names of the ingredients of those lines, in order.
    pub added: Seq<Seq<char>>,
    /// Why the line after them was refused, if one was.
    pub refused: Option<StoreError>,
}

/// Records the lines of a dish one after the other, up to the first whose
/// name is empty, which ends the list, or which the store refuses: its
/// ingredient is unknown, its quantity is zero, or the dish lists the
/// ingredient already.
pub open spec fn recipe_progress(t: Tables, dish_id: u32, lines: Seq<(Seq<char>, u32)>) -> Progress
    decreases lines.len(),
{
    if lines.len() == 0 || lines[0].0.len() == 0 {
        Progress { tables: t, added: Seq::empty(), refused: None }
    } else {
        let step = match t.find_ingredient(lines[0].0) {
            Some(row) => t.insert_recipe_line(dish_id, row.id, lines[0].1),
            None => Err(StoreError::NotFound),
        };
        match step {
            Ok(u) => {
                let rest = recipe_progress(u, dish_id, lines.skip(1));
                Progress { added: seq![lines[0].0] + rest.added, ..rest }
            },
            Err(e) => Progress { tables: t, added: Seq::empty(), refused: Some(e) },
        }
    }
}

/// What recording the lines of a recipe comes to: nothing where the name of
/// the dish is empty, a refusal where it is the name of no dish.
pub open spec fn recipe_outcome(t: Tables, dish: Seq<char>, lines: Seq<(Seq<char>, u32)>) -> Progress {
    if dish.len() == 0 {
        Progress { tables: t, added: Seq::empty(), refused: None }
    } else {
        match t.find_dish(dish) {
            Some(d) => recipe_progress(t, d.id, lines),
            None => Progress { tables: t, added: Seq::empty(), refused: Some(StoreError::NotFound) },
        }
    }
}

/// Records the lines of the recipe of the named dish and returns the names
/// of the ingredients added. A line that is refused ends the use-case with
/// its error; the lines before it stay recorded.
pub fn recipe(store: &mut Store, dish: &str, lines: &Vec<(String, u32)>) -> (r: Result<
    Vec<String>,
    StoreError,
>)
    requires
        old(store).wf(),
    ensures
        final(store).wf(),
        final(store)@ == recipe_outcome(old(store)@, dish@, portions(lines@)).tables,
        match recipe_outcome(old(store)@, dish@, portions(lines@)).refused {
            None => r is Ok && row_texts(r->Ok_0@) == recipe_outcome(
                old(store)@,
                dish@,
                portions(lines@),
            ).added,
            Some(e) => r == Err::<Vec<String>, StoreError>(e),
        },
{
    let mut added: Vec<String> = Vec::new();
    if dish.is_empty() {
        assert(row_texts(added@) =~= Seq::<Seq<char>>::empty());
        return Ok(added);
    }
    let dish_id = match store.dish_by_name(dish) {
        Ok(d) => d.id,
        Err(e) => {
            return Err(e);
        },
    };
    let ghost all = portions(lines@);
    let ghost goal = recipe_progress(old(store)@, dish_id, all);
    let mut i: usize = 0;
    assert(all.skip(0) =~= all);
    assert(row_texts(added@) =~= Seq::<Seq<char>>::empty());
    while i < lines.len()
        invariant
            i <= lines.len(),
            store.wf(),
            all == portions(lines@),
            goal == recipe_outcome(old(store)@, dish@, all),
            goal.tables == recipe_progress(store@, dish_id, all.skip(i as int)).tables,
            goal.refused == recipe_progress(store@, dish_id, all.skip(i as int)).refused,
            goal.added == row_texts(added@) + recipe_progress(
                store@,
                dish_id,
                all.skip(i as int),
            ).added,
        decreases lines.len() - i,
    {
        let ghost rest = all.skip(i as int);
        let ghost before = store@;
        let ghost names = row_texts(added@);
        assert(rest[0] == all[i as int]);
        assert(rest.skip(1) =~= all.skip(i + 1));
        if lines[i].0.as_str().is_empty() {
            assert(goal.added =~= row_texts(added@));
            return Ok(added);
        }
        let ingredient_id = match store.ingredient_by_name(lines[i].0.as_str()) {
            Ok(row) => row.id,
            Err(e) => {
                return Err(e);
            },
        };
        match store.insert_recipe_line(dish_id, ingredient_id, lines[i].1) {
            Ok(()) => {},
            Err(e) => {
                return Err(e);
            },
        }
        added.push(lines[i].0.clone());
        proof {
            assert(row_texts(added@) =~= names.push(rest[0].0));
            assert(goal.added =~= row_texts(added@) + recipe_progress(
                store@,
                dish_id,
                all.skip(i + 1),
            ).added);
        }
        i += 1;
    }
    assert(goal.added =~= row_texts(added@));
    Ok(added)
}

} // verus!
