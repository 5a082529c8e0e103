//! The use-case that changes an ingredient: its name, its shelf life, its
//! category, each only where the user gave a new one.

use vstd::prelude::*;
use crate::database::schema::{StoreError, Tables};
use crate::database::store::Store;

verus! {

/// A new value as the user answered: none where the answer is empty.
pub open spec fn given(answer: Seq<char>) -> Option<Seq<char>> {
    if answer.len() == 0 {
        None
    } else {
        Some(answer)
    }
}

/// What changing an ingredient comes to: `None` where the name is empty or
/// no new value is given, else the tables with the row changed, or the reason
/// why it cannot be: the ingredient or the new category is unknown, or the
/// new name belongs to another ingredient.
pub open spec fn ingredient_outcome(
    t: Tables,
    name: Seq<char>,
    new_name: Seq<char>,
    new_lifespan: Seq<char>,
    new_category: Seq<char>,
) -> Option<Result<Tables, StoreError>> {
    if name.len() == 0 || (new_name.len() == 0 && new_lifespan.len() == 0 && new_category.len()
        == 0) {
        None
    } else {
        Some(
            match t.find_ingredient(name) {
                None => Err(StoreError::NotFound),
                Some(row) => if new_category.len() == 0 {
                    t.update_ingredient(row.id, given(new_name), given(new_lifespan), None)
                } else {
                    match t.find_category(new_category) {
                        None => Err(StoreError::NotFound),
                        Some(c) => t.update_ingredient(
                            row.id,
                            given(new_name),
                            given(new_lifespan),
                            Some(c.id),
                        ),
                    }
                },
            },
        )
    }
}

/// Changes the named ingredient. An empty answer leaves its field as it is.
/// Returns whether anything was to be changed.
pub fn ingredient(
    store: &mut Store,
    name: &str,
    new_name: &str,
    new_lifespan: &str,
    new_category: &str,
) -> (r: Result<bool, StoreError>)
    requires
        old(store).wf(),
    ensures
        final(store).wf(),
        match ingredient_outcome(
            old(store)@,
            name@,
            new_name@,
            new_lifespan@,
            new_category@,
        ) {
            None => final(store)@ == old(store)@ && r == Ok::<bool, StoreError>(false),
            Some(Ok(t)) => final(store)@ == t && r == Ok::<bool, StoreError>(true),
            Some(Err(e)) => final(store)@ == old(store)@ && r == Err::<bool, StoreError>(e),
        },
{
    if name.is_empty() || (new_name.is_empty() && new_lifespan.is_empty()
        && new_category.is_empty()) {
        return Ok(false);
    }
    let id = match store.ingredient_by_name(name) {
        Ok(row) => row.id,
        Err(e) => {
            return Err(e);
        },
    };
    let category_id = if new_category.is_empty() {
        None
    } else {
        match store.category_by_name(new_category) {
            Ok(c) => Some(c.id),
            Err(e) => {
                return Err(e);
            },
        }
    };
    let name_given = if new_name.is_empty() {
        None
    } else {
        Some(new_name)
    };
    let lifespan_given = if new_lifespan.is_empty() {
        None
    } else {
        Some(new_lifespan)
    };
    match store.update_ingredient(id, name_given, lifespan_given, category_id) {
        Ok(()) => Ok(true),
        Err(e) => Err(e),
    }
}

} // verus!
