//! Which dishes can be made from the ingredients at hand.

use std::collections::HashSet;
use vstd::prelude::*;
use vstd::std_specs::hash::group_hash_axioms;
use crate::database::schema::{DishView, RecipeLine, Tables};
use crate::database::store::Store;
use crate::database::table::row_texts;

verus! {

broadcast use group_hash_axioms;

/// Why no list of dishes could be given.
#[derive(Clone, Debug, PartialEq, Eq)]
pub enum MatchError {
    /// No ingredient was named.
    EmptyInput,
    /// The name, the first such in the input, is that of no ingredient.
    UnknownIngredient(String),
}

/// Every name is the name of an ingredient.
pub open spec fn all_known(t: Tables, names: Seq<Seq<char>>) -> bool {
    forall|k: int| 0 <= k < names.len() ==> t.ingredient_names().contains(#[trigger] names[k])
}

/// The name at `k` is the first that is the name of no ingredient.
pub open spec fn first_unknown(t: Tables, names: Seq<Seq<char>>, k: int) -> bool {
    &&& 0 <= k < names.len()
    &&& !t.ingredient_names().contains(names[k])
    &&& all_known(t, names.take(k))
}

/// The ids of the ingredients that the names name.
pub open spec fn named_ids(t: Tables, names: Seq<Seq<char>>) -> Set<u32> {
    Set::new(
        |id: u32|
            exists|i: int|
                0 <= i < t.ingredients.len() && (#[trigger] t.ingredients[i]).id == id
                    && names.contains(t.ingredients[i].name),
    )
}

/// The ids of the ingredients that the recipe of a dish asks for.
pub open spec fn required(t: Tables, dish_id: u32) -> Set<u32> {
    Set::new(|id: u32| t.recipe_keys().contains((dish_id, id)))
}

/// A dish can be made from the ingredients at hand when they include all
/// that its recipe asks for. A dish without a recipe can always be made.
pub open spec fn makeable(t: Tables, dish_id: u32, have: Set<u32>) -> bool {
    required(t, dish_id).subset_of(have)
}

/// The names of the dishes that can be made from the named ingredients, in
/// row order, which is the order of their ids.
pub open spec fn matchable(t: Tables, names: Seq<Seq<char>>) -> Seq<Seq<char>> {
    t.dishes.filter(|d: DishView| makeable(t, d.id, named_ids(t, names))).map_values(
        |d: DishView| d.name,
    )
}

/// The dishes that some recipe line among the first `n` keeps from being
/// made: the line asks for an ingredient that is not at hand.
pub open spec fn blocked_by(t: Tables, have: Set<u32>, n: int) -> Set<u32> {
    Set::new(
        |dish_id: u32|
            exists|j: int|
                0 <= j < n && (#[trigger] t.recipes[j]).dish_id == dish_id && !have.contains(
                    t.recipes[j].ingredient_id,
                ),
    )
}

proof fn lemma_blocked_is_not_makeable(t: Tables, have: Set<u32>, dish_id: u32)
    ensures
        blocked_by(t, have, t.recipes.len() as int).contains(dish_id) <==> !makeable(
            t,
            dish_id,
            have,
        ),
{
    let keys = t.recipe_keys();
    if blocked_by(t, have, t.recipes.len() as int).contains(dish_id) {
        let j = choose|j: int|
            0 <= j < t.recipes.len() && (#[trigger] t.recipes[j]).dish_id == dish_id
                && !have.contains(t.recipes[j].ingredient_id);
        assert(keys[j] == (dish_id, t.recipes[j].ingredient_id));
        assert(required(t, dish_id).contains(t.recipes[j].ingredient_id));
    }
    if !makeable(t, dish_id, have) {
        let id = choose|id: u32| required(t, dish_id).contains(id) && !have.contains(id);
        let j = keys.index_of((dish_id, id));
        assert(keys[j] == (dish_id, id));
        assert(t.recipes[j].dish_id == dish_id);
    }
}

/// Tells which dishes can be made from the named ingredients: those whose
/// recipe asks for nothing else. Fails where no ingredient is named, and at
/// the first name that is the name of no ingredient.
pub fn matchable_dishes(store: &Store, names: &Vec<String>) -> (r: Result<Vec<String>, MatchError>)
    requires
        store.wf(),
    ensures
        names.len() == 0 ==> r is Err && r->Err_0 is EmptyInput,
        names.len() > 0 && all_known(store@, row_texts(names@)) ==> r is Ok && row_texts(
            r->Ok_0@,
        ) == matchable(store@, row_texts(names@)),
        forall|k: int| #[trigger]
            first_unknown(store@, row_texts(names@), k) ==> r is Err && r->Err_0 is UnknownIngredient
                && r->Err_0->UnknownIngredient_0@ == names[k]@,
        r is Ok ==> names.len() > 0 && all_known(store@, row_texts(names@)),
{
    if names.len() == 0 {
        return Err(MatchError::EmptyInput);
    }
    let ghost t = store@;
    let ghost wanted = row_texts(names@);
    let mut have: HashSet<u32> = HashSet::new();
    let mut k: usize = 0;
    while k < names.len()
        invariant
            k <= names.len(),
            store.wf(),
            t == store@,
            wanted == row_texts(names@),
            all_known(t, wanted.take(k as int)),
            have@ == named_ids(t, wanted.take(k as int)),
        decreases names.len() - k,
    {
        let ghost before = wanted.take(k as int);
        let ghost after = wanted.take(k + 1);
        assert(after =~= before.push(wanted[k as int]));
        match store.ingredient_by_name(names[k].as_str()) {
            Ok(row) => {
                have.insert(row.id);
                proof {
                    let at = t.ingredient_names().index_of(wanted[k as int]);
                    assert(t.ingredient_names()[at] == wanted[k as int]);
                    assert(after[k as int] == t.ingredients[at].name);
                    assert forall|id: u32| #[trigger]
                        named_ids(t, after).contains(id) <==> (named_ids(t, before).contains(id)
                            || id == row.id) by {
                        if named_ids(t, after).contains(id) {
                            let i = choose|i: int|
                                0 <= i < t.ingredients.len() && (#[trigger] t.ingredients[i]).id
                                    == id && after.contains(t.ingredients[i].name);
                            let w = after.index_of(t.ingredients[i].name);
                            if w < k {
                                assert(before[w] == t.ingredients[i].name);
                            } else {
                                assert(t.ingredient_names()[i] == t.ingredient_names()[at]);
                            }
                        }
                        if named_ids(t, before).contains(id) {
                            let i = choose|i: int|
                                0 <= i < t.ingredients.len() && (#[trigger] t.ingredients[i]).id
                                    == id && before.contains(t.ingredients[i].name);
                            let w = before.index_of(t.ingredients[i].name);
                            assert(after[w] == t.ingredients[i].name);
                        }
                    }
                    assert(have@ =~= named_ids(t, after));
                    assert forall|j: int| 0 <= j < after.len() implies t.ingredient_names().contains(
                        #[trigger] after[j],
                    ) by {
                        if j < k {
                            assert(before[j] == after[j]);
                        }
                    }
                }
            },
            Err(_) => {
                assert(first_unknown(t, wanted, k as int));
                assert forall|j: int| #[trigger] first_unknown(t, wanted, j) implies j == k by {
                    if j < k {
                        assert(before[j] == wanted[j]);
                    }
                    if k < j {
                        assert(wanted.take(j)[k as int] == wanted[k as int]);
                    }
                }
                assert(!all_known(t, wanted));
                return Err(MatchError::UnknownIngredient(names[k].clone()));
            },
        }
        k += 1;
    }
    assert(wanted.take(k as int) =~= wanted);
    assert forall|j: int| !#[trigger] first_unknown(t, wanted, j) by {}
    let lines = store.recipes();
    let mut blocked: HashSet<u32> = HashSet::new();
    let mut j: usize = 0;
    assert(blocked@ =~= blocked_by(t, have@, 0));
    while j < lines.len()
        invariant
            j <= lines.len(),
            lines@ == t.recipes,
            blocked@ == blocked_by(t, have@, j as int),
        decreases lines.len() - j,
    {
        let ghost before = blocked@;
        let line = lines[j];
        if !have.contains(&line.ingredient_id) {
            blocked.insert(line.dish_id);
        }
        assert(blocked@ =~= blocked_by(t, have@, j + 1)) by {
            assert forall|d: u32| blocked_by(t, have@, j as int).contains(d) implies blocked_by(
                t,
                have@,
                j + 1,
            ).contains(d) by {
                let w = choose|w: int|
                    0 <= w < j && (#[trigger] t.recipes[w]).dish_id == d && !have@.contains(
                        t.recipes[w].ingredient_id,
                    );
                assert(0 <= w < j + 1 && t.recipes[w].dish_id == d);
            }
            if !have@.contains(line.ingredient_id) {
                assert(t.recipes[j as int].dish_id == line.dish_id);
                assert(blocked_by(t, have@, j + 1).contains(line.dish_id));
            }
        }
        j += 1;
    }
    let dishes = store.dishes();
    let ghost can = |d: DishView| makeable(t, d.id, named_ids(t, wanted));
    let ghost name = |d: DishView| d.name;
    let mut found: Vec<String> = Vec::new();
    let mut i: usize = 0;
    proof {
        assert(t.dishes.take(0) =~= Seq::<DishView>::empty());
        t.dishes.take(0).lemma_all_neg_filter_empty(can);
        assert(row_texts(found@) =~= t.dishes.take(0).filter(can).map_values(name));
    }
    while i < dishes.len()
        invariant
            i <= dishes.len(),
            dishes@.len() == t.dishes.len(),
            forall|k: int| 0 <= k < dishes@.len() ==> dishes@[k]@ == t.dishes[k],
            have@ == named_ids(t, wanted),
            blocked@ == blocked_by(t, have@, t.recipes.len() as int),
            can == |d: DishView| makeable(t, d.id, named_ids(t, wanted)),
            name == |d: DishView| d.name,
            row_texts(found@) == t.dishes.take(i as int).filter(can).map_values(name),
        decreases dishes.len() - i,
    {
        let ghost before = row_texts(found@);
        let dish = &dishes[i];
        proof {
            assert(dish@ == t.dishes[i as int]);
            lemma_blocked_is_not_makeable(t, have@, dish.id);
            t.dishes.lemma_take_succ_push(i as int);
            t.dishes.take(i as int).lemma_filter_push(t.dishes[i as int], can);
        }
        if !blocked.contains(&dish.id) {
            found.push(dish.name.clone());
            proof {
                assert(row_texts(found@) =~= before.push(dish.name@));
                t.dishes.take(i as int).filter(can).lemma_push_map_commute(
                    name,
                    t.dishes[i as int],
                );
            }
        }
        i += 1;
    }
    assert(t.dishes.take(i as int) =~= t.dishes);
    Ok(found)
}

/// The list of dishes that can be made names a dish exactly when its
/// recipe asks for nothing but ingredients at hand.
pub proof fn matchable_names_the_makeable(t: Tables, names: Seq<Seq<char>>, i: int)
    requires
        t.wf(),
        0 <= i < t.dishes.len(),
    ensures
        matchable(t, names).contains(t.dishes[i].name) <==> makeable(
            t,
            t.dishes[i].id,
            named_ids(t, names),
        ),
{
    let can = |d: DishView| makeable(t, d.id, named_ids(t, names));
    let name = |d: DishView| d.name;
    let chosen = t.dishes.filter(can);
    let d = t.dishes[i];
    if makeable(t, d.id, named_ids(t, names)) {
        t.dishes.lemma_filter_contains(can, i);
        let k = chosen.index_of(d);
        assert(chosen.map_values(name)[k] == d.name);
    }
    if matchable(t, names).contains(d.name) {
        let k = matchable(t, names).index_of(d.name);
        assert(chosen.map_values(name)[k] == d.name);
        assert(chosen.contains(chosen[k]));
        t.dishes.lemma_filter_contains_rev(can, chosen[k]);
        t.dishes.lemma_filter_pred(can, k);
        let j = t.dishes.index_of(chosen[k]);
        assert(t.dishes[j] == chosen[k]);
        assert(t.dish_names()[j] == t.dish_names()[i]);
        assert(j == i);
    }
}

/// A dish without a recipe can be made whatever is at hand.
pub proof fn dish_without_recipe_is_makeable(t: Tables, dish_id: u32, have: Set<u32>)
    requires
        t.recipe_of(dish_id).len() == 0,
    ensures
        makeable(t, dish_id, have),
{
    let of_dish = |l: RecipeLine| l.dish_id == dish_id;
    assert forall|id: u32| required(t, dish_id).contains(id) implies have.contains(id) by {
        let j = t.recipe_keys().index_of((dish_id, id));
        assert(t.recipe_keys()[j] == (dish_id, id));
        assert(of_dish(t.recipes[j]));
        t.recipes.lemma_filter_contains(of_dish, j);
    }
}

/// The ids of the dishes that can be made from the named ingredients, in the
/// order in which `matchable` gives their names.
pub open spec fn matchable_ids(t: Tables, names: Seq<Seq<char>>) -> Seq<u32> {
    t.dishes.filter(|d: DishView| makeable(t, d.id, named_ids(t, names))).map_values(
        |d: DishView| d.id,
    )
}

proof fn lemma_filter_keeps_order(dishes: Seq<DishView>, can: spec_fn(DishView) -> bool)
    requires
        forall|i: int, j: int| 0 <= i < j < dishes.len() ==> dishes[i].id < dishes[j].id,
    ensures
        forall|i: int, j: int|
            0 <= i < j < dishes.filter(can).len() ==> dishes.filter(can)[i].id < dishes.filter(
                can,
            )[j].id,
    decreases dishes.len(),
{
    reveal(Seq::filter);
    if dishes.len() > 0 {
        let front = dishes.drop_last();
        lemma_filter_keeps_order(front, can);
        if can(dishes.last()) {
            assert forall|i: int| 0 <= i < front.filter(can).len() implies front.filter(can)[i].id
                < dishes.last().id by {
                let d = front.filter(can)[i];
                assert(front.filter(can).contains(d));
                front.lemma_filter_contains_rev(can, d);
                let k = front.index_of(d);
                assert(dishes[k] == d);
            }
        }
    }
}

/// The dishes that can be made are listed by ascending id.
pub proof fn matchable_in_id_order(t: Tables, names: Seq<Seq<char>>)
    requires
        t.wf(),
    ensures
        matchable_ids(t, names).len() == matchable(t, names).len(),
        forall|i: int, j: int|
            0 <= i < j < matchable_ids(t, names).len() ==> matchable_ids(t, names)[i]
                < matchable_ids(t, names)[j],
{
    let can = |d: DishView| makeable(t, d.id, named_ids(t, names));
    assert forall|i: int, j: int| 0 <= i < j < t.dishes.len() implies t.dishes[i].id
        < t.dishes[j].id by {
        assert(t.dish_ids()[i] < t.dish_ids()[j]);
    }
    lemma_filter_keeps_order(t.dishes, can);
}

} // verus!
