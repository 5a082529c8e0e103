//! The store: the five tables in memory, with lookups by name and by
//! reference, and the typed operations that write to them.

use vstd::prelude::*;
use crate::database::laws::{
    add_category_keeps_wf, insert_dish_keeps_wf, insert_ingredient_keeps_wf,
    insert_price_keeps_wf, insert_recipe_line_keeps_wf, update_ingredient_keeps_wf,
};
use crate::database::schema::{
    keys_of, Category, Dish, Ingredient, Price, RecipeLine, StoreError, Tables,
};
use crate::database::table::row_texts;
use crate::database::validate::{
    all_among, ids_ascend, lines_differ, names_differ, quantities_positive,
};

verus! {

/// The rows of a table as mathematical values, in row order.
pub open spec fn views<T: View>(rows: Seq<T>) -> Seq<T::V> {
    rows.map_values(|r: T| r@)
}

/// The characters of a text that may be absent.
pub open spec fn text_of(text: Option<&str>) -> Option<Seq<char>> {
    match text {
        Some(t) => Some(t@),
        None => None,
    }
}

/// The tables that hold the given rows.
pub open spec fn tables_of(
    categories: Seq<Category>,
    ingredients: Seq<Ingredient>,
    prices: Seq<Price>,
    dishes: Seq<Dish>,
    recipes: Seq<RecipeLine>,
) -> Tables {
    Tables {
        categories: views(categories),
        ingredients: views(ingredients),
        prices,
        dishes: views(dishes),
        recipes,
    }
}

fn category_columns(rows: &Vec<Category>) -> (columns: (Vec<u32>, Vec<String>))
    ensures
        columns.0@.len() == rows@.len(),
        columns.1@.len() == rows@.len(),
        forall|k: int| 0 <= k < rows@.len() ==> columns.0@[k] == rows@[k].id,
        forall|k: int| 0 <= k < rows@.len() ==> columns.1@[k]@ == rows@[k].name@,
{
    let mut ids: Vec<u32> = Vec::new();
    let mut names: Vec<String> = Vec::new();
    let mut i: usize = 0;
    while i < rows.len()
        invariant
            i <= rows.len(),
            ids@.len() == i,
            names@.len() == i,
            forall|k: int| 0 <= k < i ==> ids@[k] == rows@[k].id,
            forall|k: int| 0 <= k < i ==> names@[k]@ == rows@[k].name@,
        decreases rows.len() - i,
    {
        ids.push(rows[i].id);
        names.push(rows[i].name.clone());
        i += 1;
    }
    (ids, names)
}

fn ingredient_columns(rows: &Vec<Ingredient>) -> (columns: (Vec<u32>, Vec<String>, Vec<u32>))
    ensures
        columns.0@.len() == rows@.len(),
        columns.1@.len() == rows@.len(),
        columns.2@.len() == rows@.len(),
        forall|k: int| 0 <= k < rows@.len() ==> columns.0@[k] == rows@[k].id,
        forall|k: int| 0 <= k < rows@.len() ==> columns.1@[k]@ == rows@[k].name@,
        forall|k: int| 0 <= k < rows@.len() ==> columns.2@[k] == rows@[k].category_id,
{
    let mut ids: Vec<u32> = Vec::new();
    let mut names: Vec<String> = Vec::new();
    let mut categories: Vec<u32> = Vec::new();
    let mut i: usize = 0;
    while i < rows.len()
        invariant
            i <= rows.len(),
            ids@.len() == i,
            names@.len() == i,
            categories@.len() == i,
            forall|k: int| 0 <= k < i ==> ids@[k] == rows@[k].id,
            forall|k: int| 0 <= k < i ==> names@[k]@ == rows@[k].name@,
            forall|k: int| 0 <= k < i ==> categories@[k] == rows@[k].category_id,
        decreases rows.len() - i,
    {
        ids.push(rows[i].id);
        names.push(rows[i].name.clone());
        categories.push(rows[i].category_id);
        i += 1;
    }
    (ids, names, categories)
}

fn price_columns(rows: &Vec<Price>) -> (columns: (Vec<u32>, Vec<u32>))
    ensures
        columns.0@.len() == rows@.len(),
        columns.1@.len() == rows@.len(),
        forall|k: int| 0 <= k < rows@.len() ==> columns.0@[k] == rows@[k].id,
        forall|k: int| 0 <= k < rows@.len() ==> columns.1@[k] == rows@[k].ingredient_id,
{
    let mut ids: Vec<u32> = Vec::new();
    let mut ingredients: Vec<u32> = Vec::new();
    let mut i: usize = 0;
    while i < rows.len()
        invariant
            i <= rows.len(),
            ids@.len() == i,
            ingredients@.len() == i,
            forall|k: int| 0 <= k < i ==> ids@[k] == rows@[k].id,
            forall|k: int| 0 <= k < i ==> ingredients@[k] == rows@[k].ingredient_id,
        decreases rows.len() - i,
    {
        ids.push(rows[i].id);
        ingredients.push(rows[i].ingredient_id);
        i += 1;
    }
    (ids, ingredients)
}

fn dish_columns(rows: &Vec<Dish>) -> (columns: (Vec<u32>, Vec<String>))
    ensures
        columns.0@.len() == rows@.len(),
        columns.1@.len() == rows@.len(),
        forall|k: int| 0 <= k < rows@.len() ==> columns.0@[k] == rows@[k].id,
        forall|k: int| 0 <= k < rows@.len() ==> columns.1@[k]@ == rows@[k].name@,
{
    let mut ids: Vec<u32> = Vec::new();
    let mut names: Vec<String> = Vec::new();
    let mut i: usize = 0;
    while i < rows.len()
        invariant
            i <= rows.len(),
            ids@.len() == i,
            names@.len() == i,
            forall|k: int| 0 <= k < i ==> ids@[k] == rows@[k].id,
            forall|k: int| 0 <= k < i ==> names@[k]@ == rows@[k].name@,
        decreases rows.len() - i,
    {
        ids.push(rows[i].id);
        names.push(rows[i].name.clone());
        i += 1;
    }
    (ids, names)
}

fn line_columns(rows: &Vec<RecipeLine>) -> (columns: (Vec<u32>, Vec<u32>))
    ensures
        columns.0@.len() == rows@.len(),
        columns.1@.len() == rows@.len(),
        forall|k: int| 0 <= k < rows@.len() ==> columns.0@[k] == rows@[k].dish_id,
        forall|k: int| 0 <= k < rows@.len() ==> columns.1@[k] == rows@[k].ingredient_id,
{
    let mut dishes: Vec<u32> = Vec::new();
    let mut ingredients: Vec<u32> = Vec::new();
    let mut i: usize = 0;
    while i < rows.len()
        invariant
            i <= rows.len(),
            dishes@.len() == i,
            ingredients@.len() == i,
            forall|k: int| 0 <= k < i ==> dishes@[k] == rows@[k].dish_id,
            forall|k: int| 0 <= k < i ==> ingredients@[k] == rows@[k].ingredient_id,
        decreases rows.len() - i,
    {
        dishes.push(rows[i].dish_id);
        ingredients.push(rows[i].ingredient_id);
        i += 1;
    }
    (dishes, ingredients)
}

/// The local replica of the five tables.
#[derive(Clone, Debug, PartialEq, Eq)]
pub struct Store {
    categories: Vec<Category>,
    ingredients: Vec<Ingredient>,
    prices: Vec<Price>,
    dishes: Vec<Dish>,
    recipes: Vec<RecipeLine>,
}

impl View for Store {
    type V = Tables;

    closed spec fn view(&self) -> Tables {
        Tables {
            categories: views(self.categories@),
            ingredients: views(self.ingredients@),
            prices: self.prices@,
            dishes: views(self.dishes@),
            recipes: self.recipes@,
        }
    }
}

impl Store {
    /// The invariant of the store: its tables are well formed.
    pub open spec fn wf(&self) -> bool {
        self@.wf()
    }

    /// A store with no rows.
    pub fn new() -> (s: Store)
        ensures
            s@ == Tables::empty(),
            s.wf(),
    {
        let s = Store {
            categories: Vec::new(),
            ingredients: Vec::new(),
            prices: Vec::new(),
            dishes: Vec::new(),
            recipes: Vec::new(),
        };
        assert(s@ =~= Tables::empty());
        s
    }

    /// A store that holds the given rows, where they are well formed: ids
    /// ascend in row order, names are distinct and not empty, every reference
    /// names a row, and no dish lists an ingredient twice or in no quantity.
    /// Rows that are not well formed make no store.
    pub fn from_rows(
        categories: Vec<Category>,
        ingredients: Vec<Ingredient>,
        prices: Vec<Price>,
        dishes: Vec<Dish>,
        recipes: Vec<RecipeLine>,
    ) -> (made: Option<Store>)
        ensures
            made is Some <==> tables_of(categories@, ingredients@, prices@, dishes@, recipes@).wf(),
            made is Some ==> made->0@ == tables_of(
                categories@,
                ingredients@,
                prices@,
                dishes@,
                recipes@,
            ),
    {
        let ghost t = tables_of(categories@, ingredients@, prices@, dishes@, recipes@);
        let (category_ids, category_names) = category_columns(&categories);
        let (ingredient_ids, ingredient_names, ingredient_categories) = ingredient_columns(
            &ingredients,
        );
        let (price_ids, price_ingredients) = price_columns(&prices);
        let (dish_ids, dish_names) = dish_columns(&dishes);
        let (line_dishes, line_ingredients) = line_columns(&recipes);
        proof {
            assert(category_ids@ =~= t.category_ids());
            assert(row_texts(category_names@) =~= t.category_names());
            assert(ingredient_ids@ =~= t.ingredient_ids());
            assert(row_texts(ingredient_names@) =~= t.ingredient_names());
            assert(price_ids@ =~= t.price_ids());
            assert(dish_ids@ =~= t.dish_ids());
            assert(row_texts(dish_names@) =~= t.dish_names());
        }
        let well_formed = ids_ascend(&category_ids) && ids_ascend(&ingredient_ids) && ids_ascend(
            &price_ids,
        ) && ids_ascend(&dish_ids) && names_differ(&category_names) && names_differ(
            &ingredient_names,
        ) && names_differ(&dish_names) && all_among(&ingredient_categories, &category_ids)
            && all_among(&price_ingredients, &ingredient_ids) && all_among(&line_dishes, &dish_ids)
            && all_among(&line_ingredients, &ingredient_ids) && quantities_positive(&recipes)
            && lines_differ(&recipes);
        proof {
            if well_formed {
                assert forall|i: int| 0 <= i < t.ingredients.len() implies t.category_ids().contains(
                    (#[trigger] t.ingredients[i]).category_id,
                ) by {
                    assert(ingredient_categories@[i] == t.ingredients[i].category_id);
                }
                assert forall|i: int| 0 <= i < t.prices.len() implies t.ingredient_ids().contains(
                    (#[trigger] t.prices[i]).ingredient_id,
                ) by {
                    assert(price_ingredients@[i] == t.prices[i].ingredient_id);
                }
                assert forall|i: int| 0 <= i < t.recipes.len() implies {
                    &&& t.dish_ids().contains((#[trigger] t.recipes[i]).dish_id)
                    &&& t.ingredient_ids().contains(t.recipes[i].ingredient_id)
                    &&& t.recipes[i].quantity > 0
                } by {
                    assert(line_dishes@[i] == t.recipes[i].dish_id);
                    assert(line_ingredients@[i] == t.recipes[i].ingredient_id);
                }
            } else {
                if t.wf() {
                    assert forall|k: int|
                        0 <= k < ingredient_categories@.len() implies category_ids@.contains(
                        #[trigger] ingredient_categories@[k],
                    ) by {
                        assert(t.ingredients[k].category_id == ingredient_categories@[k]);
                    }
                    assert forall|k: int|
                        0 <= k < price_ingredients@.len() implies ingredient_ids@.contains(
                        #[trigger] price_ingredients@[k],
                    ) by {
                        assert(t.prices[k].ingredient_id == price_ingredients@[k]);
                    }
                    assert forall|k: int| 0 <= k < line_dishes@.len() implies dish_ids@.contains(
                        #[trigger] line_dishes@[k],
                    ) by {
                        assert(t.recipes[k].dish_id == line_dishes@[k]);
                    }
                    assert forall|k: int|
                        0 <= k < line_ingredients@.len() implies ingredient_ids@.contains(
                        #[trigger] line_ingredients@[k],
                    ) by {
                        assert(t.recipes[k].ingredient_id == line_ingredients@[k]);
                    }
                    assert(false);
                }
            }
        }
        if well_formed {
            let store = Store { categories, ingredients, prices, dishes, recipes };
            assert(store@ =~= t);
            Some(store)
        } else {
            None
        }
    }

    /// The categories, in row order.
    pub fn categories(&self) -> (rows: &Vec<Category>)
        ensures
            views(rows@) == self@.categories,
    {
        &self.categories
    }

    /// The ingredients, in row order.
    pub fn ingredients(&self) -> (rows: &Vec<Ingredient>)
        ensures
            views(rows@) == self@.ingredients,
    {
        &self.ingredients
    }

    /// The price observations, in row order.
    pub fn prices(&self) -> (rows: &Vec<Price>)
        ensures
            rows@ == self@.prices,
    {
        &self.prices
    }

    /// The dishes, in row order.
    pub fn dishes(&self) -> (rows: &Vec<Dish>)
        ensures
            views(rows@) == self@.dishes,
    {
        &self.dishes
    }

    /// The recipe lines, in row order.
    pub fn recipes(&self) -> (rows: &Vec<RecipeLine>)
        ensures
            rows@ == self@.recipes,
    {
        &self.recipes
    }

    fn category_position(&self, name: &String) -> (at: Option<usize>)
        ensures
            match at {
                Some(i) => i < self@.categories.len() && self@.categories[i as int].name == name@,
                None => !self@.category_names().contains(name@),
            },
    {
        let mut i: usize = 0;
        while i < self.categories.len()
            invariant
                i <= self.categories.len(),
                forall|k: int| 0 <= k < i ==> self@.categories[k].name != name@,
            decreases self.categories.len() - i,
        {
            if self.categories[i].name == *name {
                return Some(i);
            }
            i += 1;
        }
        None
    }

    fn ingredient_position(&self, name: &String) -> (at: Option<usize>)
        ensures
            match at {
                Some(i) => i < self@.ingredients.len() && self@.ingredients[i as int].name
                    == name@,
                None => !self@.ingredient_names().contains(name@),
            },
    {
        let mut i: usize = 0;
        while i < self.ingredients.len()
            invariant
                i <= self.ingredients.len(),
                forall|k: int| 0 <= k < i ==> self@.ingredients[k].name != name@,
            decreases self.ingredients.len() - i,
        {
            if self.ingredients[i].name == *name {
                return Some(i);
            }
            i += 1;
        }
        None
    }

    fn dish_position(&self, name: &String) -> (at: Option<usize>)
        ensures
            match at {
                Some(i) => i < self@.dishes.len() && self@.dishes[i as int].name == name@,
                None => !self@.dish_names().contains(name@),
            },
    {
        let mut i: usize = 0;
        while i < self.dishes.len()
            invariant
                i <= self.dishes.len(),
                forall|k: int| 0 <= k < i ==> self@.dishes[k].name != name@,
            decreases self.dishes.len() - i,
        {
            if self.dishes[i].name == *name {
                return Some(i);
            }
            i += 1;
        }
        None
    }

    /// Whether a category has that id.
    pub fn has_category(&self, id: u32) -> (found: bool)
        ensures
            found == self@.category_ids().contains(id),
    {
        let mut i: usize = 0;
        while i < self.categories.len()
            invariant
                i <= self.categories.len(),
                forall|k: int| 0 <= k < i ==> self@.category_ids()[k] != id,
            decreases self.categories.len() - i,
        {
            if self.categories[i].id == id {
                assert(self@.category_ids()[i as int] == id);
                return true;
            }
            i += 1;
        }
        false
    }

    fn ingredient_row(&self, id: u32) -> (at: Option<usize>)
        ensures
            match at {
                Some(i) => i < self@.ingredients.len() && self@.ingredients[i as int].id == id,
                None => !self@.ingredient_ids().contains(id),
            },
    {
        let mut i: usize = 0;
        while i < self.ingredients.len()
            invariant
                i <= self.ingredients.len(),
                forall|k: int| 0 <= k < i ==> self@.ingredient_ids()[k] != id,
            decreases self.ingredients.len() - i,
        {
            if self.ingredients[i].id == id {
                return Some(i);
            }
            i += 1;
        }
        None
    }

    /// Whether an ingredient has that id.
    pub fn has_ingredient(&self, id: u32) -> (found: bool)
        ensures
            found == self@.ingredient_ids().contains(id),
    {
        match self.ingredient_row(id) {
            Some(i) => {
                assert(self@.ingredient_ids()[i as int] == id);
                true
            },
            None => false,
        }
    }

    /// Whether a dish has that id.
    pub fn has_dish(&self, id: u32) -> (found: bool)
        ensures
            found == self@.dish_ids().contains(id),
    {
        let mut i: usize = 0;
        while i < self.dishes.len()
            invariant
                i <= self.dishes.len(),
                forall|k: int| 0 <= k < i ==> self@.dish_ids()[k] != id,
            decreases self.dishes.len() - i,
        {
            if self.dishes[i].id == id {
                assert(self@.dish_ids()[i as int] == id);
                return true;
            }
            i += 1;
        }
        false
    }

    /// Looks a category up by its name.
    pub fn category_by_name(&self, name: &str) -> (r: Result<&Category, StoreError>)
        requires
            self.wf(),
        ensures
            match self@.find_category(name@) {
                Some(c) => r is Ok && r->Ok_0@ == c,
                None => r == Err::<&Category, StoreError>(StoreError::NotFound),
            },
    {
        match self.category_position(&name.to_owned()) {
            Some(i) => {
                assert(self@.category_names()[i as int] == name@);
                Ok(&self.categories[i])
            },
            None => Err(StoreError::NotFound),
        }
    }

    /// Looks an ingredient up by its name.
    pub fn ingredient_by_name(&self, name: &str) -> (r: Result<&Ingredient, StoreError>)
        requires
            self.wf(),
        ensures
            match self@.find_ingredient(name@) {
                Some(row) => r is Ok && r->Ok_0@ == row,
                None => r == Err::<&Ingredient, StoreError>(StoreError::NotFound),
            },
    {
        match self.ingredient_position(&name.to_owned()) {
            Some(i) => {
                assert(self@.ingredient_names()[i as int] == name@);
                Ok(&self.ingredients[i])
            },
            None => Err(StoreError::NotFound),
        }
    }

    /// Looks a dish up by its name.
    pub fn dish_by_name(&self, name: &str) -> (r: Result<&Dish, StoreError>)
        requires
            self.wf(),
        ensures
            match self@.find_dish(name@) {
                Some(d) => r is Ok && r->Ok_0@ == d,
                None => r == Err::<&Dish, StoreError>(StoreError::NotFound),
            },
    {
        match self.dish_position(&name.to_owned()) {
            Some(i) => {
                assert(self@.dish_names()[i as int] == name@);
                Ok(&self.dishes[i])
            },
            None => Err(StoreError::NotFound),
        }
    }

    /// Looks an ingredient up by its id.
    pub fn ingredient_by_id(&self, id: u32) -> (r: Result<&Ingredient, StoreError>)
        requires
            self.wf(),
        ensures
            if self@.ingredient_ids().contains(id) {
                r is Ok && r->Ok_0@ == self@.ingredients[self@.ingredient_ids().index_of(id)]
            } else {
                r == Err::<&Ingredient, StoreError>(StoreError::NotFound)
            },
    {
        match self.ingredient_row(id) {
            Some(i) => {
                assert(self@.ingredient_ids()[i as int] == id);
                Ok(&self.ingredients[i])
            },
            None => Err(StoreError::NotFound),
        }
    }

    /// The price history of one ingredient, oldest first.
    pub fn prices_of(&self, ingredient_id: u32) -> (r: Result<Vec<Price>, StoreError>)
        ensures
            if self@.ingredient_ids().contains(ingredient_id) {
                r is Ok && r->Ok_0@ == self@.prices_of(ingredient_id)
            } else {
                r == Err::<Vec<Price>, StoreError>(StoreError::NotFound)
            },
    {
        if !self.has_ingredient(ingredient_id) {
            return Err(StoreError::NotFound);
        }
        let ghost wanted = |p: Price| p.ingredient_id == ingredient_id;
        let mut found: Vec<Price> = Vec::new();
        let mut i: usize = 0;
        proof {
            assert(self.prices@.take(0) =~= Seq::<Price>::empty());
            self.prices@.take(0).lemma_all_neg_filter_empty(wanted);
        }
        while i < self.prices.len()
            invariant
                i <= self.prices.len(),
                wanted == |p: Price| p.ingredient_id == ingredient_id,
                found@ == self.prices@.take(i as int).filter(wanted),
            decreases self.prices.len() - i,
        {
            proof {
                self.prices@.lemma_take_succ_push(i as int);
                self.prices@.take(i as int).lemma_filter_push(self.prices@[i as int], wanted);
            }
            if self.prices[i].ingredient_id == ingredient_id {
                found.push(self.prices[i]);
            }
            i += 1;
        }
        assert(self.prices@.take(i as int) =~= self.prices@);
        Ok(found)
    }

    /// The recipe lines of one dish, in the order they were recorded.
    pub fn recipe_of(&self, dish_id: u32) -> (r: Result<Vec<RecipeLine>, StoreError>)
        ensures
            if self@.dish_ids().contains(dish_id) {
                r is Ok && r->Ok_0@ == self@.recipe_of(dish_id)
            } else {
                r == Err::<Vec<RecipeLine>, StoreError>(StoreError::NotFound)
            },
    {
        if !self.has_dish(dish_id) {
            return Err(StoreError::NotFound);
        }
        let ghost wanted = |l: RecipeLine| l.dish_id == dish_id;
        let mut found: Vec<RecipeLine> = Vec::new();
        let mut i: usize = 0;
        proof {
            assert(self.recipes@.take(0) =~= Seq::<RecipeLine>::empty());
            self.recipes@.take(0).lemma_all_neg_filter_empty(wanted);
        }
        while i < self.recipes.len()
            invariant
                i <= self.recipes.len(),
                wanted == |l: RecipeLine| l.dish_id == dish_id,
                found@ == self.recipes@.take(i as int).filter(wanted),
            decreases self.recipes.len() - i,
        {
            proof {
                self.recipes@.lemma_take_succ_push(i as int);
                self.recipes@.take(i as int).lemma_filter_push(self.recipes@[i as int], wanted);
            }
            if self.recipes[i].dish_id == dish_id {
                found.push(self.recipes[i]);
            }
            i += 1;
        }
        assert(self.recipes@.take(i as int) =~= self.recipes@);
        Ok(found)
    }

    /// Adds a category to the reference set and returns its id.
    pub fn add_category(&mut self, name: &str) -> (r: Result<u32, StoreError>)
        requires
            old(self).wf(),
        ensures
            final(self).wf(),
            match old(self)@.add_category(name@) {
                Ok(t) => final(self)@ == t && r == Ok::<u32, StoreError>(t.categories.last().id),
                Err(e) => final(self)@ == old(self)@ && r == Err::<u32, StoreError>(e),
            },
    {
        let name = name.to_owned();
        if name.as_str().is_empty() {
            return Err(StoreError::Conflict);
        }
        if let Some(i) = self.category_position(&name) {
            assert(self@.category_names()[i as int] == name@);
            return Err(StoreError::Conflict);
        }
        let n = self.categories.len();
        let id: u32 = if n == 0 {
            1
        } else {
            let last = self.categories[n - 1].id;
            assert(old(self)@.category_ids().last() == last);
            if last == u32::MAX {
                return Err(StoreError::StorageIO);
            }
            last + 1
        };
        self.categories.push(Category { id, name });
        proof {
            let t = old(self)@.add_category(name@)->Ok_0;
            assert(self@.categories =~= t.categories);
            assert(self@ =~= t);
            add_category_keeps_wf(old(self)@, name@);
        }
        Ok(id)
    }

    /// Inserts an ingredient and returns its id.
    pub fn insert_ingredient(&mut self, category_id: u32, name: &str, lifespan: &str) -> (r:
        Result<u32, StoreError>)
        requires
            old(self).wf(),
        ensures
            final(self).wf(),
            match old(self)@.insert_ingredient(category_id, name@, lifespan@) {
                Ok(t) => final(self)@ == t && r == Ok::<u32, StoreError>(
                    t.ingredients.last().id,
                ),
                Err(e) => final(self)@ == old(self)@ && r == Err::<u32, StoreError>(e),
            },
    {
        if !self.has_category(category_id) {
            return Err(StoreError::NotFound);
        }
        let name = name.to_owned();
        if name.as_str().is_empty() {
            return Err(StoreError::Conflict);
        }
        if let Some(i) = self.ingredient_position(&name) {
            assert(self@.ingredient_names()[i as int] == name@);
            return Err(StoreError::Conflict);
        }
        let n = self.ingredients.len();
        let id: u32 = if n == 0 {
            1
        } else {
            let last = self.ingredients[n - 1].id;
            assert(old(self)@.ingredient_ids().last() == last);
            if last == u32::MAX {
                return Err(StoreError::StorageIO);
            }
            last + 1
        };
        self.ingredients.push(Ingredient { id, category_id, name, lifespan: lifespan.to_owned() });
        proof {
            let t = old(self)@.insert_ingredient(category_id, name@, lifespan@)->Ok_0;
            assert(self@.ingredients =~= t.ingredients);
            assert(self@ =~= t);
            insert_ingredient_keeps_wf(old(self)@, category_id, name@, lifespan@);
        }
        Ok(id)
    }

    /// Appends a price observation to the history of an ingredient and
    /// returns its id.
    pub fn insert_price(&mut self, ingredient_id: u32, amount: u32) -> (r: Result<u32, StoreError>)
        requires
            old(self).wf(),
        ensures
            final(self).wf(),
            match old(self)@.insert_price(ingredient_id, amount) {
                Ok(t) => final(self)@ == t && r == Ok::<u32, StoreError>(t.prices.last().id),
                Err(e) => final(self)@ == old(self)@ && r == Err::<u32, StoreError>(e),
            },
    {
        if !self.has_ingredient(ingredient_id) {
            return Err(StoreError::NotFound);
        }
        let n = self.prices.len();
        let id: u32 = if n == 0 {
            1
        } else {
            let last = self.prices[n - 1].id;
            assert(old(self)@.price_ids().last() == last);
            if last == u32::MAX {
                return Err(StoreError::StorageIO);
            }
            last + 1
        };
        self.prices.push(Price { id, ingredient_id, amount });
        proof {
            let t = old(self)@.insert_price(ingredient_id, amount)->Ok_0;
            assert(self@ =~= t);
            insert_price_keeps_wf(old(self)@, ingredient_id, amount);
        }
        Ok(id)
    }

    /// Inserts a dish and returns its id.
    pub fn insert_dish(&mut self, name: &str) -> (r: Result<u32, StoreError>)
        requires
            old(self).wf(),
        ensures
            final(self).wf(),
            match old(self)@.insert_dish(name@) {
                Ok(t) => final(self)@ == t && r == Ok::<u32, StoreError>(t.dishes.last().id),
                Err(e) => final(self)@ == old(self)@ && r == Err::<u32, StoreError>(e),
            },
    {
        let name = name.to_owned();
        if name.as_str().is_empty() {
            return Err(StoreError::Conflict);
        }
        if let Some(i) = self.dish_position(&name) {
            assert(self@.dish_names()[i as int] == name@);
            return Err(StoreError::Conflict);
        }
        let n = self.dishes.len();
        let id: u32 = if n == 0 {
            1
        } else {
            let last = self.dishes[n - 1].id;
            assert(old(self)@.dish_ids().last() == last);
            if last == u32::MAX {
                return Err(StoreError::StorageIO);
            }
            last + 1
        };
        self.dishes.push(Dish { id, name });
        proof {
            let t = old(self)@.insert_dish(name@)->Ok_0;
            assert(self@.dishes =~= t.dishes);
            assert(self@ =~= t);
            insert_dish_keeps_wf(old(self)@, name@);
        }
        Ok(id)
    }

    fn lists(&self, dish_id: u32, ingredient_id: u32) -> (found: bool)
        ensures
            found == self@.recipe_keys().contains((dish_id, ingredient_id)),
    {
        let mut i: usize = 0;
        while i < self.recipes.len()
            invariant
                i <= self.recipes.len(),
                forall|k: int| 0 <= k < i ==> self@.recipe_keys()[k] != (dish_id, ingredient_id),
            decreases self.recipes.len() - i,
        {
            if self.recipes[i].dish_id == dish_id && self.recipes[i].ingredient_id
                == ingredient_id {
                assert(self@.recipe_keys()[i as int] == (dish_id, ingredient_id));
                return true;
            }
            i += 1;
        }
        false
    }

    /// Records that a dish takes so many grams of an ingredient.
    pub fn insert_recipe_line(&mut self, dish_id: u32, ingredient_id: u32, quantity: u32) -> (r:
        Result<(), StoreError>)
        requires
            old(self).wf(),
        ensures
            final(self).wf(),
            match old(self)@.insert_recipe_line(dish_id, ingredient_id, quantity) {
                Ok(t) => final(self)@ == t && r is Ok,
                Err(e) => final(self)@ == old(self)@ && r == Err::<(), StoreError>(e),
            },
    {
        if !self.has_dish(dish_id) || !self.has_ingredient(ingredient_id) {
            return Err(StoreError::NotFound);
        }
        if quantity == 0 || self.lists(dish_id, ingredient_id) {
            return Err(StoreError::Conflict);
        }
        self.recipes.push(RecipeLine { dish_id, ingredient_id, quantity });
        proof {
            let t = old(self)@.insert_recipe_line(dish_id, ingredient_id, quantity)->Ok_0;
            assert(self@ =~= t);
            insert_recipe_line_keeps_wf(old(self)@, dish_id, ingredient_id, quantity);
        }
        Ok(())
    }

    /// Replaces the fields of one ingredient that are given and leaves the
    /// others as they are.
    pub fn update_ingredient(
        &mut self,
        id: u32,
        name: Option<&str>,
        lifespan: Option<&str>,
        category_id: Option<u32>,
    ) -> (r: Result<(), StoreError>)
        requires
            old(self).wf(),
        ensures
            final(self).wf(),
            match old(self)@.update_ingredient(
                id,
                text_of(name),
                text_of(lifespan),
                category_id,
            ) {
                Ok(t) => final(self)@ == t && r is Ok,
                Err(e) => final(self)@ == old(self)@ && r == Err::<(), StoreError>(e),
            },
    {
        let at = match self.ingredient_row(id) {
            Some(at) => at,
            None => {
                return Err(StoreError::NotFound);
            },
        };
        proof {
            assert(self@.ingredient_ids()[at as int] == id);
            assert(self@.ingredient_ids().index_of(id) == at);
        }
        let new_category: u32 = match category_id {
            Some(c) => {
                if !self.has_category(c) {
                    return Err(StoreError::NotFound);
                }
                c
            },
            None => self.ingredients[at].category_id,
        };
        let new_name: String = match name {
            Some(n) => {
                let n = n.to_owned();
                if n.as_str().is_empty() {
                    return Err(StoreError::Conflict);
                }
                if n != self.ingredients[at].name {
                    if let Some(i) = self.ingredient_position(&n) {
                        assert(self@.ingredient_names()[i as int] == n@);
                        return Err(StoreError::Conflict);
                    }
                }
                n
            },
            None => self.ingredients[at].name.clone(),
        };
        let new_lifespan: String = match lifespan {
            Some(l) => l.to_owned(),
            None => self.ingredients[at].lifespan.clone(),
        };
        self.ingredients.set(
            at,
            Ingredient { id, category_id: new_category, name: new_name, lifespan: new_lifespan },
        );
        proof {
            let t = old(self)@.update_ingredient(
                id,
                text_of(name),
                text_of(lifespan),
                category_id,
            )->Ok_0;
            assert(self@.ingredients =~= t.ingredients);
            assert(self@ =~= t);
            update_ingredient_keeps_wf(
                old(self)@,
                id,
                text_of(name),
                text_of(lifespan),
                category_id,
            );
        }
        Ok(())
    }
}

} // verus!
