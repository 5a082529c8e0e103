//! The five tables as mathematical values, and the rows that carry them.

use vstd::prelude::*;

verus! {

/// Why the store refused an operation.
#[derive(Clone, Copy, Debug, PartialEq, Eq, Structural)]
pub enum StoreError {
    /// A name or an id that the operation refers to names no row.
    NotFound,
    /// The row would break a constraint of the schema: a name that is taken or
    /// empty, a recipe line that is already recorded or asks for nothing.
    Conflict,
    /// The storage under the tables could not take or give the row.
    StorageIO,
}

/// A category of ingredients.
#[derive(Clone, Debug, PartialEq, Eq)]
pub struct Category {
    pub id: u32,
    pub name: String,
}

/// An ingredient, with the category it belongs to and its shelf life as the
/// user wrote it.
#[derive(Clone, Debug, PartialEq, Eq)]
pub struct Ingredient {
    pub id: u32,
    pub category_id: u32,
    pub name: String,
    pub lifespan: String,
}

/// One price observation of an ingredient. The amount is kept as the bit
/// pattern of a single-precision number; the store never computes with it.
#[derive(Clone, Copy, Debug, PartialEq, Eq, Structural)]
pub struct Price {
    pub id: u32,
    pub ingredient_id: u32,
    pub amount: u32,
}

/// A dish.
#[derive(Clone, Debug, PartialEq, Eq)]
pub struct Dish {
    pub id: u32,
    pub name: String,
}

/// One requirement of a dish: so many grams of one ingredient.
#[derive(Clone, Copy, Debug, PartialEq, Eq, Structural)]
pub struct RecipeLine {
    pub dish_id: u32,
    pub ingredient_id: u32,
    pub quantity: u32,
}

/// A category as a mathematical value.
pub struct CategoryView {
    pub id: u32,
    pub name: Seq<char>,
}

/// An ingredient as a mathematical value.
pub struct IngredientView {
    pub id: u32,
    pub category_id: u32,
    pub name: Seq<char>,
    pub lifespan: Seq<char>,
}

/// A dish as a mathematical value.
pub struct DishView {
    pub id: u32,
    pub name: Seq<char>,
}

impl View for Category {
    type V = CategoryView;

    open spec fn view(&self) -> CategoryView {
        CategoryView { id: self.id, name: self.name@ }
    }
}

impl View for Ingredient {
    type V = IngredientView;

    open spec fn view(&self) -> IngredientView {
        IngredientView {
            id: self.id,
            category_id: self.category_id,
            name: self.name@,
            lifespan: self.lifespan@,
        }
    }
}

impl View for Dish {
    type V = DishView;

    open spec fn view(&self) -> DishView {
        DishView { id: self.id, name: self.name@ }
    }
}

/// The content of the five tables, each in the order of its rows.
#[verifier::ext_equal]
pub struct Tables {
    pub categories: Seq<CategoryView>,
    pub ingredients: Seq<IngredientView>,
    pub prices: Seq<Price>,
    pub dishes: Seq<DishView>,
    pub recipes: Seq<RecipeLine>,
}

/// The id that the next row of a table gets, given the ids it holds: one more
/// than the last, and 1 in an empty table.
pub open spec fn next_id(ids: Seq<u32>) -> int {
    if ids.len() == 0 {
        1
    } else {
        ids.last() + 1
    }
}

/// Each id is positive and greater than the one before it.
pub open spec fn ascending(ids: Seq<u32>) -> bool {
    &&& forall|i: int| 0 <= i < ids.len() ==> ids[i] > 0
    &&& forall|i: int, j: int| 0 <= i < j < ids.len() ==> ids[i] < ids[j]
}

/// No name is empty and none occurs twice.
pub open spec fn distinct_names(names: Seq<Seq<char>>) -> bool {
    &&& forall|i: int| 0 <= i < names.len() ==> (#[trigger] names[i]).len() > 0
    &&& forall|i: int, j: int| 0 <= i < j < names.len() ==> names[i] != names[j]
}

/// The pairs of dish and ingredient that recipe lines join.
pub open spec fn keys_of(lines: Seq<RecipeLine>) -> Seq<(u32, u32)> {
    lines.map_values(|l: RecipeLine| (l.dish_id, l.ingredient_id))
}

impl Tables {
    /// Tables without rows.
    pub open spec fn empty() -> Tables {
        Tables {
            categories: Seq::empty(),
            ingredients: Seq::empty(),
            prices: Seq::empty(),
            dishes: Seq::empty(),
            recipes: Seq::empty(),
        }
    }

    /// The ids of the categories, in row order.
    pub open spec fn category_ids(self) -> Seq<u32> {
        self.categories.map_values(|c: CategoryView| c.id)
    }

    /// The names of the categories, in row order.
    pub open spec fn category_names(self) -> Seq<Seq<char>> {
        self.categories.map_values(|c: CategoryView| c.name)
    }

    /// The ids of the ingredients, in row order.
    pub open spec fn ingredient_ids(self) -> Seq<u32> {
        self.ingredients.map_values(|r: IngredientView| r.id)
    }

    /// The names of the ingredients, in row order.
    pub open spec fn ingredient_names(self) -> Seq<Seq<char>> {
        self.ingredients.map_values(|r: IngredientView| r.name)
    }

    /// The ids of the price observations, in row order.
    pub open spec fn price_ids(self) -> Seq<u32> {
        self.prices.map_values(|p: Price| p.id)
    }

    /// The ids of the dishes, in row order.
    pub open spec fn dish_ids(self) -> Seq<u32> {
        self.dishes.map_values(|d: DishView| d.id)
    }

    /// The names of the dishes, in row order.
    pub open spec fn dish_names(self) -> Seq<Seq<char>> {
        self.dishes.map_values(|d: DishView| d.name)
    }

    /// The pairs of dish and ingredient that the recipe lines join.
    pub open spec fn recipe_keys(self) -> Seq<(u32, u32)> {
        keys_of(self.recipes)
    }

    /// What holds of the tables at all times: ids ascend in row order, names
    /// are distinct and not empty, every reference names a row, and a dish
    /// lists an ingredient at most once and in a positive quantity.
    pub open spec fn wf(self) -> bool {
        &&& ascending(self.category_ids())
        &&& ascending(self.ingredient_ids())
        &&& ascending(self.price_ids())
        &&& ascending(self.dish_ids())
        &&& distinct_names(self.category_names())
        &&& distinct_names(self.ingredient_names())
        &&& distinct_names(self.dish_names())
        &&& forall|i: int|
            0 <= i < self.ingredients.len() ==> self.category_ids().contains(
                (#[trigger] self.ingredients[i]).category_id,
            )
        &&& forall|i: int|
            0 <= i < self.prices.len() ==> self.ingredient_ids().contains(
                (#[trigger] self.prices[i]).ingredient_id,
            )
        &&& forall|i: int|
            0 <= i < self.recipes.len() ==> {
                &&& self.dish_ids().contains((#[trigger] self.recipes[i]).dish_id)
                &&& self.ingredient_ids().contains(self.recipes[i].ingredient_id)
                &&& self.recipes[i].quantity > 0
            }
        &&& self.recipe_keys().no_duplicates()
    }
}

impl Tables {
    /// The category of that name, if there is one.
    pub open spec fn find_category(self, name: Seq<char>) -> Option<CategoryView> {
        if self.category_names().contains(name) {
            Some(self.categories[self.category_names().index_of(name)])
        } else {
            None
        }
    }

    /// The ingredient of that name, if there is one.
    pub open spec fn find_ingredient(self, name: Seq<char>) -> Option<IngredientView> {
        if self.ingredient_names().contains(name) {
            Some(self.ingredients[self.ingredient_names().index_of(name)])
        } else {
            None
        }
    }

    /// The dish of that name, if there is one.
    pub open spec fn find_dish(self, name: Seq<char>) -> Option<DishView> {
        if self.dish_names().contains(name) {
            Some(self.dishes[self.dish_names().index_of(name)])
        } else {
            None
        }
    }

    /// The name of the ingredient with that id.
    pub open spec fn ingredient_name(self, id: u32) -> Seq<char> {
        self.ingredients[self.ingredient_ids().index_of(id)].name
    }

    /// The price observations of one ingredient, oldest first.
    pub open spec fn prices_of(self, ingredient_id: u32) -> Seq<Price> {
        self.prices.filter(|p: Price| p.ingredient_id == ingredient_id)
    }

    /// The recipe lines of one dish, in the order they were recorded.
    pub open spec fn recipe_of(self, dish_id: u32) -> Seq<RecipeLine> {
        self.recipes.filter(|l: RecipeLine| l.dish_id == dish_id)
    }

    /// The tables after a category of that name is added, or why it cannot be.
    pub open spec fn add_category(self, name: Seq<char>) -> Result<Tables, StoreError> {
        if name.len() == 0 || self.category_names().contains(name) {
            Err(StoreError::Conflict)
        } else if next_id(self.category_ids()) > u32::MAX {
            Err(StoreError::StorageIO)
        } else {
            Ok(
                Tables {
                    categories: self.categories.push(
                        CategoryView { id: next_id(self.category_ids()) as u32, name },
                    ),
                    ..self
                },
            )
        }
    }

    /// The tables after an ingredient is inserted, or why it cannot be: the
    /// category must exist, and the name must be new and not empty.
    pub open spec fn insert_ingredient(
        self,
        category_id: u32,
        name: Seq<char>,
        lifespan: Seq<char>,
    ) -> Result<Tables, StoreError> {
        if !self.category_ids().contains(category_id) {
            Err(StoreError::NotFound)
        } else if name.len() == 0 || self.ingredient_names().contains(name) {
            Err(StoreError::Conflict)
        } else if next_id(self.ingredient_ids()) > u32::MAX {
            Err(StoreError::StorageIO)
        } else {
            Ok(
                Tables {
                    ingredients: self.ingredients.push(
                        IngredientView {
                            id: next_id(self.ingredient_ids()) as u32,
                            category_id,
                            name,
                            lifespan,
                        },
                    ),
                    ..self
                },
            )
        }
    }

    /// The tables after a price observation is appended to the history of an
    /// ingredient, or why it cannot be: the ingredient must exist.
    pub open spec fn insert_price(self, ingredient_id: u32, amount: u32) -> Result<
        Tables,
        StoreError,
    > {
        if !self.ingredient_ids().contains(ingredient_id) {
            Err(StoreError::NotFound)
        } else if next_id(self.price_ids()) > u32::MAX {
            Err(StoreError::StorageIO)
        } else {
            Ok(
                Tables {
                    prices: self.prices.push(
                        Price { id: next_id(self.price_ids()) as u32, ingredient_id, amount },
                    ),
                    ..self
                },
            )
        }
    }

    /// The tables after a dish is inserted, or why it cannot be: the name must
    /// be new and not empty.
    pub open spec fn insert_dish(self, name: Seq<char>) -> Result<Tables, StoreError> {
        if name.len() == 0 || self.dish_names().contains(name) {
            Err(StoreError::Conflict)
        } else if next_id(self.dish_ids()) > u32::MAX {
            Err(StoreError::StorageIO)
        } else {
            Ok(
                Tables {
                    dishes: self.dishes.push(
                        DishView { id: next_id(self.dish_ids()) as u32, name },
                    ),
                    ..self
                },
            )
        }
    }

    /// The tables after a recipe line is recorded, or why it cannot be: the
    /// dish and the ingredient must exist, the quantity must be positive, and
    /// the dish must not list the ingredient yet.
    pub open spec fn insert_recipe_line(
        self,
        dish_id: u32,
        ingredient_id: u32,
        quantity: u32,
    ) -> Result<Tables, StoreError> {
        if !self.dish_ids().contains(dish_id) || !self.ingredient_ids().contains(ingredient_id) {
            Err(StoreError::NotFound)
        } else if quantity == 0 || self.recipe_keys().contains((dish_id, ingredient_id)) {
            Err(StoreError::Conflict)
        } else {
            Ok(
                Tables {
                    recipes: self.recipes.push(RecipeLine { dish_id, ingredient_id, quantity }),
                    ..self
                },
            )
        }
    }

    /// The tables after some fields of one ingredient are replaced, or why
    /// they cannot be. A field given as `None` stays as it is. The ingredient
    /// and a new category must exist; a new name must not be empty nor be the
    /// name of another ingredient.
    pub open spec fn update_ingredient(
        self,
        id: u32,
        name: Option<Seq<char>>,
        lifespan: Option<Seq<char>>,
        category_id: Option<u32>,
    ) -> Result<Tables, StoreError> {
        if !self.ingredient_ids().contains(id) {
            Err(StoreError::NotFound)
        } else if category_id is Some && !self.category_ids().contains(category_id->0) {
            Err(StoreError::NotFound)
        } else {
            let at = self.ingredient_ids().index_of(id);
            let row = self.ingredients[at];
            if name is Some && (name->0.len() == 0 || (name->0 != row.name
                && self.ingredient_names().contains(name->0))) {
                Err(StoreError::Conflict)
            } else {
                Ok(
                    Tables {
                        ingredients: self.ingredients.update(
                            at,
                            IngredientView {
                                id,
                                category_id: if category_id is Some {
                                    category_id->0
                                } else {
                                    row.category_id
                                },
                                name: if name is Some {
                                    name->0
                                } else {
                                    row.name
                                },
                                lifespan: if lifespan is Some {
                                    lifespan->0
                                } else {
                                    row.lifespan
                                },
                            },
                        ),
                        ..self
                    },
                )
            }
        }
    }
}

} // verus!
