//! The tests that rows must pass before they are taken for the content of a
//! store.

use vstd::prelude::*;
use crate::database::schema::{ascending, distinct_names, keys_of, RecipeLine};
use crate::database::table::row_texts;

verus! {

/// Tells whether each id is positive and greater than the one before it.
pub fn ids_ascend(ids: &Vec<u32>) -> (b: bool)
    ensures
        b == ascending(ids@),
{
    let mut i: usize = 0;
    while i < ids.len()
        invariant
            i <= ids.len(),
            forall|k: int| 0 <= k < i ==> ids@[k] > 0,
            forall|k: int, l: int| 0 <= k < l < i ==> ids@[k] < ids@[l],
        decreases ids.len() - i,
    {
        if ids[i] == 0 {
            return false;
        }
        if i > 0 && ids[i - 1] >= ids[i] {
            return false;
        }
        assert forall|k: int, l: int| 0 <= k < l < i + 1 implies ids@[k] < ids@[l] by {
            if l == i && k < i - 1 {
                assert(ids@[k] < ids@[i - 1]);
            }
        }
        i += 1;
    }
    true
}

/// Tells whether no name is empty and none occurs twice.
pub fn names_differ(names: &Vec<String>) -> (b: bool)
    ensures
        b == distinct_names(row_texts(names@)),
{
    let ghost texts = row_texts(names@);
    let mut i: usize = 0;
    while i < names.len()
        invariant
            i <= names.len(),
            texts == row_texts(names@),
            forall|k: int| 0 <= k < i ==> (#[trigger] texts[k]).len() > 0,
            forall|k: int, l: int| 0 <= k < l < i ==> texts[k] != texts[l],
        decreases names.len() - i,
    {
        if names[i].as_str().is_empty() {
            assert(texts[i as int].len() == 0);
            return false;
        }
        let mut j: usize = 0;
        while j < i
            invariant
                j <= i < names.len(),
                texts == row_texts(names@),
                forall|k: int| 0 <= k < j ==> texts[k] != texts[i as int],
            decreases i - j,
        {
            if names[j] == names[i] {
                assert(texts[j as int] == texts[i as int]);
                return false;
            }
            j += 1;
        }
        i += 1;
    }
    true
}

/// Tells whether a number is among the ids.
pub fn is_among(id: u32, ids: &Vec<u32>) -> (b: bool)
    ensures
        b == ids@.contains(id),
{
    let mut i: usize = 0;
    while i < ids.len()
        invariant
            i <= ids.len(),
            forall|k: int| 0 <= k < i ==> ids@[k] != id,
        decreases ids.len() - i,
    {
        if ids[i] == id {
            return true;
        }
        i += 1;
    }
    false
}

/// Tells whether every reference is one of the ids.
pub fn all_among(refs: &Vec<u32>, ids: &Vec<u32>) -> (b: bool)
    ensures
        b == forall|k: int| 0 <= k < refs@.len() ==> ids@.contains(#[trigger] refs@[k]),
{
    let mut i: usize = 0;
    while i < refs.len()
        invariant
            i <= refs.len(),
            forall|k: int| 0 <= k < i ==> ids@.contains(#[trigger] refs@[k]),
        decreases refs.len() - i,
    {
        if !is_among(refs[i], ids) {
            return false;
        }
        i += 1;
    }
    true
}

/// Tells whether no dish lists an ingredient twice.
pub fn lines_differ(lines: &Vec<RecipeLine>) -> (b: bool)
    ensures
        b == keys_of(lines@).no_duplicates(),
{
    let ghost keys = keys_of(lines@);
    let mut i: usize = 0;
    while i < lines.len()
        invariant
            i <= lines.len(),
            keys == keys_of(lines@),
            forall|k: int, l: int| 0 <= k < l < i ==> keys[k] != keys[l],
        decreases lines.len() - i,
    {
        let mut j: usize = 0;
        while j < i
            invariant
                j <= i < lines.len(),
                keys == keys_of(lines@),
                forall|k: int| 0 <= k < j ==> keys[k] != keys[i as int],
            decreases i - j,
        {
            if lines[j].dish_id == lines[i].dish_id && lines[j].ingredient_id
                == lines[i].ingredient_id {
                assert(keys[j as int] == keys[i as int]);
                return false;
            }
            j += 1;
        }
        i += 1;
    }
    assert forall|k: int, l: int| 0 <= k < keys.len() && 0 <= l < keys.len() && k != l implies keys[k]
        != keys[l] by {
        if k < l {
            assert(keys[k] != keys[l]);
        } else {
            assert(keys[l] != keys[k]);
        }
    }
    true
}

/// Tells whether every line asks for a positive quantity.
pub fn quantities_positive(lines: &Vec<RecipeLine>) -> (b: bool)
    ensures
        b == forall|k: int| 0 <= k < lines@.len() ==> (#[trigger] lines@[k]).quantity > 0,
{
    let mut i: usize = 0;
    while i < lines.len()
        invariant
            i <= lines.len(),
            forall|k: int| 0 <= k < i ==> (#[trigger] lines@[k]).quantity > 0,
        decreases lines.len() - i,
    {
        if lines[i].quantity == 0 {
            return false;
        }
        i += 1;
    }
    true
}

} // verus!
