//! Printable tables. The listings fill a `prettytable::Table`; what such a
//! table holds is known to the proofs only through the contracts of
//! `Table::new` and of the private `push_cells`, which are taken on trust
//! from the source of that crate.

use vstd::prelude::*;
use prettytable::{Cell, Row, Table};
use crate::text::{is_escape, plain, plain_text};

verus! {

#[verifier::external_type_specification]
#[verifier::external_body]
pub struct ExTable(Table);

/// The rows of a table, top to bottom: for each row its cells, left to right,
/// and for each cell the text it holds.
pub uninterp spec fn table_rows(table: Table) -> Seq<Seq<Seq<char>>>;

/// The text that a cell made from `text` holds: `text` cut into lines and the
/// lines joined again by line feeds.
pub uninterp spec fn cell_text(text: Seq<char>) -> Seq<char>;

/// No line feed and no carriage return occurs in the text.
pub open spec fn single_line(text: Seq<char>) -> bool {
    !text.contains('\n') && !text.contains('\r')
}

/// No escape character occurs in the text.
pub open spec fn printable(text: Seq<char>) -> bool {
    forall|i: int| 0 <= i < text.len() ==> !is_escape(#[trigger] text[i])
}

/// The text of a cell made from a printable `text`: the text itself where it
/// is a single line.
pub open spec fn shown(text: Seq<char>) -> Seq<char> {
    if single_line(text) {
        text
    } else {
        cell_text(text)
    }
}

/// The text that the cell for `text` holds in a table of this library: that
/// of a cell made from `text` with its escape characters replaced.
pub open spec fn cell(text: Seq<char>) -> Seq<char> {
    shown(plain_text(text))
}

/// The texts that the cells for a row of texts hold.
pub open spec fn cells(texts: Seq<Seq<char>>) -> Seq<Seq<char>> {
    Seq::new(texts.len(), |i: int| cell(texts[i]))
}

/// The texts that the cells for rows of texts hold, row by row.
pub open spec fn grid(rows: Seq<Seq<Seq<char>>>) -> Seq<Seq<Seq<char>>> {
    Seq::new(rows.len(), |i: int| cells(rows[i]))
}

/// The characters of each text of a row.
pub open spec fn row_texts(row: Seq<String>) -> Seq<Seq<char>> {
    Seq::new(row.len(), |i: int| row[i]@)
}

/// The characters of each text of each row.
pub open spec fn grid_texts(rows: Seq<Vec<String>>) -> Seq<Seq<Seq<char>>> {
    Seq::new(rows.len(), |i: int| row_texts(rows[i]@))
}

/// `Table::new`: the new table has no rows.
pub assume_specification[ Table::new ]() -> (table: Table)
    ensures
        table_rows(table) == Seq::<Seq<Seq<char>>>::empty(),
;

/// `Table::add_row` on `Row::new` of one `Cell::new` per text: the row is
/// appended below the rows that the table had, which stay as they were. A
/// cell holds the lines of its text joined by line feeds, which for a text
/// without line breaks is the text itself. `Cell::new` measures the width of
/// the text and gives up on some texts that hold an escape sequence: no text
/// may hold an escape character.
#[verifier::external_body]
fn push_cells(table: &mut Table, texts: &Vec<String>)
    requires
        forall|i: int| 0 <= i < texts.len() ==> printable(#[trigger] texts[i]@),
    ensures
        table_rows(*final(table)) == table_rows(*old(table)).push(
            Seq::new(
                texts.len() as nat,
                |i: int|
                    if single_line(texts[i]@) {
                        texts[i]@
                    } else {
                        cell_text(texts[i]@)
                    },
            ),
        ),
{
    table.add_row(Row::new(texts.iter().map(|t| Cell::new(t)).collect()));
}

/// Appends one row below the rows of the table, with one cell per text.
fn add_row(table: &mut Table, texts: &Vec<String>)
    ensures
        table_rows(*final(table)) == table_rows(*old(table)).push(cells(row_texts(texts@))),
{
    let mut plain_texts: Vec<String> = Vec::new();
    let mut i: usize = 0;
    while i < texts.len()
        invariant
            i <= texts.len(),
            plain_texts@.len() == i,
            forall|k: int| 0 <= k < i ==> (#[trigger] plain_texts@[k])@ == plain_text(texts@[k]@),
        decreases texts.len() - i,
    {
        plain_texts.push(plain(texts[i].as_str()));
        i += 1;
    }
    push_cells(table, &plain_texts);
    assert(cells(row_texts(texts@)) =~= Seq::new(
        plain_texts.len() as nat,
        |i: int|
            if single_line(plain_texts[i]@) {
                plain_texts[i]@
            } else {
                cell_text(plain_texts[i]@)
            },
    ));
}

/// A table of the given rows, top to bottom.
pub fn table_of(rows: &Vec<Vec<String>>) -> (table: Table)
    ensures
        table_rows(table) == grid(grid_texts(rows@)),
{
    let mut table = Table::new();
    let mut i: usize = 0;
    while i < rows.len()
        invariant
            i <= rows.len(),
            table_rows(table) == grid(grid_texts(rows@.take(i as int))),
        decreases rows.len() - i,
    {
        add_row(&mut table, &rows[i]);
        assert(grid(grid_texts(rows@.take(i + 1))) =~= grid(
            grid_texts(rows@.take(i as int)),
        ).push(cells(row_texts(rows@[i as int]@))));
        i += 1;
    }
    assert(rows@.take(i as int) =~= rows@);
    table
}

} // verus!
