//! The arithmetic of drawing: what a table, its scrollbar and the popups
//! of the browser take of the screen. The drawing itself is left to the
//! terminal front end.
use vstd::prelude::*;
use crate::view::{
    basic_constraints_to_table_constraints, share_room, shares_fit, fixed_total, width_of,
    BasicConstraint,
};

verus! {

/// `a - b`, or zero when `b` is larger.
pub open spec fn sat_sub(a: int, b: int) -> int {
    if a > b { a - b } else { 0 }
}

/// How a table is laid out in its panel.
#[derive(Debug)]
pub struct TableLayout {
    /// The width of each column.
    pub widths: Vec<u16>,
    /// The rows that fit under the borders and the heading.
    pub visible_rows: usize,
    /// How many lines the scrollbar can move over.
    pub scrollable_lines: u16,
}

/// The layout of a table of `number_items` rows in a panel of
/// `chunk_width` by `chunk_height` cells: the columns share the width
/// inside the two side borders, one cell of margin each; four lines go to
/// the borders and the heading. The count of lines to scroll is cut to 16
/// bits, as the scrollbar keeps it.
pub fn table_layout(
    layout: &[BasicConstraint],
    chunk_width: u16,
    chunk_height: u16,
    number_items: usize,
) -> (r: TableLayout)
    requires
        fixed_total(layout@, 1) <= u16::MAX,
        shares_fit(layout@, share_room(layout@, sat_sub(chunk_width as int, 2) as u16, 1)),
    ensures
        r.widths@.len() == layout@.len(),
        forall|i: int| 0 <= i < r.widths@.len() ==> #[trigger] r.widths@[i] == width_of(
            layout@[i],
            share_room(layout@, sat_sub(chunk_width as int, 2) as u16, 1),
        ),
        r.visible_rows == sat_sub(chunk_height as int, 4),
        r.scrollable_lines == (sat_sub(number_items as int, r.visible_rows as int) as usize) as u16,
{
    let inner_width: u16 = if chunk_width > 2 { chunk_width - 2 } else { 0 };
    let widths = basic_constraints_to_table_constraints(layout, inner_width, 1);
    let visible_rows: usize = if chunk_height > 4 { (chunk_height - 4) as usize } else { 0 };
    let beyond: usize = if number_items > visible_rows { number_items - visible_rows } else { 0 };
    TableLayout { widths, visible_rows, scrollable_lines: beyond as u16 }
}

/// Where the scrollbar's thumb stands: the table's offset, at most the
/// lines there are to scroll.
pub fn scrollbar_position(offset: usize, scrollable_lines: u16) -> (r: u16)
    ensures
        r as int == if offset < scrollable_lines { offset as int } else { scrollable_lines as int },
{
    if offset < scrollable_lines as usize {
        offset as u16
    } else {
        scrollable_lines
    }
}

/// The headings of the columns that can be sorted, in column order.
pub open spec fn sortable_headings_of(headings: Seq<Seq<char>>, sortable: Seq<usize>) -> Seq<Seq<char>>
    decreases headings.len(),
{
    if headings.len() == 0 {
        Seq::empty()
    } else {
        let before = sortable_headings_of(headings.drop_last(), sortable);
        if sortable.contains((headings.len() - 1) as usize) {
            before.push(headings.last())
        } else {
            before
        }
    }
}

fn contains_column(cols: &[usize], c: usize) -> (r: bool)
    ensures
        r == cols@.contains(c),
{
    let mut i: usize = 0;
    while i < cols.len()
        invariant
            i <= cols.len(),
            forall|k: int| 0 <= k < i ==> cols@[k] != c,
        decreases cols.len() - i,
    {
        if cols[i] == c {
            return true;
        }
        i = i + 1;
    }
    false
}

/// The entries of the sort popup: the headings of the sortable columns.
pub fn sortable_headings(headings: &Vec<String>, sortable_columns: &[usize]) -> (r: Vec<String>)
    ensures
        r@.map_values(|h: String| h@) == sortable_headings_of(
            headings@.map_values(|h: String| h@),
            sortable_columns@,
        ),
{
    let ghost hs = headings@.map_values(|h: String| h@);
    let mut out: Vec<String> = Vec::new();
    let mut i: usize = 0;
    while i < headings.len()
        invariant
            i <= headings.len(),
            hs == headings@.map_values(|h: String| h@),
            out@.map_values(|h: String| h@) == sortable_headings_of(hs.subrange(0, i as int), sortable_columns@),
        decreases headings.len() - i,
    {
        let ghost before = out@;
        assert(hs.subrange(0, i + 1).drop_last() =~= hs.subrange(0, i as int));
        if contains_column(sortable_columns, i) {
            out.push(headings[i].clone());
            assert(out@.map_values(|h: String| h@) =~= before.map_values(|h: String| h@).push(hs[i as int]));
        }
        i = i + 1;
    }
    assert(hs.subrange(0, headings@.len() as int) =~= hs);
    out
}

/// The height of the suggestions popup: a line for each suggestion and
/// one for the divider, at most what 16 bits hold.
pub fn suggestion_popup_height(suggestions: usize) -> (r: u16)
    requires
        suggestions < usize::MAX,
    ensures
        r as int == if suggestions + 1 <= u16::MAX { suggestions + 1 } else { u16::MAX as int },
{
    let height = suggestions + 1;
    if height <= u16::MAX as usize {
        height as u16
    } else {
        u16::MAX
    }
}

}
