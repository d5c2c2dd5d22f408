//! The web client's local text-block table: the names it uses and the rows
//! it starts with.

use vstd::prelude::*;

use crate::client_table_blueprints::table_defs::{Col, ColView};
use crate::typing::{decimal, push_decimal};

verus! {

pub const PAGE_TABLE_NAME: &'static str = "pages";
pub const UNCOMMITTED_DIFFS_TABLE_NAME: &'static str = "uncommitted_diffs";
pub const EVERY_BLOCK_IN_EXISTENCE_TABLE_NAME: &'static str = "every_block_in_existence";

/// The local table of text blocks.
pub const TEXT_BLOCKS_TABLE_NAME: &'static str = "text_blocks";

/// The columns the starting rows fill, in order.
pub fn text_block_column_names() -> (r: Vec<String>)
    ensures
        r@.len() == 3,
        r@[0]@ == "position"@,
        r@[1]@ == "content"@,
        r@[2]@ == "metadata"@,
{
    vec!["position".to_owned(), "content".to_owned(), "metadata".to_owned()]
}

/// The rows an empty text-block table starts with: five blocks at positions
/// 0 to 4, with empty content and metadata.
pub fn hardcoded_text_block_rows() -> (r: Vec<Vec<String>>)
    ensures
        r@.len() == 5,
        forall|i: int|
            0 <= i < 5 ==> (#[trigger] r@[i])@.len() == 3 && r@[i]@[0]@ == decimal(i as nat)
                && r@[i]@[1]@ == ""@ && r@[i]@[2]@ == ""@,
{
    let mut rows: Vec<Vec<String>> = Vec::new();
    let mut position_ctr: usize = 0;
    while position_ctr < 5
        invariant
            position_ctr <= 5,
            rows@.len() == position_ctr,
            forall|i: int|
                0 <= i < position_ctr ==> (#[trigger] rows@[i])@.len() == 3 && rows@[i]@[0]@
                    == decimal(i as nat) && rows@[i]@[1]@ == ""@ && rows@[i]@[2]@ == ""@,
        decreases 5 - position_ctr,
    {
        let mut position = String::new();
        push_decimal(&mut position, position_ctr);
        assert(position@ =~= decimal(position_ctr as nat));
        rows.push(vec![position, "".to_owned(), "".to_owned()]);
        position_ctr = position_ctr + 1;
    }
    rows
}

/// A row that lists a main-menu page: its first two values are texts.
pub open spec fn is_page_listing(row: Seq<Col>) -> bool {
    row.len() >= 2 && row[0]@ is Text && row[1]@ is Text
}

/// The title and the document id of a main-menu page, read from the first two
/// values of its row (any further values are ignored). A row that does not
/// start with two texts is refused (taking it apart panics).
pub fn destruct_row_for_local_pages(row: Vec<Col>) -> (r: (String, String))
    requires
        is_page_listing(row@),
    ensures
        row@[0]@ == ColView::Text(r.0@),
        row@[1]@ == ColView::Text(r.1@),
{
    let mut row = row;
    let second = row.remove(1);
    let first = row.remove(0);
    match (first, second) {
        (Col::Text(title), Col::Text(yrs_id)) => (title, yrs_id),
        _ => {
            assert(false);
            (String::new(), String::new())
        },
    }
}

} // verus!
