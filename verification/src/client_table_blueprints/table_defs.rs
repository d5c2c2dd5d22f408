//! Plain-value descriptions of columns, foreign keys and row values.

use vstd::prelude::*;

verus! {

/// How a column is declared when its table is created.
#[derive(Debug, Clone, PartialEq)]
pub struct ColumnDef {
    pub name: String,
    pub column_type: String,
    pub primary_key: bool,
    pub not_null: bool,
    pub unique: bool,
    pub default_value: String,
    pub autoincrement: bool,
}

/// A column that refers to a column of another table.
#[derive(Debug, Clone, PartialEq)]
pub struct ForeignKeyDef {
    pub column: String,
    pub referenced_table: String,
    pub referenced_column: String,
}

/// A value stored in a column.
#[derive(Debug, Clone, PartialEq)]
pub enum Col {
    Null,
    Integer(i64),
    Text(String),
    Blob(Vec<u8>),
}

/// The abstract value of a [`Col`].
pub ghost enum ColView {
    Null,
    Integer(i64),
    Text(Seq<char>),
    Blob(Seq<u8>),
}

impl View for Col {
    type V = ColView;

    open spec fn view(&self) -> ColView {
        match self {
            Col::Null => ColView::Null,
            Col::Integer(i) => ColView::Integer(*i),
            Col::Text(t) => ColView::Text(t@),
            Col::Blob(b) => ColView::Blob(b@),
        }
    }
}

/// One column's value in a row to insert.
#[derive(Debug, Clone, PartialEq)]
pub struct ColumnValue {
    pub column_name: String,
    pub value: Col,
}

impl View for ColumnValue {
    type V = (Seq<char>, ColView);

    open spec fn view(&self) -> (Seq<char>, ColView) {
        (self.column_name@, self.value@)
    }
}

/// The abstract values of a row.
pub open spec fn row_view(row: Seq<ColumnValue>) -> Seq<(Seq<char>, ColView)> {
    row.map_values(|c: ColumnValue| c@)
}

/// The abstract value of a foreign key: (column, referenced table,
/// referenced column).
pub open spec fn fk_view(fk: ForeignKeyDef) -> (Seq<char>, Seq<char>, Seq<char>) {
    (fk.column@, fk.referenced_table@, fk.referenced_column@)
}

/// A text value for `column_name`.
pub fn text_value(column_name: &str, value: String) -> (r: ColumnValue)
    ensures
        r@ == (column_name@, ColView::Text(value@)),
{
    ColumnValue { column_name: column_name.to_owned(), value: Col::Text(value) }
}

/// A blob value for `column_name`.
pub fn blob_value(column_name: &str, value: Vec<u8>) -> (r: ColumnValue)
    ensures
        r@ == (column_name@, ColView::Blob(value@)),
{
    ColumnValue { column_name: column_name.to_owned(), value: Col::Blob(value) }
}

/// `"true"` or `"false"`.
pub fn bool_text(b: bool) -> (r: String)
    ensures
        r@ == (if b {
            "true"@
        } else {
            "false"@
        }),
{
    if b {
        "true".to_owned()
    } else {
        "false".to_owned()
    }
}

} // verus!
