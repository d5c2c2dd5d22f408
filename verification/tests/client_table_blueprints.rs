use text_diff::client_table_blueprints::key_value_storage::key_value_storage_columns;
use text_diff::client_table_blueprints::macro_explained::example::{
    bable_lade_col1, bable_lade_col2, table_name_bable_lade, BABLE_LADE, COL1, COL2,
};
use text_diff::client_table_blueprints::new_row_helper::{
    new_incoming_love_letter_row, new_key_value_item, new_log_row, new_page_row,
};
use text_diff::client_table_blueprints::table_defs::{Col, ColumnValue};
use text_diff::client_table_blueprints::tbl_backlinks::{
    backlinks_page_that_holds_link_id, get_foreign_def_backlinks, new_backlink_row,
    table_name_backlinks,
};
use text_diff::client_table_blueprints::tbl_every_block_in_existence::get_foreign_def_every_block_in_existence;
use text_diff::client_table_blueprints::tbl_pages::{pages_page_id, table_name_pages};

#[test]
fn consts_exist() {
    assert_eq!(BABLE_LADE, "namle_tabe");
    assert_eq!(COL1, "name");
    assert_eq!(COL2, "age");
}

#[test]
fn getters_return_const_values() {
    assert_eq!(table_name_bable_lade(), BABLE_LADE);
    assert_eq!(bable_lade_col1(), COL1);
    assert_eq!(bable_lade_col2(), COL2);
}

#[test]
fn table_getters_name_the_tables() {
    assert_eq!(table_name_backlinks(), "backlinks");
    assert_eq!(backlinks_page_that_holds_link_id(), "page_that_holds_link_id");
    assert_eq!(table_name_pages(), "pages");
    assert_eq!(pages_page_id(), "page_id");
}

#[test]
fn foreign_keys_point_at_pages() {
    let fks = get_foreign_def_backlinks();
    assert_eq!(fks.len(), 2);
    assert_eq!(fks[0].column, "page_that_holds_link_id");
    assert_eq!(fks[1].column, "page_being_linked_to_id");
    for fk in fks.iter() {
        assert_eq!(fk.referenced_table, "pages");
        assert_eq!(fk.referenced_column, "page_id");
    }
    let fks = get_foreign_def_every_block_in_existence();
    assert_eq!(fks.len(), 1);
    assert_eq!(fks[0].column, "id_of_page_i_belong_to");
}

#[test]
fn key_value_columns_are_written_out() {
    let cols = key_value_storage_columns();
    assert_eq!(cols.len(), 2);
    assert_eq!(cols[0].name, "key");
    assert!(cols[0].primary_key);
    assert_eq!(cols[1].name, "value");
    assert!(!cols[1].primary_key);
    for c in cols.iter() {
        assert_eq!(c.column_type, "TEXT");
        assert!(c.not_null && !c.unique && !c.autoincrement);
        assert_eq!(c.default_value, "");
    }
}

fn cv(name: &str, value: Col) -> ColumnValue {
    ColumnValue { column_name: name.to_string(), value }
}

#[test]
fn page_row_holds_its_columns_in_order() {
    let row = new_page_row("p1".to_string(), true, vec![1, 2], vec![3], vec![4]);
    assert_eq!(
        row,
        vec![
            cv("page_id", Col::Text("p1".to_string())),
            cv("blobbed_page", Col::Blob(vec![1, 2])),
            cv("page_status", Col::Blob(vec![4])),
            cv("version", Col::Blob(vec![3])),
            cv("is_main_menu_page", Col::Text("true".to_string())),
        ]
    );
    let row = new_page_row("p2".to_string(), false, vec![], vec![], vec![]);
    assert_eq!(row[4], cv("is_main_menu_page", Col::Text("false".to_string())));
}

#[test]
fn log_row_stores_missing_details_as_null() {
    let row = new_log_row(
        "info".to_string(),
        "cat".to_string(),
        "src".to_string(),
        "s1".to_string(),
        "msg".to_string(),
        None,
        Some("json".to_string()),
        42,
    );
    assert_eq!(row[0], cv("timestamp", Col::Integer(42)));
    assert_eq!(row[6], cv("details", Col::Null));
    assert_eq!(row[7], cv("details_type", Col::Text("json".to_string())));
    assert_eq!(row.len(), 8);
}

#[test]
fn love_letter_row_starts_unapplied() {
    let row = new_incoming_love_letter_row(vec![9], "page".to_string(), "s".to_string(), 7);
    assert_eq!(row[2], cv("timestamp", Col::Integer(7)));
    assert_eq!(row[3], cv("applied", Col::Text("false".to_string())));
}

#[test]
fn key_value_and_backlink_rows() {
    assert_eq!(
        new_key_value_item("k".to_string(), "v".to_string()),
        vec![cv("key", Col::Text("k".to_string())), cv("value", Col::Text("v".to_string()))]
    );
    let row = new_backlink_row("a".to_string(), "b".to_string(), vec![0], vec![1]);
    assert_eq!(row[2], cv("disabled", Col::Blob(vec![0])));
    assert_eq!(row[3], cv("version", Col::Blob(vec![1])));
}
