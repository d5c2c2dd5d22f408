use text_diff::fun_drag::{start_dragging, stop_dragging};
use text_diff::client_table_blueprints::table_defs::Col;
use text_diff::web_interface::destruct_row_for_local_pages;
use text_diff::fun_drag::{position_limits, BoxSettings, ContainerSize, ImmovableObjectSettings};
use text_diff::text_blocks::move_block;
use text_diff::web_interface::{hardcoded_text_block_rows, text_block_column_names};

#[test]
fn moving_a_block_shifts_the_others() {
    let mut v = vec!['a', 'b', 'c', 'd'];
    move_block(&mut v, 0, 2);
    assert_eq!(v, vec!['b', 'c', 'a', 'd']);
    move_block(&mut v, 2, 0);
    assert_eq!(v, vec!['a', 'b', 'c', 'd']);
    move_block(&mut v, 3, 1);
    assert_eq!(v, vec!['a', 'd', 'b', 'c']);
}

#[test]
fn boxes_fit_inside_the_container() {
    let c = ContainerSize { height: 300, width: 500 };
    assert_eq!(position_limits(&c, &BoxSettings { height: 100, width: 120 }), (380, 200));
    assert_eq!(position_limits(&c, &BoxSettings { height: 400, width: 600 }), (0, 0));
    let imm = ImmovableObjectSettings::new(300, 500);
    assert_eq!((imm.width, imm.height), (300, 500));
}

#[test]
fn starting_text_blocks() {
    assert_eq!(text_block_column_names(), vec!["position", "content", "metadata"]);
    let rows = hardcoded_text_block_rows();
    assert_eq!(rows.len(), 5);
    for (i, row) in rows.iter().enumerate() {
        assert_eq!(row, &vec![i.to_string(), String::new(), String::new()]);
    }
}

#[test]
fn page_listing_rows_give_title_and_id() {
    let row = vec![Col::Text("Title 1".to_string()), Col::Text("yrs-9".to_string()), Col::Integer(3)];
    assert_eq!(destruct_row_for_local_pages(row), ("Title 1".to_string(), "yrs-9".to_string()));
}

#[test]
fn dragging_ids_join_and_leave() {
    let mut ids = vec![3u32, 1, 3, 2];
    start_dragging(&mut ids, 3);
    assert_eq!(ids, vec![3, 1, 3, 2, 3]);
    stop_dragging(&mut ids, 3);
    assert_eq!(ids, vec![1, 2]);
    stop_dragging(&mut ids, 9);
    assert_eq!(ids, vec![1, 2]);
}
