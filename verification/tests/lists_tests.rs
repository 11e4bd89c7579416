use civitai_tui::lists::{move_list_selection_by, select_list_first, select_list_last};

#[test]
fn paging_stays_within_the_list() {
    assert_eq!(move_list_selection_by(Some(3), 20, 10), Some(13));
    assert_eq!(move_list_selection_by(Some(15), 20, 10), Some(19));
    assert_eq!(move_list_selection_by(Some(4), 20, -10), Some(0));
    assert_eq!(move_list_selection_by(None, 5, 2), Some(2));
    assert_eq!(move_list_selection_by(Some(9), 5, 0), Some(4));
    assert_eq!(move_list_selection_by(Some(1), 0, 10), None);
}

#[test]
fn first_and_last_entries() {
    assert_eq!(select_list_first(0), None);
    assert_eq!(select_list_first(3), Some(0));
    assert_eq!(select_list_last(0), None);
    assert_eq!(select_list_last(3), Some(2));
}
