use civitai_tui::forms::MainTab;
use civitai_tui::picks::DetailPicks;

#[test]
fn versions_are_picked_per_model() {
    let mut p = DetailPicks::new();
    let versions = vec![10, 11, 12];
    assert_eq!(p.selected_version_index(1), 0);
    p.select_next_version(1, &versions);
    assert_eq!(p.selected_version_index(1), 1);
    assert_eq!(p.file_index.get(&11), Some(&0));
    p.select_next_version(1, &versions);
    p.select_next_version(1, &versions);
    assert_eq!(p.selected_version_index(1), 2);
    assert_eq!(p.selected_version_index(2), 0);

    p.select_previous_version(1, &versions);
    assert_eq!(p.selected_version_index(1), 1);
    p.select_previous_version(1, &versions);
    p.select_previous_version(1, &versions);
    assert_eq!(p.selected_version_index(1), 0);
    assert_eq!(p.file_index.get(&10), Some(&0));
}

#[test]
fn a_picked_file_is_kept_when_its_version_is_picked_again() {
    let mut p = DetailPicks::new();
    let versions = vec![10, 11];
    p.file_index.insert(11, 3);
    p.select_next_version(1, &versions);
    assert_eq!(p.selected_file_index(11), 3);
}

#[test]
fn next_and_previous_version_return() {
    let mut p = DetailPicks::new();
    let versions = vec![10, 11, 12];
    p.version_index.insert(7, 1);
    p.select_next_version(7, &versions);
    p.select_previous_version(7, &versions);
    assert_eq!(p.selected_version_index(7), 1);
}

#[test]
fn files_are_picked_within_the_picked_version() {
    let mut p = DetailPicks::new();
    let versions = vec![10, 11];
    let files = vec![2, 0];
    p.select_next_file(1, &versions, &files);
    assert_eq!(p.selected_file_index(10), 1);
    p.select_next_file(1, &versions, &files);
    assert_eq!(p.selected_file_index(10), 1);
    p.select_previous_file(1, &versions);
    assert_eq!(p.selected_file_index(10), 0);
    p.select_previous_file(1, &versions);
    assert_eq!(p.selected_file_index(10), 0);

    // A version without files keeps no pick.
    p.version_index.insert(1, 1);
    p.select_next_file(1, &versions, &files);
    assert_eq!(p.file_index.get(&11), None);

    // A pick past the end names the last version.
    p.version_index.insert(2, 9);
    p.select_next_file(2, &vec![20, 21], &vec![1, 3]);
    assert_eq!(p.selected_file_index(21), 1);
}

#[test]
fn image_models_are_picked_on_image_tabs_only() {
    let mut p = DetailPicks::new();
    p.select_next_image_model(MainTab::Models, 5, 3);
    assert!(p.image_model_index.is_empty());
    p.select_next_image_model(MainTab::Images, 5, 0);
    assert!(p.image_model_index.is_empty());
    p.select_next_image_model(MainTab::Images, 5, 2);
    assert_eq!(p.selected_image_model_index(5), 1);
    p.select_next_image_model(MainTab::SavedImages, 5, 2);
    assert_eq!(p.selected_image_model_index(5), 1);
    p.select_previous_image_model(MainTab::Images, 5);
    assert_eq!(p.selected_image_model_index(5), 0);
    p.select_previous_image_model(MainTab::Downloads, 6);
    assert_eq!(p.image_model_index.get(&6), None);
    p.select_previous_image_model(MainTab::Images, 6);
    assert_eq!(p.image_model_index.get(&6), Some(&0));
}
