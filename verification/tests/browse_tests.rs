use civitai_tui::app::App;
use civitai_tui::browse::{
    can_request_more_images, can_request_more_models, near_end_of_models, next_selection_follow_up, BrowseLists,
    ImageFeed, ListSizes, ModelPaging,
};
use civitai_tui::forms::{AppMode, MainTab};
use civitai_tui::savedmodels::LikedModels;

fn lists() -> BrowseLists {
    BrowseLists { image_index: 0, saved_image_index: 0, model_selected: None }
}

fn sizes(images: usize, saved_images: usize, models: usize, saved_models: usize) -> ListSizes {
    ListSizes { images, saved_images, models, saved_models }
}

fn paging() -> ModelPaging {
    ModelPaging { has_more: true, loading_more: false, next_page: Some(2) }
}

fn feed() -> ImageFeed {
    ImageFeed { loaded: true, loading: false, has_more: true, next_page: Some(3) }
}

#[test]
fn stepping_down_stays_on_the_last_entry() {
    let s = sizes(2, 1, 3, 2);
    let mut l = lists();
    let mut saved: Option<usize> = None;
    assert!(!l.select_next(&mut saved, MainTab::Images, s));
    assert_eq!(l.image_index, 1);
    assert!(!l.select_next(&mut saved, MainTab::Images, s));
    assert_eq!(l.image_index, 1);

    assert!(!l.select_next(&mut saved, MainTab::SavedImages, s));
    assert_eq!(l.saved_image_index, 0);

    // A missing model selection counts as the first entry.
    assert!(l.select_next(&mut saved, MainTab::Models, s));
    assert_eq!(l.model_selected, Some(1));
    assert!(l.select_next(&mut saved, MainTab::Models, s));
    assert_eq!(l.model_selected, Some(2));
    assert!(!l.select_next(&mut saved, MainTab::Models, s));
    assert_eq!(l.model_selected, Some(2));

    // A missing saved-model selection becomes the first entry.
    assert!(l.select_next(&mut saved, MainTab::SavedModels, s));
    assert_eq!(saved, Some(0));
    assert!(l.select_next(&mut saved, MainTab::SavedModels, s));
    assert_eq!(saved, Some(1));
    assert!(!l.select_next(&mut saved, MainTab::SavedModels, s));

    let before = l;
    assert!(!l.select_next(&mut saved, MainTab::Downloads, s));
    assert_eq!(l, before);
}

#[test]
fn stepping_up_stays_on_the_first_entry() {
    let mut l = BrowseLists { image_index: 1, saved_image_index: 0, model_selected: Some(1) };
    let mut saved: Option<usize> = None;
    assert!(!l.select_previous(&mut saved, MainTab::Images));
    assert_eq!(l.image_index, 0);
    assert!(!l.select_previous(&mut saved, MainTab::Images));
    assert_eq!(l.image_index, 0);
    assert!(l.select_previous(&mut saved, MainTab::Models));
    assert_eq!(l.model_selected, Some(0));
    assert!(!l.select_previous(&mut saved, MainTab::Models));
    assert!(!l.select_previous(&mut saved, MainTab::SavedModels));
    assert_eq!(saved, None);
    let mut saved = Some(2);
    assert!(l.select_previous(&mut saved, MainTab::SavedModels));
    assert_eq!(saved, Some(1));
}

#[test]
fn step_down_then_up_returns() {
    let s = sizes(5, 5, 5, 5);
    for tab in [MainTab::Images, MainTab::SavedImages, MainTab::Models, MainTab::SavedModels] {
        let start = BrowseLists { image_index: 2, saved_image_index: 1, model_selected: Some(3) };
        let mut l = start;
        let mut saved = Some(0);
        l.select_next(&mut saved, tab, s);
        assert!(l != start || saved != Some(0));
        l.select_previous(&mut saved, tab);
        assert_eq!(l, start, "{tab:?}");
        assert_eq!(saved, Some(0), "{tab:?}");
    }
}

#[test]
fn jumps_reach_the_ends() {
    let s = sizes(4, 3, 6, 0);
    let mut l = lists();
    let mut saved: Option<usize> = None;
    assert!(!l.jump_last(&mut saved, MainTab::Images, s));
    assert_eq!(l.image_index, 3);
    assert!(!l.jump_first(&mut saved, MainTab::Images, s));
    assert_eq!(l.image_index, 0);
    assert!(!l.jump_last(&mut saved, MainTab::SavedImages, s));
    assert_eq!(l.saved_image_index, 2);
    assert!(l.jump_last(&mut saved, MainTab::Models, s));
    assert_eq!(l.model_selected, Some(5));
    assert!(l.jump_first(&mut saved, MainTab::Models, s));
    assert_eq!(l.model_selected, Some(0));
    saved = Some(4);
    assert!(!l.jump_last(&mut saved, MainTab::SavedModels, s));
    assert_eq!(saved, None);
    let mut saved = None;
    assert!(l.jump_last(&mut saved, MainTab::SavedModels, sizes(0, 0, 0, 3)));
    assert_eq!(saved, Some(2));
    assert!(l.jump_first(&mut saved, MainTab::SavedModels, sizes(0, 0, 0, 3)));
    assert_eq!(saved, Some(0));

    let mut l = BrowseLists { image_index: 7, ..lists() };
    l.jump_last(&mut saved, MainTab::Images, sizes(0, 0, 0, 0));
    assert_eq!(l.image_index, 7);
}

#[test]
fn clamping_keeps_the_saved_image_in_the_list() {
    let mut l = BrowseLists { saved_image_index: 9, ..lists() };
    l.clamp_saved_images(4);
    assert_eq!(l.saved_image_index, 3);
    l.clamp_saved_images(0);
    assert_eq!(l.saved_image_index, 0);
}

#[test]
fn more_pages_are_asked_for_near_the_end() {
    assert!(can_request_more_models(MainTab::Models, 10, &paging()));
    assert!(!can_request_more_models(MainTab::SavedModels, 10, &paging()));
    assert!(!can_request_more_models(MainTab::Models, 0, &paging()));
    assert!(!can_request_more_models(MainTab::Models, 10, &ModelPaging { loading_more: true, ..paging() }));

    assert!(near_end_of_models(Some(70), 100));
    assert!(!near_end_of_models(Some(69), 100));
    assert!(near_end_of_models(Some(0), 10));
    assert!(!near_end_of_models(None, 10));

    assert!(can_request_more_images(MainTab::Images, 20, 15, &feed(), 5));
    assert!(!can_request_more_images(MainTab::Images, 20, 14, &feed(), 5));
    assert!(!can_request_more_images(MainTab::Images, 20, 19, &ImageFeed { loading: true, ..feed() }, 5));
    assert!(can_request_more_images(MainTab::Images, 3, 0, &feed(), 5));
}

#[test]
fn follow_up_of_a_step_down() {
    let l = BrowseLists { model_selected: Some(75), image_index: 16, ..lists() };
    let s = sizes(20, 0, 100, 0);
    let f = next_selection_follow_up(MainTab::Models, true, &l, s, &paging(), &feed());
    assert!(f.detail && f.more_models && f.covers && !f.load_image);
    assert_eq!(f.more_images_page, None);

    let f = next_selection_follow_up(MainTab::Images, false, &l, s, &paging(), &feed());
    assert!(!f.detail && !f.more_models && !f.covers && f.load_image);
    assert_eq!(f.more_images_page, Some(3));

    let f = next_selection_follow_up(MainTab::SavedModels, true, &l, s, &paging(), &feed());
    assert!(f.detail && !f.more_models && f.covers);
}

#[test]
fn feed_fetches_are_not_repeated() {
    let first = ImageFeed { loaded: false, loading: false, has_more: true, next_page: None };
    assert!(first.wants_fetch(None));
    assert!(!feed().wants_fetch(None));
    assert!(feed().wants_fetch(Some(3)));
    assert!(!feed().wants_fetch(Some(4)));
    assert!(!ImageFeed { loading: true, ..feed() }.wants_fetch(Some(3)));
}

#[test]
fn paging_marks_the_next_page_as_loading() {
    let mut p = paging();
    assert_eq!(p.begin_loading_more(MainTab::Models, 10), Some(Some(2)));
    assert!(p.loading_more);
    assert_eq!(p.begin_loading_more(MainTab::Models, 10), None);
}

#[test]
fn switching_tabs_browses_and_asks_for_the_feed_once() {
    let mut app = App::new(Vec::new(), Vec::new());
    app.active_tab = MainTab::Models;
    app.mode = AppMode::SearchForm;
    let mut l = BrowseLists { saved_image_index: 8, ..lists() };
    let mut liked = LikedModels::new(Vec::new());
    liked.selected = Some(8);
    let s = sizes(0, 2, 0, 0);

    let sw = app.switch_tab(&mut l, &mut liked, MainTab::Images, s);
    assert!(sw.request_feed && sw.load_image);
    assert_eq!(app.mode, AppMode::Browsing);
    assert_eq!(app.active_tab, MainTab::Images);
    assert_eq!(liked.selected, Some(8));
    let sw = app.switch_tab(&mut l, &mut liked, MainTab::Images, s);
    assert!(!sw.request_feed);

    let sw = app.switch_tab(&mut l, &mut liked, MainTab::SavedModels, s);
    assert!(!sw.request_feed && !sw.load_image);
    assert_eq!(liked.selected, None);
    let sw = app.switch_tab(&mut l, &mut liked, MainTab::SavedImages, s);
    assert!(sw.load_image);
    assert_eq!(l.saved_image_index, 1);
}

#[test]
fn feed_requests_say_what_is_loading() {
    let mut app = App::new(Vec::new(), Vec::new());
    let mut f = ImageFeed { loaded: false, loading: false, has_more: true, next_page: None };
    app.note_image_feed_requested(&mut f);
    assert!(f.loading);
    assert_eq!(app.status, "Fetching image feed...");
    let mut f = feed();
    app.note_image_feed_requested(&mut f);
    assert_eq!(app.status, "Loading more images...");
    app.note_more_models_requested();
    assert_eq!(app.status, "Loading more results...");
}
