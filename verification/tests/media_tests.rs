use civitai_tui::forms::MainTab;
use civitai_tui::media::{
    cover_priority_wanted, forget_all_media, image_load_wanted, reload_selected_model_cover, CoverReload, RenderCache,
};

fn key(s: &str) -> String {
    s.to_string()
}

#[test]
fn pictures_are_cached_per_request() {
    let mut c = RenderCache::new();
    assert!(!c.has_cached_request(1, &key("q1:80x24")));
    c.record(1, key("q1:80x24"));
    assert!(c.has_cached_request(1, &key("q1:80x24")));
    assert!(!c.has_cached_request(1, &key("q2:80x24")));
    assert!(!c.has_cached_request(2, &key("q1:80x24")));
    c.forget(1);
    assert!(!c.has_cached_request(1, &key("q1:80x24")));
    c.record(3, key("k"));
    c.clear();
    assert!(c.cached.is_empty() && c.request_keys.is_empty());
}

#[test]
fn cover_reload_rebuilds_or_fetches() {
    let k = key("cover:q1");
    let mut c = RenderCache::new();
    c.record(77, k.clone());
    let r = reload_selected_model_cover(MainTab::Models, Some((7, 77)), &mut c, &k, true, true, &Vec::new(), 0, &Vec::new());
    assert!(matches!(r, CoverReload::Rebuild { version_id: 77 }));
    assert!(c.has_cached_request(77, &k));

    let r = reload_selected_model_cover(MainTab::Models, Some((7, 77)), &mut c, &k, false, true, &Vec::new(), 0, &Vec::new());
    assert!(matches!(r, CoverReload::Nothing));

    let other = key("cover:q2");
    let r = reload_selected_model_cover(MainTab::SavedModels, Some((7, 77)), &mut c, &other, true, true, &Vec::new(), 0, &Vec::new());
    assert!(matches!(r, CoverReload::Fetch { version_id: 77, job: None }));
    assert!(!c.cached.contains(&77));
    assert!(c.request_keys.get(&77).is_none());
}

#[test]
fn cover_reload_needs_a_model_tab_selection_and_worker() {
    let k = key("cover:q1");
    let mut c = RenderCache::new();
    c.record(77, key("old"));
    for (tab, sel, ready) in [
        (MainTab::Images, Some((7, 77)), true),
        (MainTab::Models, None, true),
        (MainTab::Models, Some((7, 77)), false),
    ] {
        let r = reload_selected_model_cover(tab, sel, &mut c, &k, true, ready, &Vec::new(), 0, &Vec::new());
        assert!(matches!(r, CoverReload::Nothing));
        assert!(c.cached.contains(&77));
    }
}

#[test]
fn loads_are_asked_for_when_not_drawn() {
    let k = key("img:q1");
    let mut c = RenderCache::new();
    assert!(image_load_wanted(MainTab::Images, Some(5), &c, &k));
    c.record(5, k.clone());
    assert!(!image_load_wanted(MainTab::Images, Some(5), &c, &k));
    assert!(image_load_wanted(MainTab::SavedImages, Some(6), &c, &k));
    assert!(!image_load_wanted(MainTab::Models, Some(6), &c, &k));
    assert!(!image_load_wanted(MainTab::Images, None, &c, &k));

    assert!(!cover_priority_wanted(&c, 5, &k));
    assert!(cover_priority_wanted(&c, 5, &key("other")));
}

#[test]
fn media_quality_change_forgets_everything() {
    let mut images = RenderCache::new();
    let mut covers = RenderCache::new();
    images.record(1, key("a"));
    covers.record(2, key("b"));
    let mut failed = vec![9, 10];
    forget_all_media(&mut images, &mut covers, &mut failed);
    assert!(images.cached.is_empty() && covers.request_keys.is_empty() && failed.is_empty());
}
