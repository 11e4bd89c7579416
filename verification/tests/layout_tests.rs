use civitai_tui::forms::{ImageSearchFormSection, SearchFormSection};
use civitai_tui::layout::{
    build_image_modal_constraints, build_model_modal_constraints, centered_rect, image_area_in_panels,
    image_protocol_area_for_size, Area, SizeRule,
};

#[test]
fn image_protocol_area_matches_expected_layout_shape() {
    let area = image_protocol_area_for_size(100, 50);

    assert_eq!(area.width, 48);
    assert_eq!(area.height, 40);
}

#[test]
fn image_area_sits_inside_the_left_panel_border() {
    let area = image_protocol_area_for_size(100, 50);
    assert_eq!((area.x, area.y), (1, 6));
}

#[test]
fn centered_popup_takes_its_share_in_the_middle() {
    let r = Area { x: 0, y: 0, width: 100, height: 40 };
    let popup = centered_rect(60, 50, r);
    assert_eq!(popup, Area { x: 20, y: 10, width: 60, height: 20 });
}

#[test]
fn focused_search_box_takes_the_spare_rows() {
    let model = build_model_modal_constraints(SearchFormSection::Type, 40);
    let mut expected = vec![SizeRule::Length(3); 6];
    expected[3] = SizeRule::Length(3 + 40 - 20);
    expected.push(SizeRule::Length(2));
    assert_eq!(model, expected);

    let image = build_image_modal_constraints(ImageSearchFormSection::Query, 10);
    let mut expected = vec![SizeRule::Length(3); 7];
    expected.push(SizeRule::Length(2));
    assert_eq!(image, expected);

    let huge = build_image_modal_constraints(ImageSearchFormSection::AspectRatio, u16::MAX);
    assert_eq!(huge[6], SizeRule::Length(u16::MAX - 20));
}

#[test]
fn image_goes_inside_the_left_panels_border() {
    let panels = vec![Area { x: 0, y: 5, width: 50, height: 40 }, Area { x: 50, y: 5, width: 50, height: 40 }];
    assert_eq!(image_area_in_panels(&panels), Area { x: 1, y: 6, width: 48, height: 38 });
    let tiny = vec![Area { x: 3, y: 3, width: 1, height: 0 }];
    assert_eq!(image_area_in_panels(&tiny), Area { x: 4, y: 4, width: 0, height: 0 });
}
