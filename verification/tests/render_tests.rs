use civitai_tui::render::{
    image_render_cache_key, image_render_request_for_size, model_cover_render_request_for_size,
    render_request_key, MediaRenderRequest,
};

#[test]
fn image_render_request_respects_expected_scaling() {
    let request = image_render_request_for_size(100, 50);

    assert_eq!(request.width, 644);
    assert_eq!(request.height, 1008);
}

#[test]
fn model_cover_request_applies_minimum_size() {
    let request = model_cover_render_request_for_size(10, 5);

    assert_eq!(
        request,
        MediaRenderRequest {
            width: 216,
            height: 240,
        }
    );
}

#[test]
fn render_request_key_includes_quality_and_dimensions() {
    let key = render_request_key(
        MediaRenderRequest {
            width: 320,
            height: 240,
        },
        "High",
    );

    assert_eq!(key, "High:320x240");
}

#[test]
fn image_render_cache_key_includes_protocol_area() {
    let key = image_render_cache_key(
        MediaRenderRequest {
            width: 320,
            height: 240,
        },
        "High",
        48,
        20,
    );

    assert_eq!(key, "High:320x240@48x20");
}

#[test]
fn render_requests_round_halves_up() {
    // 25 columns at 46% is 11.5 cells, which rounds to 12, below the minimum of 24.
    assert_eq!(image_render_request_for_size(25, 1).width, 24 * 14);
    // 75 columns at 46% is 34.5 cells, rounded to 35.
    assert_eq!(image_render_request_for_size(75, 1).width, 35 * 14);
    // 125 rows at 38% is 47.5 cells, rounded to 48.
    assert_eq!(model_cover_render_request_for_size(1, 125).height, 48 * 24);
    assert_eq!(image_render_request_for_size(65535, 65535).width, 30146 * 14);
}
