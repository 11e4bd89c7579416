use civitai_tui::boxes::{
    build_autocomplete_lines, build_image_filter_box_lines, build_text_filter_box_lines,
    build_wrapped_option_lines, wrap_joined_tags, BoxSpan, BoxStyle,
};

fn view(lines: &[Vec<BoxSpan>]) -> Vec<Vec<(String, BoxStyle)>> {
    lines.iter().map(|l| l.iter().map(|s| (s.text.clone(), s.style)).collect()).collect()
}

fn span(text: &str, style: BoxStyle) -> (String, BoxStyle) {
    (text.to_string(), style)
}

fn options() -> Vec<(String, bool, bool)> {
    vec![("SDXL".to_string(), false, true), ("Flux".to_string(), true, false), ("Pony".to_string(), false, false)]
}

#[test]
fn options_are_packed_into_lines() {
    let lines = build_wrapped_option_lines(&options(), 20, 2, true);
    assert_eq!(
        view(&lines),
        vec![
            vec![span("[x] SDXL", BoxStyle::Green), span("  ", BoxStyle::Plain), span("[ ] Flux", BoxStyle::YellowBold)],
            vec![span("[ ] Pony", BoxStyle::White)],
        ]
    );
    let one = build_wrapped_option_lines(&options(), 20, 1, true);
    assert_eq!(one.len(), 1);
    assert_eq!(one[0].len(), 3);
    let narrow = build_wrapped_option_lines(&options(), 5, 3, false);
    assert_eq!(
        view(&narrow),
        vec![
            vec![span("[x] S", BoxStyle::Yellow)],
            vec![span("[ ] F", BoxStyle::Dimmed(false))],
            vec![span("[ ] P", BoxStyle::Dimmed(false))],
        ]
    );
    assert!(build_wrapped_option_lines(&Vec::new(), 5, 3, false).is_empty());
}

#[test]
fn chosen_tags_wrap_at_separators() {
    let tags = vec!["anime".to_string(), "portrait".to_string(), "landscape".to_string()];
    assert_eq!(wrap_joined_tags(&tags, 12, 2), vec!["anime,".to_string(), "portrait,...".to_string()]);
    assert_eq!(
        wrap_joined_tags(&tags, 40, 2),
        vec!["anime, portrait, landscape".to_string()]
    );
    assert_eq!(wrap_joined_tags(&Vec::new(), 5, 2), vec![String::new()]);
    assert!(wrap_joined_tags(&tags, 0, 2).is_empty());
}

#[test]
fn separator_offsets_count_bytes() {
    let tags = vec!["é".to_string(), "abc".to_string(), "d".to_string()];
    assert_eq!(wrap_joined_tags(&tags, 6, 5), vec!["é,".to_string(), "bc, d".to_string()]);
}

#[test]
fn suggestions_are_marked_and_wrapped() {
    let s = vec!["alpha".to_string(), "beta".to_string()];
    assert_eq!(view(&build_autocomplete_lines(&s, 30, 2)), vec![vec![span("> alpha,   beta", BoxStyle::Yellow)]]);
    assert_eq!(
        view(&build_autocomplete_lines(&s, 8, 2)),
        vec![vec![span("> alpha,", BoxStyle::Yellow)], vec![span("   beta", BoxStyle::Yellow)]]
    );
    assert!(build_autocomplete_lines(&Vec::new(), 8, 2).is_empty());
}

#[test]
fn text_box_shows_placeholder_cursor_and_suggestions() {
    let suggestions = vec!["flux".to_string()];
    let lines = build_text_filter_box_lines("Query", true, false, "", "search...", Some(&suggestions), 20, 5);
    assert_eq!(
        view(&lines),
        vec![
            vec![span("> Query:", BoxStyle::Yellow)],
            vec![span("search...█", BoxStyle::White)],
            vec![span("Right: insert suggestion", BoxStyle::Dimmed(false))],
            vec![span("> flux", BoxStyle::Yellow)],
        ]
    );
    let idle = build_text_filter_box_lines("Query", false, true, "flux", "search...", Some(&suggestions), 20, 5);
    assert_eq!(view(&idle), vec![vec![span("  Query", BoxStyle::Yellow)], vec![span("flux", BoxStyle::Yellow)]]);
    let plain = build_text_filter_box_lines("Tags", false, false, " ", "any", None, 20, 5);
    assert_eq!(view(&plain), vec![vec![span("  Tags", BoxStyle::Dimmed(false))], vec![span("any", BoxStyle::Dimmed(false))]]);
}

#[test]
fn option_box_shows_current_options_and_selection() {
    let items = vec![("SDXL".to_string(), false, false), ("Flux".to_string(), true, true)];
    let selected = vec!["Flux.1 D".to_string()];
    let lines = build_image_filter_box_lines("base models", false, true, &items, &selected, true, 30, 8);
    assert_eq!(
        view(&lines),
        vec![
            vec![span("  Current: Flux [x]", BoxStyle::Dimmed(true))],
            vec![span("Browse base models with Left/Right, toggle with Space", BoxStyle::Dimmed(false))],
            vec![
                span("[ ] SDXL", BoxStyle::Dimmed(false)),
                span("  ", BoxStyle::Plain),
                span("[x] Flux", BoxStyle::Yellow),
            ],
            vec![span("Selected", BoxStyle::Dimmed(true))],
            vec![span("Flux.1 D", BoxStyle::Dimmed(true))],
        ]
    );
    let none = build_image_filter_box_lines("sorts", true, false, &Vec::new(), &Vec::new(), true, 30, 8);
    assert_eq!(
        view(&none),
        vec![
            vec![span("> Current: <none>", BoxStyle::Yellow)],
            vec![span("Browse sorts with Left/Right, toggle with Space", BoxStyle::Dimmed(false))],
            vec![span("Selected", BoxStyle::DarkGray)],
            vec![span("All", BoxStyle::White)],
        ]
    );
}
