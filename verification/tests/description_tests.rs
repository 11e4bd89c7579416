use civitai_tui::description::{render_description_lines, LineKind};
use civitai_tui::markup::SpanKind;

fn texts(raw: &str) -> Vec<(LineKind, Vec<(String, SpanKind)>)> {
    render_description_lines(raw)
        .into_iter()
        .map(|l| (l.kind, l.spans.into_iter().map(|s| (s.text, s.kind)).collect()))
        .collect()
}

#[test]
fn empty_description_says_so() {
    let lines = texts("  \n\n ");
    assert_eq!(lines.len(), 1);
    assert_eq!(lines[0].0, LineKind::Missing);
    assert_eq!(lines[0].1[0].0, "No description available.");
}

#[test]
fn markdown_lists_quotes_and_headings_are_tidied() {
    let lines = texts("## Usage\n- first **step**\n\n> note\r\n+ last");
    assert_eq!(lines.len(), 5);
    assert_eq!(lines[0], (LineKind::Text, vec![("Usage".to_string(), SpanKind::Plain)]));
    assert_eq!(lines[1].0, LineKind::Bullet);
    assert_eq!(
        lines[1].1,
        vec![(" first ".to_string(), SpanKind::Plain), ("step".to_string(), SpanKind::Bold)]
    );
    assert_eq!(lines[2].0, LineKind::Blank);
    assert_eq!(lines[3], (LineKind::Quote, vec![(" note".to_string(), SpanKind::Plain)]));
    assert_eq!(lines[4], (LineKind::Bullet, vec![(" last".to_string(), SpanKind::Plain)]));
}

#[test]
fn html_descriptions_are_turned_into_text() {
    let lines = texts("<p>Hello <b>world</b></p>");
    assert!(!lines.is_empty());
    let first: String = lines[0].1.iter().map(|s| s.0.clone()).collect();
    assert!(first.contains("Hello"));
    assert!(!first.contains("<p>"));
    assert!(lines[0].1.iter().any(|s| s.0 == "world"));
}

