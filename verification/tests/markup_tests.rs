use civitai_tui::markup::{parse_styled_markdown, SpanKind};

fn spans(raw: &str) -> Vec<(String, SpanKind)> {
    parse_styled_markdown(raw).into_iter().map(|s| (s.text, s.kind)).collect()
}

fn s(text: &str, kind: SpanKind) -> (String, SpanKind) {
    (text.to_string(), kind)
}

#[test]
fn plain_text_is_one_span() {
    assert_eq!(spans("just words"), vec![s("just words", SpanKind::Plain)]);
    assert_eq!(spans(""), vec![s("", SpanKind::Plain)]);
}

#[test]
fn emphasis_and_code() {
    assert_eq!(
        spans("a **b** c *d* `e`"),
        vec![
            s("a ", SpanKind::Plain),
            s("b", SpanKind::Bold),
            s(" c ", SpanKind::Plain),
            s("d", SpanKind::Italic),
            s(" ", SpanKind::Plain),
            s("e", SpanKind::Code),
        ]
    );
    assert_eq!(spans("__x__"), vec![s("x", SpanKind::Bold)]);
    assert_eq!(spans("``"), vec![s("", SpanKind::Code)]);
    assert_eq!(spans("****"), vec![s("", SpanKind::Plain)]);
}

#[test]
fn unclosed_markers_stay_plain() {
    assert_eq!(spans("**open"), vec![s("**", SpanKind::Plain), s("open", SpanKind::Plain)]);
    assert_eq!(spans("a [b"), vec![s("a ", SpanKind::Plain), s("[", SpanKind::Plain), s("b", SpanKind::Plain)]);
}

#[test]
fn bare_links_drop_trailing_punctuation() {
    assert_eq!(
        spans("see https://civitai.com/models/1). next"),
        vec![
            s("see ", SpanKind::Plain),
            s("https://civitai.com/models/1", SpanKind::Link),
            s(").", SpanKind::Plain),
            s(" next", SpanKind::Plain),
        ]
    );
}

#[test]
fn bracket_links_show_text_and_target() {
    assert_eq!(
        spans("[docs](http://x.io) end"),
        vec![
            s("docs", SpanKind::Link),
            s(" [http://x.io]", SpanKind::LinkTarget),
            s(" end", SpanKind::Plain),
        ]
    );
    assert_eq!(spans("[](u)"), vec![s(" [u]", SpanKind::LinkTarget)]);
}
