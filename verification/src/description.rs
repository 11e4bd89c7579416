use vstd::prelude::*;

use crate::chars::{
    chars_of, concat_chars, is_white_space_char, lemma_trim_end_at, lemma_trim_start_at, is_stripped,
    string_of, strip_end, strip_start, trim, trim_chars,
};
use crate::markup::{parse_styled_markdown, span_views, styled_markdown, SpanView, StyledSpan, SpanKind};
use crate::metadata::opt_text;
use crate::tags::{lemma_split_on_len, split_on, split_on_char, starts_with};

verus! {

/// What `html2text::from_read` gives for an HTML text wrapped at a width,
/// when it succeeds.
pub uninterp spec fn html_as_text(html: Seq<char>, width: nat) -> Option<Seq<char>>;

/// `html2text::from_read` on the bytes of a text; none when it fails.
#[verifier::external_body]
fn html_to_text(html: &str, width: usize) -> (r: Option<String>)
    ensures
        opt_text(r) == html_as_text(html@, width as nat),
{
    html2text::from_read(html.as_bytes(), width).ok()
}

/// The lines of a text, as `str::lines` gives them: split at line breaks,
/// a carriage return before a break dropped, no empty line after a final
/// break.
pub open spec fn text_lines(s: Seq<char>) -> Seq<Seq<char>> {
    let p = split_on(s, '\n');
    let kept = if p.last().len() == 0 {
        p.drop_last()
    } else {
        p
    };
    kept.map_values(|l: Seq<char>| if l.len() > 0 && l.last() == '\r' {
        l.drop_last()
    } else {
        l
    })
}

/// The text without its leading copies of a character.
pub open spec fn drop_leading(l: Seq<char>, c: char) -> Seq<char>
    decreases l.len(),
{
    if l.len() > 0 && l[0] == c {
        drop_leading(l.drop_first(), c)
    } else {
        l
    }
}

/// Dropping leading copies of a character never lengthens a text, and
/// shortens it when it starts with one.
pub proof fn lemma_drop_leading_len(l: Seq<char>, c: char)
    ensures
        drop_leading(l, c).len() <= l.len(),
        l.len() > 0 && l[0] == c ==> drop_leading(l, c).len() < l.len(),
    decreases l.len(),
{
    if l.len() > 0 && l[0] == c {
        lemma_drop_leading_len(l.drop_first(), c);
    }
}

/// Dropping leading white space never lengthens a text.
pub proof fn lemma_strip_start_len(l: Seq<char>)
    ensures
        strip_start(l, false).len() <= l.len(),
    decreases l.len(),
{
    if l.len() > 0 && is_stripped(l[0], false) {
        lemma_strip_start_len(l.drop_first());
    }
}

/// A heading's marks taken off: while the line starts with `#`, the `#`s and
/// the white space after them are dropped.
pub open spec fn strip_hashes(l: Seq<char>) -> Seq<char>
    decreases l.len(),
{
    if l.len() > 0 && l[0] == '#' {
        proof {
            lemma_drop_leading_len(l, '#');
            lemma_strip_start_len(drop_leading(l, '#'));
        }
        strip_hashes(strip_start(drop_leading(l, '#'), false))
    } else {
        l
    }
}

/// A line that starts with a list marker gets another mark in its place.
pub open spec fn remarked(l: Seq<char>, marker: Seq<char>, mark: Seq<char>) -> Seq<char> {
    if starts_with(l, marker) {
        mark + strip_start(l.subrange(marker.len() as int, l.len() as int), false)
    } else {
        l
    }
}

/// A description line tidied: trimmed, heading marks dropped, `- `, `* ` and
/// `+ ` list markers shown as `• `, and `> ` quotes as `› `.
pub open spec fn tidy_line(line: Seq<char>) -> Seq<char> {
    remarked(
        remarked(remarked(remarked(strip_hashes(trim(line)), "- "@, "• "@), "* "@, "• "@), "+ "@, "• "@),
        "> "@,
        "› "@,
    )
}

/// The tidied lines, each followed by a line break.
pub open spec fn tidied(lines: Seq<Seq<char>>) -> Seq<char>
    decreases lines.len(),
{
    if lines.len() == 0 {
        seq![]
    } else {
        tidied(lines.drop_last()) + tidy_line(lines.last()) + seq!['\n']
    }
}

/// The text of a description: HTML (a text with both `<` and `>`) turned into
/// text wrapped at 120 columns, or the raw text when that fails or it is not
/// HTML.
pub open spec fn description_text(raw: Seq<char>) -> Seq<char> {
    if raw.contains('<') && raw.contains('>') {
        match html_as_text(raw, 120) {
            Some(t) => t,
            None => raw,
        }
    } else {
        raw
    }
}

/// How a description line is shown.
#[derive(Clone, Copy, Debug, PartialEq, Eq, Structural)]
pub enum LineKind {
    /// A blank line.
    Blank,
    /// A heading of the given level.
    Heading(u64),
    /// A list item, shown after a bullet.
    Bullet,
    /// A quote, shown after a quote mark.
    Quote,
    /// Ordinary text.
    Text,
    /// The line shown when there is no description.
    Missing,
}

/// A description line: how it is shown and its spans.
pub struct DescriptionLine {
    pub kind: LineKind,
    pub spans: Vec<StyledSpan>,
}

/// The kind and spans of a description line.
pub type LineView = (LineKind, Seq<SpanView>);

/// The views of description lines.
pub open spec fn line_views(s: Seq<DescriptionLine>) -> Seq<LineView> {
    s.map_values(|l: DescriptionLine| (l.kind, span_views(l.spans@)))
}

/// How many `#` a line starts with.
pub open spec fn leading_hashes(l: Seq<char>) -> nat
    decreases l.len(),
{
    if l.len() > 0 && l[0] == '#' {
        1 + leading_hashes(l.drop_first())
    } else {
        0
    }
}

/// One tidied line as shown: blank; a heading (`# `, `## ` or `### `) with
/// its title; a list item or quote with the text after its mark; or text.
pub open spec fn shown_line(line: Seq<char>) -> LineView {
    let l = trim(line);
    if l.len() == 0 {
        (LineKind::Blank, seq![(seq![], SpanKind::Plain)])
    } else if starts_with(l, "### "@) || starts_with(l, "## "@) || starts_with(l, "# "@) {
        (LineKind::Heading(leading_hashes(l) as u64), seq![(strip_start(drop_leading(l, '#'), false), SpanKind::Plain)])
    } else if starts_with(l, "• "@) {
        (LineKind::Bullet, styled_markdown(l.subrange(1, l.len() as int)))
    } else if starts_with(l, "› "@) {
        (LineKind::Quote, styled_markdown(l.subrange(1, l.len() as int)))
    } else {
        (LineKind::Text, styled_markdown(l))
    }
}

/// The line shown when there is no description.
pub open spec fn missing_line() -> LineView {
    (LineKind::Missing, seq![("No description available."@, SpanKind::Plain)])
}

/// The lines a model description is shown with: its text's lines tidied and
/// the trailing white space dropped, then each shown as `shown_line` says;
/// the missing-description line when nothing is left.
pub open spec fn description_lines(raw: Seq<char>) -> Seq<LineView> {
    let normalized = strip_end(tidied(text_lines(description_text(raw))), false);
    if normalized.len() == 0 {
        seq![missing_line()]
    } else {
        text_lines(normalized).map_values(|l: Seq<char>| shown_line(l))
    }
}


fn text_lines_exec(s: &Vec<char>) -> (r: Vec<Vec<char>>)
    ensures
        r@.map_values(|v: Vec<char>| v@) == text_lines(s@),
{
    let mut pieces = split_on_char(s, '\n');
    let ghost p = pieces@.map_values(|v: Vec<char>| v@);
    proof {
        lemma_split_on_len(s@, '\n');
    }
    let n = pieces.len();
    if pieces[n - 1].len() == 0 {
        pieces.pop();
        assert(pieces@.map_values(|v: Vec<char>| v@) =~= p.drop_last());
    }
    let ghost kept = pieces@.map_values(|v: Vec<char>| v@);
    let mut r: Vec<Vec<char>> = Vec::new();
    let mut i: usize = 0;
    while i < pieces.len()
        invariant
            i <= pieces@.len(),
            kept == pieces@.map_values(|v: Vec<char>| v@),
            r@.map_values(|v: Vec<char>| v@) == kept.subrange(0, i as int).map_values(
                |l: Seq<char>| if l.len() > 0 && l.last() == '\r' {
                    l.drop_last()
                } else {
                    l
                },
            ),
        decreases pieces@.len() - i,
    {
        let ghost before = r@.map_values(|v: Vec<char>| v@);
        let mut line = pieces[i].clone();
        assert(line@ == kept[i as int]);
        let len = line.len();
        if len > 0 && line[len - 1] == '\r' {
            line.pop();
        }
        r.push(line);
        proof {
            let f = |l: Seq<char>| if l.len() > 0 && l.last() == '\r' {
                l.drop_last()
            } else {
                l
            };
            assert(r@.map_values(|v: Vec<char>| v@) =~= before.push(f(kept[i as int])));
            assert(kept.subrange(0, i + 1).map_values(f) =~= kept.subrange(0, i as int).map_values(f).push(f(kept[i as int])));
        }
        i = i + 1;
    }
    assert(kept.subrange(0, pieces@.len() as int) =~= kept);
    r
}

fn drop_leading_chars(l: &Vec<char>, c: char) -> (r: Vec<char>)
    ensures
        r@ == drop_leading(l@, c),
{
    let mut i: usize = 0;
    assert(l@.subrange(0, l@.len() as int) =~= l@);
    while i < l.len() && l[i] == c
        invariant
            i <= l@.len(),
            drop_leading(l@, c) == drop_leading(l@.subrange(i as int, l@.len() as int), c),
        decreases l@.len() - i,
    {
        proof {
            let t = l@.subrange(i as int, l@.len() as int);
            assert(t.drop_first() =~= l@.subrange(i + 1, l@.len() as int));
        }
        i = i + 1;
    }
    let r = sub_chars(l, i, l.len());
    proof {
        let t = l@.subrange(i as int, l@.len() as int);
        if t.len() > 0 {
            assert(t[0] == l@[i as int]);
        }
    }
    r
}

fn sub_chars(v: &Vec<char>, lo: usize, hi: usize) -> (r: Vec<char>)
    requires
        lo <= hi <= v@.len(),
    ensures
        r@ == v@.subrange(lo as int, hi as int),
{
    let mut r: Vec<char> = Vec::new();
    let mut i: usize = lo;
    while i < hi
        invariant
            lo <= i <= hi,
            hi <= v@.len(),
            r@ == v@.subrange(lo as int, i as int),
        decreases hi - i,
    {
        r.push(v[i]);
        i = i + 1;
        assert(r@ =~= v@.subrange(lo as int, i as int));
    }
    r
}

fn strip_start_chars(l: &Vec<char>) -> (r: Vec<char>)
    ensures
        r@ == strip_start(l@, false),
{
    let mut i: usize = 0;
    while i < l.len() && is_white_space_char(l[i])
        invariant
            i <= l@.len(),
            forall|k: int| 0 <= k < i ==> is_stripped(#[trigger] l@[k], false),
        decreases l@.len() - i,
    {
        i = i + 1;
    }
    proof {
        lemma_trim_start_at(l@, i as int, false);
    }
    sub_chars(l, i, l.len())
}

fn strip_end_chars(l: &Vec<char>) -> (r: Vec<char>)
    ensures
        r@ == strip_end(l@, false),
{
    let mut j: usize = l.len();
    while j > 0 && is_white_space_char(l[j - 1])
        invariant
            j <= l@.len(),
            forall|k: int| j <= k < l@.len() ==> is_stripped(#[trigger] l@[k], false),
        decreases j,
    {
        j = j - 1;
    }
    proof {
        lemma_trim_end_at(l@, j as int, false);
    }
    sub_chars(l, 0, j)
}

fn strip_hashes_chars(line: Vec<char>) -> (r: Vec<char>)
    ensures
        r@ == strip_hashes(line@),
{
    let mut l = line;
    while l.len() > 0 && l[0] == '#'
        invariant
            strip_hashes(line@) == strip_hashes(l@),
        decreases l@.len(),
    {
        proof {
            lemma_drop_leading_len(l@, '#');
            lemma_strip_start_len(drop_leading(l@, '#'));
        }
        let d = drop_leading_chars(&l, '#');
        l = strip_start_chars(&d);
    }
    l
}

fn starts_with_str(l: &Vec<char>, p: &str) -> (r: bool)
    ensures
        r == starts_with(l@, p@),
{
    let pc = chars_of(p);
    if pc.len() > l.len() {
        return false;
    }
    let mut i: usize = 0;
    while i < pc.len()
        invariant
            pc@ == p@,
            pc@.len() <= l@.len(),
            i <= pc@.len(),
            forall|k: int| 0 <= k < i ==> l@[k] == pc@[k],
        decreases pc@.len() - i,
    {
        if l[i] != pc[i] {
            assert(l@.subrange(0, pc@.len() as int)[i as int] != pc@[i as int]);
            return false;
        }
        i = i + 1;
    }
    assert(l@.subrange(0, pc@.len() as int) =~= pc@);
    true
}

fn remarked_chars(l: Vec<char>, marker: &str, mark: &str) -> (r: Vec<char>)
    requires
        marker@.len() == 2,
    ensures
        r@ == remarked(l@, marker@, mark@),
{
    if starts_with_str(&l, marker) {
        let rest = sub_chars(&l, 2, l.len());
        concat_chars(&chars_of(mark), &strip_start_chars(&rest))
    } else {
        l
    }
}

fn tidy_line_chars(line: &Vec<char>) -> (r: Vec<char>)
    ensures
        r@ == tidy_line(line@),
{
    proof {
        reveal_strlit("- ");
        reveal_strlit("* ");
        reveal_strlit("+ ");
        reveal_strlit("> ");
    }
    let l = strip_hashes_chars(trim_chars(line));
    let l = remarked_chars(l, "- ", "• ");
    let l = remarked_chars(l, "* ", "• ");
    let l = remarked_chars(l, "+ ", "• ");
    remarked_chars(l, "> ", "› ")
}

fn contains_char(s: &Vec<char>, c: char) -> (r: bool)
    ensures
        r == s@.contains(c),
{
    let mut i: usize = 0;
    while i < s.len()
        invariant
            i <= s@.len(),
            forall|k: int| 0 <= k < i ==> s@[k] != c,
        decreases s@.len() - i,
    {
        if s[i] == c {
            assert(s@[i as int] == c);
            return true;
        }
        i = i + 1;
    }
    false
}

fn leading_hashes_count(l: &Vec<char>) -> (r: u64)
    ensures
        r == leading_hashes(l@),
{
    let mut i: usize = 0;
    assert(l@.subrange(0, l@.len() as int) =~= l@);
    while i < l.len() && l[i] == '#'
        invariant
            i <= l@.len(),
            leading_hashes(l@) == i + leading_hashes(l@.subrange(i as int, l@.len() as int)),
        decreases l@.len() - i,
    {
        proof {
            let t = l@.subrange(i as int, l@.len() as int);
            assert(t.drop_first() =~= l@.subrange(i + 1, l@.len() as int));
        }
        i = i + 1;
    }
    proof {
        let t = l@.subrange(i as int, l@.len() as int);
        if t.len() > 0 {
            assert(t[0] == l@[i as int]);
        }
    }
    i as u64
}

fn shown_line_exec(line: &Vec<char>) -> (r: DescriptionLine)
    ensures
        (r.kind, span_views(r.spans@)) == shown_line(line@),
{
    let l = trim_chars(line);
    if l.len() == 0 {
        let mut spans: Vec<StyledSpan> = Vec::new();
        spans.push(StyledSpan { text: String::new(), kind: SpanKind::Plain });
        assert(span_views(spans@) =~= seq![(seq![], SpanKind::Plain)]);
        return DescriptionLine { kind: LineKind::Blank, spans };
    }
    if starts_with_str(&l, "### ") || starts_with_str(&l, "## ") || starts_with_str(&l, "# ") {
        let level = leading_hashes_count(&l);
        let title = strip_start_chars(&drop_leading_chars(&l, '#'));
        let mut spans: Vec<StyledSpan> = Vec::new();
        spans.push(StyledSpan { text: string_of(title.as_slice()), kind: SpanKind::Plain });
        assert(span_views(spans@) =~= seq![(title@, SpanKind::Plain)]);
        return DescriptionLine { kind: LineKind::Heading(level), spans };
    }
    if starts_with_str(&l, "• ") {
        let rest = sub_chars(&l, 1, l.len());
        let text = string_of(rest.as_slice());
        return DescriptionLine { kind: LineKind::Bullet, spans: parse_styled_markdown(text.as_str()) };
    }
    if starts_with_str(&l, "› ") {
        let rest = sub_chars(&l, 1, l.len());
        let text = string_of(rest.as_slice());
        return DescriptionLine { kind: LineKind::Quote, spans: parse_styled_markdown(text.as_str()) };
    }
    let text = string_of(l.as_slice());
    DescriptionLine { kind: LineKind::Text, spans: parse_styled_markdown(text.as_str()) }
}

/// The lines a model description is shown with (see `description_lines`).
pub fn render_description_lines(raw: &str) -> (r: Vec<DescriptionLine>)
    ensures
        line_views(r@) == description_lines(raw@),
{
    let rc = chars_of(raw);
    let text: Vec<char> = if contains_char(&rc, '<') && contains_char(&rc, '>') {
        match html_to_text(raw, 120) {
            Some(t) => chars_of(t.as_str()),
            None => rc,
        }
    } else {
        rc
    };
    assert(text@ == description_text(raw@));
    let lines = text_lines_exec(&text);
    let ghost lv = lines@.map_values(|v: Vec<char>| v@);
    let mut joined: Vec<char> = Vec::new();
    let mut i: usize = 0;
    while i < lines.len()
        invariant
            i <= lines@.len(),
            lv == lines@.map_values(|v: Vec<char>| v@),
            joined@ == tidied(lv.subrange(0, i as int)),
        decreases lines@.len() - i,
    {
        proof {
            assert(lv.subrange(0, i + 1).drop_last() =~= lv.subrange(0, i as int));
            assert(lv.subrange(0, i + 1).last() == lines@[i as int]@);
        }
        let t = tidy_line_chars(&lines[i]);
        let ghost before = joined@;
        let mut k: usize = 0;
        while k < t.len()
            invariant
                k <= t@.len(),
                joined@ == before + t@.subrange(0, k as int),
            decreases t@.len() - k,
        {
            joined.push(t[k]);
            k = k + 1;
            assert(joined@ =~= before + t@.subrange(0, k as int));
        }
        joined.push('\n');
        assert(t@.subrange(0, t@.len() as int) =~= t@);
        assert(joined@ =~= before + t@ + seq!['\n']);
        i = i + 1;
    }
    assert(lv.subrange(0, lines@.len() as int) =~= lv);
    let normalized = strip_end_chars(&joined);
    let mut out: Vec<DescriptionLine> = Vec::new();
    if normalized.len() == 0 {
        let mut spans: Vec<StyledSpan> = Vec::new();
        spans.push(StyledSpan { text: "No description available.".to_owned(), kind: SpanKind::Plain });
        assert(span_views(spans@) =~= seq![("No description available."@, SpanKind::Plain)]);
        out.push(DescriptionLine { kind: LineKind::Missing, spans });
        assert(line_views(out@) =~= seq![missing_line()]);
        return out;
    }
    let shown = text_lines_exec(&normalized);
    let ghost sv = shown@.map_values(|v: Vec<char>| v@);
    let mut j: usize = 0;
    while j < shown.len()
        invariant
            j <= shown@.len(),
            sv == shown@.map_values(|v: Vec<char>| v@),
            line_views(out@) == sv.subrange(0, j as int).map_values(|l: Seq<char>| shown_line(l)),
        decreases shown@.len() - j,
    {
        let ghost before = line_views(out@);
        let line = shown_line_exec(&shown[j]);
        out.push(line);
        proof {
            assert(sv[j as int] == shown@[j as int]@);
            assert(line_views(out@) =~= before.push(shown_line(sv[j as int])));
            assert(sv.subrange(0, j + 1).map_values(|l: Seq<char>| shown_line(l)) =~= sv.subrange(0, j as int).map_values(|l: Seq<char>| shown_line(l)).push(shown_line(sv[j as int])));
        }
        j = j + 1;
    }
    assert(sv.subrange(0, shown@.len() as int) =~= sv);
    out
}

} // verus!
