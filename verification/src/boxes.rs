use vstd::prelude::*;

use crate::chars::{chars_of, concat_chars, string_of, trim, trim_chars};
use crate::tags::joined;
use crate::text::{compact_cell_text, compacted, wrap_text_lines, wrapped_lines};
use crate::chars::{is_blank, is_blank_chars};

verus! {

/// How a piece of a search box is drawn.
#[derive(Clone, Copy, Debug, PartialEq, Eq, Structural)]
pub enum BoxStyle {
    /// The line's own style.
    Plain,
    White,
    Yellow,
    YellowBold,
    Green,
    DarkGray,
    /// Dimmed: yellow when the box holds a setting, else dark gray (as help
    /// text is drawn).
    Dimmed(bool),
}

/// A piece of text in a style.
pub struct BoxSpan {
    pub text: String,
    pub style: BoxStyle,
}

/// A span as text and style.
pub open spec fn span_view(s: BoxSpan) -> (Seq<char>, BoxStyle) {
    (s.text@, s.style)
}

/// A line as its spans' texts and styles.
pub open spec fn line_view(l: Vec<BoxSpan>) -> Seq<(Seq<char>, BoxStyle)> {
    l@.map_values(|s: BoxSpan| span_view(s))
}

/// Lines as their spans' texts and styles.
pub open spec fn lines_view(ls: Seq<Vec<BoxSpan>>) -> Seq<Seq<(Seq<char>, BoxStyle)>> {
    ls.map_values(|l: Vec<BoxSpan>| line_view(l))
}

/// An option as a box lists it: `[x] ` when chosen, else `[ ] `, then its text.
pub open spec fn option_label(text: Seq<char>, checked: bool) -> Seq<char> {
    (if checked { "[x] "@ } else { "[ ] "@ }) + text
}

/// The style of an option: the one under the cursor of the focused box
/// stands out; chosen ones are green in the focused box and yellow elsewhere.
pub open spec fn option_style(focused: bool, checked: bool, box_focused: bool) -> BoxStyle {
    if box_focused && focused {
        BoxStyle::YellowBold
    } else if box_focused && checked {
        BoxStyle::Green
    } else if checked {
        BoxStyle::Yellow
    } else if box_focused {
        BoxStyle::White
    } else {
        BoxStyle::Dimmed(false)
    }
}

/// Where the packing of options into lines stands: the lines done, the line
/// being filled and its width, and whether the box is full.
pub struct PackState {
    pub lines: Seq<Seq<(Seq<char>, BoxStyle)>>,
    pub spans: Seq<(Seq<char>, BoxStyle)>,
    pub used: int,
    pub stopped: bool,
}

/// One option packed: it starts a new line when it does not fit after the
/// others (two spaces apart) within `width`; packing stops once `height` lines
/// are done; the last option closes its line while there is room.
pub open spec fn pack_step(
    st: PackState,
    item: (String, bool, bool),
    last: bool,
    width: nat,
    height: nat,
    box_focused: bool,
) -> PackState {
    if st.stopped {
        st
    } else {
        let label = option_label(item.0@, item.2);
        let tw = label.len();
        let sep = if st.spans.len() == 0 { 0int } else { 2int };
        let flush = st.spans.len() > 0 && st.used + sep + tw > width;
        let lines1 = if flush { st.lines.push(st.spans) } else { st.lines };
        if flush && lines1.len() >= height {
            PackState { lines: lines1, spans: Seq::empty(), used: st.used, stopped: true }
        } else {
            let spans1 = if flush { Seq::empty() } else { st.spans };
            let used1 = if flush { 0 } else { st.used };
            let spans2 = if spans1.len() > 0 { spans1.push(("  "@, BoxStyle::Plain)) } else { spans1 };
            let used2 = if spans1.len() > 0 { used1 + 2 } else { used1 };
            let spans3 = spans2.push((compacted(label, width), option_style(item.1, item.2, box_focused)));
            let used3 = used2 + if tw < width { tw as int } else { width as int };
            if last && lines1.len() < height {
                PackState { lines: lines1.push(spans3), spans: Seq::empty(), used: used3, stopped: false }
            } else {
                PackState { lines: lines1, spans: spans3, used: used3, stopped: false }
            }
        }
    }
}

/// The first `k` options packed.
pub open spec fn packed(items: Seq<(String, bool, bool)>, k: nat, width: nat, height: nat, box_focused: bool) -> PackState
    decreases k,
{
    if k == 0 {
        PackState { lines: Seq::empty(), spans: Seq::empty(), used: 0, stopped: false }
    } else {
        pack_step(
            packed(items, (k - 1) as nat, width, height, box_focused),
            items[k - 1],
            k - 1 == items.len() - 1,
            width,
            height,
            box_focused,
        )
    }
}

/// The lines a box lists its options on (see `pack_step`), at most `height`;
/// none for no options or no room.
pub open spec fn option_lines(items: Seq<(String, bool, bool)>, width: nat, height: nat, box_focused: bool) -> Seq<
    Seq<(Seq<char>, BoxStyle)>,
> {
    if items.len() == 0 || width == 0 || height == 0 {
        Seq::empty()
    } else {
        let st = packed(items, items.len(), width, height, box_focused);
        if st.lines.len() == height {
            st.lines
        } else if st.spans.len() > 0 {
            st.lines.push(st.spans)
        } else {
            st.lines
        }
    }
}

fn label_of(text: &String, checked: bool) -> (r: Vec<char>)
    ensures
        r@ == option_label(text@, checked),
{
    let mark = if checked {
        chars_of("[x] ")
    } else {
        chars_of("[ ] ")
    };
    concat_chars(&mark, &chars_of(text.as_str()))
}

fn style_of(focused: bool, checked: bool, box_focused: bool) -> (r: BoxStyle)
    ensures
        r == option_style(focused, checked, box_focused),
{
    if box_focused && focused {
        BoxStyle::YellowBold
    } else if box_focused && checked {
        BoxStyle::Green
    } else if checked {
        BoxStyle::Yellow
    } else if box_focused {
        BoxStyle::White
    } else {
        BoxStyle::Dimmed(false)
    }
}

/// The lines a search box lists its options on: each option (its text, whether
/// the cursor is on it, whether it is chosen) as a label, packed into lines of
/// at most `max_width` characters (see `option_lines`).
pub fn build_wrapped_option_lines(items: &Vec<(String, bool, bool)>, max_width: usize, max_lines: usize, box_focused: bool) -> (r: Vec<Vec<BoxSpan>>)
    ensures
        lines_view(r@) == option_lines(items@, max_width as nat, max_lines as nat, box_focused),
{
    if items.len() == 0 || max_width == 0 || max_lines == 0 {
        let r: Vec<Vec<BoxSpan>> = Vec::new();
        assert(lines_view(r@) =~= Seq::<Seq<(Seq<char>, BoxStyle)>>::empty());
        return r;
    }
    let ghost w = max_width as nat;
    let ghost h = max_lines as nat;
    let n = items.len();
    let mut lines: Vec<Vec<BoxSpan>> = Vec::new();
    let mut spans: Vec<BoxSpan> = Vec::new();
    let mut used: usize = 0;
    let mut stopped = false;
    let mut i: usize = 0;
    assert(lines_view(lines@) =~= Seq::<Seq<(Seq<char>, BoxStyle)>>::empty());
    assert(line_view(spans) =~= Seq::<(Seq<char>, BoxStyle)>::empty());
    while i < n
        invariant
            n == items@.len(),
            n > 0,
            w == max_width,
            h == max_lines,
            i <= n,
            lines_view(lines@) == packed(items@, i as nat, w, h, box_focused).lines,
            line_view(spans) == packed(items@, i as nat, w, h, box_focused).spans,
            used == packed(items@, i as nat, w, h, box_focused).used,
            stopped == packed(items@, i as nat, w, h, box_focused).stopped,
            used <= max_width,
            lines@.len() <= max_lines,
            !stopped && i < n ==> lines@.len() < max_lines,
            !stopped && i < n && spans@.len() == 0 ==> used == 0,
        decreases n - i,
    {
        let ghost st = packed(items@, i as nat, w, h, box_focused);
        if !stopped {
            let label = label_of(&items[i].0, items[i].2);
            let tw = label.len();
            let sep: usize = if spans.len() == 0 {
                0
            } else {
                2
            };
            let flush = spans.len() > 0 && (tw > max_width || sep > max_width - tw || used > max_width - tw - sep);
            assert(flush == (st.spans.len() > 0 && st.used + (if st.spans.len() == 0 { 0int } else { 2int })
                + tw > w));
            if flush {
                let ghost before = lines@;
                let mut done: Vec<BoxSpan> = Vec::new();
                std::mem::swap(&mut done, &mut spans);
                lines.push(done);
                proof {
                    assert(lines_view(lines@) =~= lines_view(before).push(line_view(done)));
                }
                if lines.len() >= max_lines {
                    stopped = true;
                    assert(line_view(spans) =~= Seq::<(Seq<char>, BoxStyle)>::empty());
                } else {
                    used = 0;
                }
            }
            if !stopped {
                if spans.len() > 0 {
                    let ghost before = spans@;
                    spans.push(BoxSpan { text: String::from_str("  "), style: BoxStyle::Plain });
                    assert(line_view(spans) =~= line_view_of(before).push(("  "@, BoxStyle::Plain)));
                    used = used + 2;
                }
                let style = style_of(items[i].1, items[i].2, box_focused);
                let shown = compact_cell_text(string_of(label.as_slice()), max_width);
                let ghost before = spans@;
                spans.push(BoxSpan { text: shown, style });
                assert(line_view(spans) =~= line_view_of(before).push((compacted(label@, w), style)));
                used = used + if tw < max_width {
                    tw
                } else {
                    max_width
                };
                if i == n - 1 && lines.len() < max_lines {
                    let ghost before_lines = lines@;
                    let mut done: Vec<BoxSpan> = Vec::new();
                std::mem::swap(&mut done, &mut spans);
                    lines.push(done);
                    assert(lines_view(lines@) =~= lines_view(before_lines).push(line_view(done)));
                    assert(line_view(spans) =~= Seq::<(Seq<char>, BoxStyle)>::empty());
                }
            }
        }
        i = i + 1;
    }
    if lines.len() == max_lines {
        return lines;
    }
    if spans.len() > 0 {
        let ghost before = lines@;
        lines.push(spans);
        assert(lines_view(lines@) =~= lines_view(before).push(line_view(lines@.last())));
    }
    lines
}

/// The view of a run of spans.
pub open spec fn line_view_of(s: Seq<BoxSpan>) -> Seq<(Seq<char>, BoxStyle)> {
    s.map_values(|x: BoxSpan| span_view(x))
}

/// The bytes a character takes in UTF-8.
pub open spec fn utf8_width(c: char) -> nat {
    if (c as u32) < 0x80 {
        1
    } else if (c as u32) < 0x800 {
        2
    } else if (c as u32) < 0x1_0000 {
        3
    } else {
        4
    }
}

/// The bytes a text takes in UTF-8.
pub open spec fn utf8_len(s: Seq<char>) -> nat
    decreases s.len(),
{
    if s.len() == 0 {
        0
    } else {
        utf8_len(s.drop_last()) + utf8_width(s.last())
    }
}

proof fn lemma_utf8_len_concat(a: Seq<char>, b: Seq<char>)
    ensures
        utf8_len(a + b) == utf8_len(a) + utf8_len(b),
        utf8_len(a) >= a.len(),
    decreases b.len(), a.len(),
{
    if b.len() == 0 {
        assert(a + b =~= a);
        if a.len() > 0 {
            lemma_utf8_len_concat(a.drop_last(), b);
        }
    } else {
        lemma_utf8_len_concat(a, b.drop_last());
        assert((a + b).drop_last() =~= a + b.drop_last());
        assert((a + b).last() == b.last());
    }
}

/// Where the last `, ` of a text starts, if it has one.
pub open spec fn last_sep(line: Seq<char>) -> Option<int>
    decreases line.len(),
{
    if line.len() < 2 {
        None
    } else if line[line.len() - 2] == ',' && line[line.len() - 1] == ' ' {
        Some(line.len() - 2)
    } else {
        last_sep(line.drop_last())
    }
}

proof fn lemma_last_sep_bound(line: Seq<char>)
    ensures
        last_sep(line) matches Some(p) ==> 0 <= p && p + 2 <= line.len(),
    decreases line.len(),
{
    if line.len() >= 2 && !(line[line.len() - 2] == ',' && line[line.len() - 1] == ' ') {
        lemma_last_sep_bound(line.drop_last());
    }
}

/// One line of joined tags from character `start`: up to `width` characters;
/// when more follow and a `, ` starts after the line's first character, the
/// line ends at that comma and the next starts after `, ` — counted in bytes of
/// the line before it, as `rfind` reports; the line is trimmed.
pub open spec fn tag_line(chars: Seq<char>, start: int, width: nat) -> (Seq<char>, int) {
    let end = if start + width < chars.len() { start + width } else { chars.len() as int };
    let line = chars.subrange(start, end);
    if end < chars.len() && last_sep(line) is Some && last_sep(line)->0 > 0 {
        let p = last_sep(line)->0;
        (trim(line.subrange(0, p + 1)), start + utf8_len(line.subrange(0, p)) + 2)
    } else {
        (trim(line), end)
    }
}

/// The lines of joined tags from character `start`, after `lines`, while
/// characters remain and there is room; with where they stopped.
pub open spec fn tag_lines_from(chars: Seq<char>, width: nat, height: nat, start: int, lines: Seq<Seq<char>>) -> (
    Seq<Seq<char>>,
    int,
)
    decreases height - lines.len(),
{
    if start < chars.len() && lines.len() < height {
        let (l, next) = tag_line(chars, start, width);
        tag_lines_from(chars, width, height, next, lines.push(l))
    } else {
        (lines, start)
    }
}

/// The tags of a box: joined with `, `, cut into lines (see `tag_line`), at
/// most `height`; when some are left over, the last line is cut to leave room
/// for `...` and gets it. One empty line for no text; none for no room.
pub open spec fn wrapped_tags(tags: Seq<Seq<char>>, width: nat, height: nat) -> Seq<Seq<char>> {
    let chars = joined(tags, ", "@);
    if width == 0 || height == 0 {
        Seq::empty()
    } else if chars.len() == 0 {
        seq![Seq::empty()]
    } else {
        let (lines, start) = tag_lines_from(chars, width, height, 0, Seq::empty());
        if start < chars.len() && lines.len() > 0 {
            let last = lines.last();
            let target: nat = if width >= 3 { (width - 3) as nat } else { 0 };
            let cut = if last.len() > target { compacted(last, target) } else { last };
            lines.update(lines.len() - 1, cut + "..."@)
        } else {
            lines
        }
    }
}

fn joined_chars(tags: &Vec<String>) -> (r: Vec<char>)
    ensures
        r@ == joined(tags@.map_values(|t: String| t@), ", "@),
{
    let ghost parts = tags@.map_values(|t: String| t@);
    let mut out: Vec<char> = Vec::new();
    let mut i: usize = 0;
    while i < tags.len()
        invariant
            i <= tags@.len(),
            parts == tags@.map_values(|t: String| t@),
            out@ == joined(parts.subrange(0, i as int), ", "@),
        decreases tags@.len() - i,
    {
        let ghost before = out@;
        let ghost sub = parts.subrange(0, i + 1);
        assert(sub.drop_last() =~= parts.subrange(0, i as int));
        assert(sub.last() == tags@[i as int]@);
        if i > 0 {
            out = concat_chars(&out, &chars_of(", "));
        }
        out = concat_chars(&out, &chars_of(tags[i].as_str()));
        proof {
            if i == 0 {
                assert(sub.len() == 1);
                assert(before =~= Seq::<char>::empty());
                assert(out@ =~= sub[0]);
            }
        }
        i = i + 1;
    }
    assert(parts.subrange(0, tags@.len() as int) =~= parts);
    out
}

fn utf8_width_of(c: char) -> (r: usize)
    ensures
        r == utf8_width(c),
{
    if (c as u32) < 0x80 {
        1
    } else if (c as u32) < 0x800 {
        2
    } else if (c as u32) < 0x1_0000 {
        3
    } else {
        4
    }
}

fn utf8_len_of(s: &Vec<char>, n: usize) -> (r: usize)
    requires
        n <= s@.len(),
        utf8_len(s@.subrange(0, n as int)) <= usize::MAX,
    ensures
        r == utf8_len(s@.subrange(0, n as int)),
{
    let mut total: usize = 0;
    let mut i: usize = 0;
    while i < n
        invariant
            i <= n <= s@.len(),
            utf8_len(s@.subrange(0, n as int)) <= usize::MAX,
            total == utf8_len(s@.subrange(0, i as int)),
        decreases n - i,
    {
        proof {
            assert(s@.subrange(0, i + 1).drop_last() =~= s@.subrange(0, i as int));
            lemma_utf8_len_concat(s@.subrange(0, i + 1), s@.subrange(i + 1, n as int));
            assert(s@.subrange(0, i + 1) + s@.subrange(i + 1, n as int) =~= s@.subrange(0, n as int));
        }
        total = total + utf8_width_of(s[i]);
        i = i + 1;
    }
    total
}

fn last_sep_index(line: &Vec<char>) -> (r: Option<usize>)
    ensures
        match r {
            Some(p) => last_sep(line@) == Some(p as int),
            None => last_sep(line@) is None,
        },
{
    let mut k: usize = line.len();
    assert(line@.subrange(0, k as int) =~= line@);
    while k >= 2 && !(line[k - 2] == ',' && line[k - 1] == ' ')
        invariant
            k <= line@.len(),
            last_sep(line@) == last_sep(line@.subrange(0, k as int)),
        decreases k,
    {
        assert(line@.subrange(0, k as int).drop_last() =~= line@.subrange(0, k - 1));
        k = k - 1;
    }
    if k >= 2 {
        Some(k - 2)
    } else {
        None
    }
}

fn sub_chars(cs: &Vec<char>, from: usize, to: usize) -> (r: Vec<char>)
    requires
        from <= to <= cs@.len(),
    ensures
        r@ == cs@.subrange(from as int, to as int),
{
    let mut out: Vec<char> = Vec::new();
    let mut k: usize = from;
    while k < to
        invariant
            from <= k <= to <= cs@.len(),
            out@ == cs@.subrange(from as int, k as int),
        decreases to - k,
    {
        out.push(cs[k]);
        assert(out@ =~= cs@.subrange(from as int, k + 1));
        k = k + 1;
    }
    out
}

/// The lines a box shows chosen tags on (see `wrapped_tags`).
pub fn wrap_joined_tags(tags: &Vec<String>, width: usize, height: usize) -> (r: Vec<String>)
    requires
        utf8_len(joined(tags@.map_values(|t: String| t@), ", "@)) < isize::MAX,
    ensures
        r@.map_values(|l: String| l@) == wrapped_tags(tags@.map_values(|t: String| t@), width as nat, height as nat),
{
    let ghost tv = tags@.map_values(|t: String| t@);
    if width == 0 || height == 0 {
        let r: Vec<String> = Vec::new();
        assert(r@.map_values(|l: String| l@) =~= Seq::<Seq<char>>::empty());
        return r;
    }
    let chars = joined_chars(tags);
    let len = chars.len();
    if len == 0 {
        let mut r: Vec<String> = Vec::new();
        r.push(String::new());
        assert(r@.map_values(|l: String| l@) =~= seq![Seq::<char>::empty()]);
        return r;
    }
    let ghost total = utf8_len(chars@);
    proof {
        lemma_utf8_len_concat(chars@, Seq::empty());
    }
    let mut lines: Vec<String> = Vec::new();
    let mut start: usize = 0;
    assert(lines@.map_values(|l: String| l@) =~= Seq::<Seq<char>>::empty());
    while start < len && lines.len() < height
        invariant
            len == chars@.len(),
            total == utf8_len(chars@),
            total < isize::MAX,
            len <= total,
            width > 0,
            start <= total + 2,
            lines@.len() <= height,
            tag_lines_from(chars@, width as nat, height as nat, 0, Seq::empty()) == tag_lines_from(
                chars@,
                width as nat,
                height as nat,
                start as int,
                lines@.map_values(|l: String| l@),
            ),
        decreases height - lines@.len(),
    {
        let end: usize = if width < len - start {
            start + width
        } else {
            len
        };
        let line = sub_chars(&chars, start, end);
        let ghost lv = lines@.map_values(|l: String| l@);
        let ghost step = tag_line(chars@, start as int, width as nat);
        let mut next: usize = end;
        let mut shown = line.clone();
        if end < len {
            if let Some(p) = last_sep_index(&line) {
                if p > 0 {
                    proof {
                        lemma_last_sep_bound(line@);
                        lemma_utf8_len_concat(chars@.subrange(0, start as int), line@.subrange(0, p as int));
                        lemma_utf8_len_concat(
                            chars@.subrange(0, start as int) + line@.subrange(0, p as int),
                            chars@.subrange(start + p, len as int),
                        );
                        assert(chars@.subrange(0, start as int) + line@.subrange(0, p as int) + chars@.subrange(
                            start + p,
                            len as int,
                        ) =~= chars@);
                        lemma_utf8_len_concat(chars@.subrange(0, start as int), Seq::empty());
                    }
                    let bytes = utf8_len_of(&line, p);
                    next = start + bytes + 2;
                    shown = sub_chars(&line, 0, p + 1);
                }
            }
        }
        let t = trim_chars(&shown);
        let ghost before = lines@;
        lines.push(string_of(t.as_slice()));
        assert(lines@.map_values(|l: String| l@) =~= lv.push(step.0));
        assert(next == step.1);
        start = next;
    }
    let ghost done = tag_lines_from(chars@, width as nat, height as nat, start as int, lines@.map_values(|l: String| l@));
    assert(done == (lines@.map_values(|l: String| l@), start as int));
    if start < len && lines.len() > 0 {
        let last_index = lines.len() - 1;
        let target: usize = if width >= 3 {
            width - 3
        } else {
            0
        };
        let last = lines[last_index].clone();
        let cut = if chars_of(last.as_str()).len() > target {
            compact_cell_text(last, target)
        } else {
            last
        };
        let mut text = cut;
        text.append("...");
        let ghost before = lines@.map_values(|l: String| l@);
        lines.set(last_index, text);
        assert(lines@.map_values(|l: String| l@) =~= before.update(last_index as int, lines@[last_index as int]@));
    }
    lines
}

/// Lines of one span each, all in one style.
pub open spec fn styled_lines(ls: Seq<Seq<char>>, style: BoxStyle) -> Seq<Seq<(Seq<char>, BoxStyle)>> {
    ls.map_values(|l: Seq<char>| seq![(l, style)])
}

/// The suggestions offered under a tag box: `> ` before the first and two
/// spaces before the others, joined with `, `, wrapped to the box, in yellow.
pub open spec fn autocomplete_lines(suggestions: Seq<Seq<char>>, width: nat, height: nat) -> Seq<
    Seq<(Seq<char>, BoxStyle)>,
> {
    if suggestions.len() == 0 || width == 0 || height == 0 {
        Seq::empty()
    } else {
        let items = Seq::new(
            suggestions.len(),
            |i: int| (if i == 0 { "> "@ } else { "  "@ }) + suggestions[i],
        );
        styled_lines(wrapped_lines(joined(items, ", "@), width, height), BoxStyle::Yellow)
    }
}

fn one_span_lines(ls: Vec<String>, style: BoxStyle) -> (r: Vec<Vec<BoxSpan>>)
    ensures
        lines_view(r@) == styled_lines(ls@.map_values(|l: String| l@), style),
{
    let mut out: Vec<Vec<BoxSpan>> = Vec::new();
    let mut rest = ls;
    let ghost all = rest@;
    let n = rest.len();
    let mut i: usize = 0;
    while i < n
        invariant
            n == all.len(),
            i <= n,
            rest@ == all.subrange(i as int, n as int),
            lines_view(out@) == styled_lines(all.subrange(0, i as int).map_values(|l: String| l@), style),
        decreases n - i,
    {
        let ghost before = rest@;
        let text = rest.remove(0);
        assert(text == all[i as int]) by {
            assert(before[0] == all[i as int]);
        }
        assert(rest@ =~= all.subrange(i + 1, n as int));
        let mut line: Vec<BoxSpan> = Vec::new();
        line.push(BoxSpan { text, style });
        let ghost prev = out@;
        out.push(line);
        proof {
            assert(line_view(out@.last()) =~= seq![(all[i as int]@, style)]);
            assert(lines_view(out@) =~= lines_view(prev).push(seq![(all[i as int]@, style)]));
            assert(styled_lines(all.subrange(0, i + 1).map_values(|l: String| l@), style) =~= styled_lines(
                all.subrange(0, i as int).map_values(|l: String| l@),
                style,
            ).push(seq![(all[i as int]@, style)]));
        }
        i = i + 1;
    }
    assert(all.subrange(0, n as int) =~= all);
    out
}

/// The suggestion lines of a tag box (see `autocomplete_lines`).
pub fn build_autocomplete_lines(suggestions: &Vec<String>, max_width: usize, max_lines: usize) -> (r: Vec<Vec<BoxSpan>>)
    ensures
        lines_view(r@) == autocomplete_lines(suggestions@.map_values(|t: String| t@), max_width as nat, max_lines as nat),
{
    let ghost sv = suggestions@.map_values(|t: String| t@);
    if suggestions.len() == 0 || max_width == 0 || max_lines == 0 {
        let r: Vec<Vec<BoxSpan>> = Vec::new();
        assert(lines_view(r@) =~= Seq::<Seq<(Seq<char>, BoxStyle)>>::empty());
        return r;
    }
    let mut items: Vec<String> = Vec::new();
    let mut i: usize = 0;
    while i < suggestions.len()
        invariant
            i <= suggestions@.len(),
            sv == suggestions@.map_values(|t: String| t@),
            items@.len() == i,
            forall|k: int| 0 <= k < i ==> #[trigger] items@[k]@ == (if k == 0 { "> "@ } else { "  "@ }) + sv[k],
        decreases suggestions@.len() - i,
    {
        let prefix = if i == 0 {
            chars_of("> ")
        } else {
            chars_of("  ")
        };
        let item = concat_chars(&prefix, &chars_of(suggestions[i].as_str()));
        items.push(string_of(item.as_slice()));
        i = i + 1;
    }
    let ghost expected = Seq::new(sv.len(), |k: int| (if k == 0 { "> "@ } else { "  "@ }) + sv[k]);
    assert(items@.map_values(|t: String| t@) =~= expected);
    let text = string_of(joined_chars(&items).as_slice());
    let wrapped = wrap_text_lines(text.as_str(), max_width, max_lines);
    assert(wrapped@.map_values(|l: String| l@) =~= wrapped_lines(text@, max_width as nat, max_lines as nat));
    one_span_lines(wrapped, BoxStyle::Yellow)
}

/// The style of a text box's value: help-gray when the box is neither focused
/// nor set, white when focused, yellow when set.
pub open spec fn value_style(focused: bool, configured: bool) -> BoxStyle {
    if !configured && !focused {
        BoxStyle::Dimmed(false)
    } else if focused {
        BoxStyle::White
    } else {
        BoxStyle::Yellow
    }
}

/// How many suggestion lines a text box shows: as many as there are
/// suggestions, leaving three rows, when the box is focused; else none.
pub open spec fn suggestion_rows(focused: bool, suggestions: Option<Seq<Seq<char>>>, height: nat) -> nat {
    match suggestions {
        Some(items) => if focused && items.len() > 0 {
            let room: nat = if height >= 3 { (height - 3) as nat } else { 0 };
            if items.len() < room { items.len() } else { room }
        } else {
            0
        },
        None => 0,
    }
}

/// The lines of a text box of a search form: its title (`>` and `:` when
/// focused); its value, or the placeholder when the value is blank, with a
/// cursor when focused, wrapped to the rows the suggestions leave (at least
/// one); then, when focused with suggestions, a hint and the suggestions.
pub open spec fn text_box_lines(
    label: Seq<char>,
    focused: bool,
    configured: bool,
    value: Seq<char>,
    placeholder: Seq<char>,
    suggestions: Option<Seq<Seq<char>>>,
    width: nat,
    height: nat,
) -> Seq<Seq<(Seq<char>, BoxStyle)>> {
    let display = if is_blank(value) { placeholder } else { value };
    let title_style = if focused || configured { BoxStyle::Yellow } else { BoxStyle::Dimmed(false) };
    let title = (if focused { ">"@ } else { " "@ }) + " "@ + label + (if focused { ":"@ } else { ""@ });
    let rendered = if focused { display + "█"@ } else { display };
    let rows = suggestion_rows(focused, suggestions, height);
    let value_height: nat = if height >= 1 + rows && height - (1 + rows) >= 1 { (height - (1 + rows)) as nat } else { 1 };
    let w: nat = if width >= 1 { width } else { 1 };
    let head = seq![seq![(title, title_style)]] + styled_lines(
        wrapped_lines(rendered, w, value_height),
        value_style(focused, configured),
    );
    match suggestions {
        Some(items) => if focused && items.len() > 0 {
            let hint = if is_blank(value) {
                "Right: insert suggestion"@
            } else {
                "Right: complete first match"@
            };
            head.push(seq![(hint, BoxStyle::Dimmed(false))]) + autocomplete_lines(
                items,
                w,
                if rows >= 1 { rows } else { 1 },
            )
        } else {
            head
        },
        None => head,
    }
}

fn text_line(text: Vec<char>, style: BoxStyle) -> (r: Vec<BoxSpan>)
    ensures
        line_view(r) == seq![(text@, style)],
{
    let mut line: Vec<BoxSpan> = Vec::new();
    line.push(BoxSpan { text: string_of(text.as_slice()), style });
    assert(line_view(line) =~= seq![(text@, style)]);
    line
}

fn append_lines(lines: &mut Vec<Vec<BoxSpan>>, more: Vec<Vec<BoxSpan>>)
    ensures
        lines_view(final(lines)@) == lines_view(old(lines)@) + lines_view(more@),
{
    let mut rest = more;
    let ghost all = rest@;
    let ghost start = lines_view(lines@);
    let n = rest.len();
    let mut i: usize = 0;
    while i < n
        invariant
            n == all.len(),
            i <= n,
            rest@ == all.subrange(i as int, n as int),
            lines_view(lines@) == start + lines_view(all.subrange(0, i as int)),
        decreases n - i,
    {
        let ghost before = rest@;
        let l = rest.remove(0);
        assert(l == all[i as int]) by {
            assert(before[0] == all[i as int]);
        }
        assert(rest@ =~= all.subrange(i + 1, n as int));
        let ghost prev = lines@;
        lines.push(l);
        assert(lines_view(lines@) =~= lines_view(prev).push(line_view(all[i as int])));
        assert(lines_view(all.subrange(0, i + 1)) =~= lines_view(all.subrange(0, i as int)).push(line_view(all[i as int])));
        i = i + 1;
    }
    assert(all.subrange(0, n as int) =~= all);
}

/// The lines of a text box of a search form (see `text_box_lines`).
pub fn build_text_filter_box_lines(
    label: &str,
    focused: bool,
    configured: bool,
    value: &str,
    placeholder: &str,
    suggestions: Option<&Vec<String>>,
    width: usize,
    height: usize,
) -> (r: Vec<Vec<BoxSpan>>)
    ensures
        lines_view(r@) == text_box_lines(
            label@,
            focused,
            configured,
            value@,
            placeholder@,
            match suggestions {
                Some(s) => Some(s@.map_values(|t: String| t@)),
                None => None,
            },
            width as nat,
            height as nat,
        ),
{
    let blank = is_blank_chars(&chars_of(value));
    let display = if blank {
        chars_of(placeholder)
    } else {
        chars_of(value)
    };
    let title_style = if focused || configured {
        BoxStyle::Yellow
    } else {
        BoxStyle::Dimmed(false)
    };
    let mark = if focused {
        chars_of(">")
    } else {
        chars_of(" ")
    };
    let colon = if focused {
        chars_of(":")
    } else {
        chars_of("")
    };
    let title = concat_chars(&concat_chars(&concat_chars(&mark, &chars_of(" ")), &chars_of(label)), &colon);
    let rendered = if focused {
        concat_chars(&display, &chars_of("█"))
    } else {
        display
    };
    let offered: Option<&Vec<String>> = match suggestions {
        Some(items) => if focused && items.len() > 0 {
            Some(items)
        } else {
            None
        },
        None => None,
    };
    let rows: usize = match offered {
        Some(items) => {
            let room = if height >= 3 {
                height - 3
            } else {
                0
            };
            if items.len() < room {
                items.len()
            } else {
                room
            }
        },
        None => 0,
    };
    let value_height: usize = if height >= 1 + rows && height - (1 + rows) >= 1 {
        height - (1 + rows)
    } else {
        1
    };
    let w: usize = if width >= 1 {
        width
    } else {
        1
    };
    let mut lines: Vec<Vec<BoxSpan>> = Vec::new();
    lines.push(text_line(title, title_style));
    assert(lines_view(lines@) =~= seq![seq![(title@, title_style)]]);
    let style = if !configured && !focused {
        BoxStyle::Dimmed(false)
    } else if focused {
        BoxStyle::White
    } else {
        BoxStyle::Yellow
    };
    let text = string_of(rendered.as_slice());
    let wrapped = wrap_text_lines(text.as_str(), w, value_height);
    assert(wrapped@.map_values(|l: String| l@) =~= wrapped_lines(rendered@, w as nat, value_height as nat));
    append_lines(&mut lines, one_span_lines(wrapped, style));
    if let Some(items) = offered {
        let hint = if blank {
            chars_of("Right: insert suggestion")
        } else {
            chars_of("Right: complete first match")
        };
        let ghost before = lines_view(lines@);
        lines.push(text_line(hint, BoxStyle::Dimmed(false)));
        assert(lines_view(lines@) =~= before.push(seq![(hint@, BoxStyle::Dimmed(false))]));
        let shown = if rows >= 1 {
            rows
        } else {
            1
        };
        append_lines(&mut lines, build_autocomplete_lines(items, w, shown));
    }
    lines
}

/// The first option the cursor is on, if any.
pub open spec fn first_current(items: Seq<(String, bool, bool)>) -> Option<int>
    decreases items.len(),
{
    if items.len() == 0 {
        None
    } else {
        let r = first_current(items.drop_last());
        if r is Some {
            r
        } else if items.last().1 {
            Some(items.len() - 1)
        } else {
            None
        }
    }
}

proof fn lemma_first_current_extends(items: Seq<(String, bool, bool)>, k: int)
    requires
        0 <= k <= items.len(),
        first_current(items.subrange(0, k)) is Some,
    ensures
        first_current(items) == first_current(items.subrange(0, k)),
    decreases items.len() - k,
{
    if k < items.len() {
        assert(items.subrange(0, k + 1).drop_last() =~= items.subrange(0, k));
        lemma_first_current_extends(items, k + 1);
    } else {
        assert(items.subrange(0, k) =~= items);
    }
}

/// The style of the parts of an option box that are not options: dimmed,
/// yellow when the box holds a setting.
pub open spec fn box_text_style(focused: bool, configured: bool, when_focused: BoxStyle) -> BoxStyle {
    if focused {
        when_focused
    } else {
        BoxStyle::Dimmed(configured)
    }
}

/// The lines of an option box of the image search form: the option under the
/// cursor (or `<none>`) and whether it is chosen; how to browse; the options on
/// two lines; and, when asked, what is chosen (`All` for nothing) wrapped to
/// the rows below.
pub open spec fn image_box_lines(
    label: Seq<char>,
    focused: bool,
    configured: bool,
    items: Seq<(String, bool, bool)>,
    selected: Seq<Seq<char>>,
    show_selected: bool,
    width: nat,
    height: nat,
) -> Seq<Seq<(Seq<char>, BoxStyle)>> {
    let marker = if focused { ">"@ } else { " "@ };
    let current = match first_current(items) {
        Some(i) => marker + " Current: "@ + items[i].0@ + " "@ + (if items[i].2 { "[x]"@ } else { "[ ]"@ }),
        None => marker + " Current: <none>"@,
    };
    let head = seq![
        seq![(current, box_text_style(focused, configured, BoxStyle::Yellow))],
        seq![("Browse "@ + label + " with Left/Right, toggle with Space"@, BoxStyle::Dimmed(false))],
    ] + option_lines(items, width, 2, focused);
    if show_selected {
        let rows: nat = if height >= 5 { (height - 5) as nat } else { 0 };
        let style = box_text_style(focused, configured, BoxStyle::White);
        let with_title = head.push(seq![("Selected"@, box_text_style(focused, configured, BoxStyle::DarkGray))]);
        if selected.len() == 0 {
            with_title.push(seq![("All"@, style)])
        } else {
            with_title + styled_lines(wrapped_tags(selected, width, rows), style)
        }
    } else {
        head
    }
}

fn current_index(items: &Vec<(String, bool, bool)>) -> (r: Option<usize>)
    ensures
        r matches Some(i) ==> i < items@.len(),
        match r {
            Some(i) => first_current(items@) == Some(i as int),
            None => first_current(items@) is None,
        },
{
    let mut i: usize = 0;
    assert(items@.subrange(0, 0) =~= Seq::<(String, bool, bool)>::empty());
    while i < items.len()
        invariant
            i <= items@.len(),
            first_current(items@.subrange(0, i as int)) is None,
        decreases items@.len() - i,
    {
        assert(items@.subrange(0, i + 1).drop_last() =~= items@.subrange(0, i as int));
        if items[i].1 {
            proof {
                lemma_first_current_extends(items@, i + 1);
            }
            return Some(i);
        }
        i = i + 1;
    }
    assert(items@.subrange(0, items@.len() as int) =~= items@);
    None
}

/// The lines of an option box of the image search form (see `image_box_lines`).
pub fn build_image_filter_box_lines(
    label: &str,
    focused: bool,
    configured: bool,
    items: &Vec<(String, bool, bool)>,
    selected: &Vec<String>,
    show_selected: bool,
    width: usize,
    height: usize,
) -> (r: Vec<Vec<BoxSpan>>)
    requires
        utf8_len(joined(selected@.map_values(|t: String| t@), ", "@)) < isize::MAX,
    ensures
        lines_view(r@) == image_box_lines(
            label@,
            focused,
            configured,
            items@,
            selected@.map_values(|t: String| t@),
            show_selected,
            width as nat,
            height as nat,
        ),
{
    let marker = if focused {
        chars_of(">")
    } else {
        chars_of(" ")
    };
    let current = match current_index(items) {
        Some(i) => {
            let mark = if items[i].2 {
                chars_of("[x]")
            } else {
                chars_of("[ ]")
            };
            let a = concat_chars(&marker, &chars_of(" Current: "));
            let b = concat_chars(&a, &chars_of(items[i].0.as_str()));
            concat_chars(&concat_chars(&b, &chars_of(" ")), &mark)
        },
        None => concat_chars(&marker, &chars_of(" Current: <none>")),
    };
    let current_style = if focused {
        BoxStyle::Yellow
    } else {
        BoxStyle::Dimmed(configured)
    };
    let mut lines: Vec<Vec<BoxSpan>> = Vec::new();
    lines.push(text_line(current, current_style));
    let browse = concat_chars(
        &concat_chars(&chars_of("Browse "), &chars_of(label)),
        &chars_of(" with Left/Right, toggle with Space"),
    );
    lines.push(text_line(browse, BoxStyle::Dimmed(false)));
    assert(lines_view(lines@) =~= seq![
        seq![(current@, current_style)],
        seq![(browse@, BoxStyle::Dimmed(false))],
    ]);
    append_lines(&mut lines, build_wrapped_option_lines(items, width, 2, focused));
    if show_selected {
        let title_style = if focused {
            BoxStyle::DarkGray
        } else {
            BoxStyle::Dimmed(configured)
        };
        let style = if focused {
            BoxStyle::White
        } else {
            BoxStyle::Dimmed(configured)
        };
        let ghost before = lines_view(lines@);
        lines.push(text_line(chars_of("Selected"), title_style));
        assert(lines_view(lines@) =~= before.push(seq![("Selected"@, title_style)]));
        if selected.len() == 0 {
            let ghost before2 = lines_view(lines@);
            lines.push(text_line(chars_of("All"), style));
            assert(lines_view(lines@) =~= before2.push(seq![("All"@, style)]));
        } else {
            let rows: usize = if height >= 5 {
                height - 5
            } else {
                0
            };
            let wrapped = wrap_joined_tags(selected, width, rows);
            append_lines(&mut lines, one_span_lines(wrapped, style));
        }
    }
    lines
}

proof fn lemma_packed_bounds(items: Seq<(String, bool, bool)>, k: nat, width: nat, height: nat, box_focused: bool)
    requires
        k <= items.len(),
        height > 0,
    ensures
        packed(items, k, width, height, box_focused).lines.len() <= height,
        !packed(items, k, width, height, box_focused).stopped && k < items.len() ==> packed(
            items,
            k,
            width,
            height,
            box_focused,
        ).lines.len() < height,
    decreases k,
{
    if k > 0 {
        lemma_packed_bounds(items, (k - 1) as nat, width, height, box_focused);
    }
}

/// A box never lists its options on more lines than it has.
pub proof fn law_option_lines_fit(items: Seq<(String, bool, bool)>, width: nat, height: nat, box_focused: bool)
    ensures
        option_lines(items, width, height, box_focused).len() <= height,
{
    if items.len() > 0 && width > 0 && height > 0 {
        lemma_packed_bounds(items, items.len(), width, height, box_focused);
        let st = packed(items, items.len(), width, height, box_focused);
        if items.len() > 0 && !st.stopped {
            lemma_packed_bounds(items, (items.len() - 1) as nat, width, height, box_focused);
        }
    }
}

proof fn lemma_tag_lines_bound(chars: Seq<char>, width: nat, height: nat, start: int, lines: Seq<Seq<char>>)
    requires
        lines.len() <= height,
    ensures
        tag_lines_from(chars, width, height, start, lines).0.len() <= height,
        tag_lines_from(chars, width, height, start, lines).0.len() >= lines.len(),
    decreases height - lines.len(),
{
    if start < chars.len() && lines.len() < height {
        let (l, next) = tag_line(chars, start, width);
        lemma_tag_lines_bound(chars, width, height, next, lines.push(l));
    }
}

/// Chosen tags never take more lines than the box has.
pub proof fn law_wrapped_tags_fit(tags: Seq<Seq<char>>, width: nat, height: nat)
    ensures
        wrapped_tags(tags, width, height).len() <= height,
{
    let chars = joined(tags, ", "@);
    if width > 0 && height > 0 && chars.len() > 0 {
        lemma_tag_lines_bound(chars, width, height, 0, Seq::empty());
    }
}

} // verus!
