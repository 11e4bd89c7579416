use vstd::prelude::*;

use crate::chars::{chars_of, concat_chars, string_of};
use crate::text::{
    find_char, first_occurrence, is_bold_marker, lemma_first_occurrence_occurs, markdown_token_str,
    markdown_token_text, occurs_at,
};

verus! {

/// How a piece of description text is shown.
#[derive(Clone, Copy, Debug, PartialEq, Eq, Structural)]
pub enum SpanKind {
    /// In the surrounding style.
    Plain,
    /// Bold, in the surrounding style.
    Bold,
    /// Italic, in the surrounding style.
    Italic,
    /// Inline code.
    Code,
    /// A link or its text.
    Link,
    /// The target of a link, after its text.
    LinkTarget,
}

/// A piece of description text and how it is shown.
#[derive(Debug)]
pub struct StyledSpan {
    pub text: String,
    pub kind: SpanKind,
}

/// The text and kind of a span.
pub type SpanView = (Seq<char>, SpanKind);

/// The views of a list of spans.
pub open spec fn span_views(s: Seq<StyledSpan>) -> Seq<SpanView> {
    s.map_values(|x: StyledSpan| (x.text@, x.kind))
}

/// The earliest markup token among the first `k` (see `markdown_token_text`)
/// in a line of characters, with its position: on a tie a bold marker wins,
/// otherwise the token looked for later.
pub open spec fn best_token(line: Seq<char>, k: int) -> Option<(int, int)>
    decreases k,
{
    if k <= 0 {
        None
    } else {
        let best = best_token(line, k - 1);
        match first_occurrence(line, markdown_token_text(k - 1)) {
            None => best,
            Some(pos) => match best {
                None => Some((pos, k - 1)),
                Some((best_pos, best_t)) => if pos < best_pos {
                    Some((pos, k - 1))
                } else if pos == best_pos {
                    Some(
                        (
                            best_pos,
                            if is_bold_marker(k - 1) {
                                k - 1
                            } else if is_bold_marker(best_t) {
                                best_t
                            } else {
                                k - 1
                            },
                        ),
                    )
                } else {
                    best
                },
            },
        }
    }
}

/// The token `best_token` names occurs where it says.
proof fn lemma_best_token(line: Seq<char>, k: int)
    ensures
        best_token(line, k) matches Some((p, t)) ==> 0 <= t < k && occurs_at(line, markdown_token_text(t), p),
    decreases k,
{
    if k > 0 {
        lemma_best_token(line, k - 1);
        lemma_first_occurrence_occurs(line, markdown_token_text(k - 1));
    }
}

/// The first position of a pattern, if any.
pub open spec fn find(s: Seq<char>, pat: Seq<char>) -> Option<int> {
    first_occurrence(s, pat)
}

/// The smaller of a bound and an optional position.
pub open spec fn min_found(bound: int, found: Option<int>) -> int {
    match found {
        Some(p) => if p < bound {
            p
        } else {
            bound
        },
        None => bound,
    }
}

/// Where a bare link ends: at the first space, tab or line break, else at
/// the end.
pub open spec fn url_end(rest: Seq<char>) -> int {
    min_found(min_found(min_found(rest.len() as int, find(rest, " "@)), find(rest, "\t"@)), find(rest, "\n"@))
}

/// Characters dropped from the end of a bare link.
pub open spec fn is_url_tail(c: char) -> bool {
    c == '.' || c == ',' || c == ')' || c == ']' || c == '}' || c == '>'
}

/// A bare link without its trailing punctuation.
pub open spec fn url_trimmed(s: Seq<char>) -> Seq<char>
    decreases s.len(),
{
    if s.len() > 0 && is_url_tail(s.last()) {
        url_trimmed(s.drop_last())
    } else {
        s
    }
}

/// One span, or none when its text is empty.
pub open spec fn span_if(text: Seq<char>, kind: SpanKind) -> Seq<SpanView> {
    if text.len() > 0 {
        seq![(text, kind)]
    } else {
        seq![]
    }
}

/// The spans of markup that starts with a paired marker (`**`, `__`, `*` or
/// `` ` ``) of the given width, and how much of the text it takes: the text up
/// to the closing marker, shown in the given kind (code even when empty); the
/// marker alone, as plain text, when it is not closed.
pub open spec fn paired_spans(rest: Seq<char>, marker: Seq<char>, kind: SpanKind) -> (Seq<SpanView>, int) {
    let w = marker.len() as int;
    let body = rest.subrange(w, rest.len() as int);
    match find(body, marker) {
        Some(end) => (
            if kind == SpanKind::Code {
                seq![(body.subrange(0, end), kind)]
            } else {
                span_if(body.subrange(0, end), kind)
            },
            w + end + w,
        ),
        None => (seq![(marker, SpanKind::Plain)], w),
    }
}

/// The spans of a bare link and how much of the text it takes: the link
/// without trailing punctuation, then that punctuation as plain text.
pub open spec fn url_spans(rest: Seq<char>) -> (Seq<SpanView>, int) {
    let end = url_end(rest);
    let raw = rest.subrange(0, end);
    let trimmed = url_trimmed(raw);
    (
        span_if(trimmed, SpanKind::Link) + span_if(raw.subrange(trimmed.len() as int, raw.len() as int), SpanKind::Plain),
        end,
    )
}

/// The spans of a `[text](target)` link and how much of the text it takes:
/// the text as a link and ` [target]` after it, each when not empty; a lone
/// `[` as plain text when the link is not complete.
pub open spec fn bracket_spans(rest: Seq<char>) -> (Seq<SpanView>, int) {
    let body = rest.subrange(1, rest.len() as int);
    match find(body, "]("@) {
        Some(close_text) => {
            let url_start = close_text + 2;
            match find(body.subrange(url_start, body.len() as int), ")"@) {
                Some(close_url) => {
                    let text = body.subrange(0, close_text);
                    let url = body.subrange(url_start, url_start + close_url);
                    (
                        span_if(text, SpanKind::Link) + span_if(
                            if url.len() > 0 {
                                " ["@ + url + "]"@
                            } else {
                                seq![]
                            },
                            SpanKind::LinkTarget,
                        ),
                        1 + close_text + 2 + close_url + 1,
                    )
                },
                None => (seq![("["@, SpanKind::Plain)], 1),
            }
        },
        None => (seq![("["@, SpanKind::Plain)], 1),
    }
}

/// The spans of the markup at the start of `rest`, which starts with token
/// `t`, and how much of the text it takes.
pub open spec fn token_spans(rest: Seq<char>, t: int) -> (Seq<SpanView>, int) {
    if t == 0 || t == 1 {
        url_spans(rest)
    } else if t == 2 || t == 3 {
        paired_spans(rest, markdown_token_text(t), SpanKind::Bold)
    } else if t == 4 {
        paired_spans(rest, "*"@, SpanKind::Italic)
    } else if t == 5 {
        paired_spans(rest, "`"@, SpanKind::Code)
    } else {
        bracket_spans(rest)
    }
}

/// The spans of a description line: plain text up to the next token, the
/// spans of the markup there, then the spans of what follows.
pub open spec fn markdown_spans(s: Seq<char>) -> Seq<SpanView>
    decreases s.len(),
{
    if s.len() == 0 {
        seq![]
    } else {
        match best_token(s, 7) {
            None => seq![(s, SpanKind::Plain)],
            Some((pos, t)) => {
                let lead = span_if(s.subrange(0, pos), SpanKind::Plain);
                let rest = s.subrange(pos, s.len() as int);
                let (spans, consumed) = token_spans(rest, t);
                if 0 < consumed <= rest.len() && 0 <= pos <= s.len() {
                    lead + spans + markdown_spans(rest.subrange(consumed, rest.len() as int))
                } else {
                    lead + spans
                }
            },
        }
    }
}

/// The spans a description line is drawn with; one empty plain span for a
/// line that gives none.
pub open spec fn styled_markdown(s: Seq<char>) -> Seq<SpanView> {
    let spans = markdown_spans(s);
    if spans.len() == 0 {
        seq![(seq![], SpanKind::Plain)]
    } else {
        spans
    }
}


fn sub_chars(v: &Vec<char>, lo: usize, hi: usize) -> (r: Vec<char>)
    requires
        lo <= hi <= v@.len(),
    ensures
        r@ == v@.subrange(lo as int, hi as int),
{
    let mut r: Vec<char> = Vec::new();
    let mut i: usize = lo;
    while i < hi
        invariant
            lo <= i <= hi,
            hi <= v@.len(),
            r@ == v@.subrange(lo as int, i as int),
        decreases hi - i,
    {
        r.push(v[i]);
        i = i + 1;
        assert(r@ =~= v@.subrange(lo as int, i as int));
    }
    r
}

fn find_in(s: &Vec<char>, pat: &str) -> (r: Option<usize>)
    ensures
        match r {
            Some(i) => find(s@, pat@) == Some(i as int),
            None => find(s@, pat@) is None,
        },
{
    let p = chars_of(pat);
    find_char(s.as_slice(), p.as_slice())
}

/// The next markup token in a line of characters: its position and which
/// token it is.
pub fn next_token(line: &Vec<char>) -> (r: Option<(usize, usize)>)
    ensures
        match best_token(line@, 7) {
            Some((pos, t)) => r == Some((pos as usize, t as usize)) && pos == r.unwrap().0 && t == r.unwrap().1,
            None => r is None,
        },
{
    let mut best: Option<(usize, usize)> = None;
    let mut t: usize = 0;
    while t < 7
        invariant
            t <= 7,
            match best_token(line@, t as int) {
                Some((pos, tok)) => best matches Some((p, bt)) && p as int == pos && bt as int == tok,
                None => best is None,
            },
        decreases 7 - t,
    {
        proof {
            lemma_best_token(line@, t as int);
        }
        let found = find_in(line, markdown_token_str(t));
        match found {
            Some(pos) => {
                best = match best {
                    None => Some((pos, t)),
                    Some((best_pos, best_t)) => if pos < best_pos {
                        Some((pos, t))
                    } else if pos == best_pos {
                        let next = if t == 2 || t == 3 {
                            t
                        } else if best_t == 2 || best_t == 3 {
                            best_t
                        } else {
                            t
                        };
                        Some((best_pos, next))
                    } else {
                        Some((best_pos, best_t))
                    },
                };
            },
            None => {},
        }
        t = t + 1;
    }
    best
}

fn span(text: Vec<char>, kind: SpanKind) -> (r: StyledSpan)
    ensures
        r.text@ == text@,
        r.kind == kind,
{
    StyledSpan { text: string_of(text.as_slice()), kind }
}

fn push_span_if(out: &mut Vec<StyledSpan>, text: Vec<char>, kind: SpanKind)
    ensures
        span_views(final(out)@) == span_views(old(out)@) + span_if(text@, kind),
{
    let ghost before = out@;
    if text.len() > 0 {
        out.push(span(text, kind));
        assert(span_views(out@) =~= span_views(before) + span_if(text@, kind));
    } else {
        assert(span_views(out@) =~= span_views(before) + span_if(text@, kind));
    }
}

fn push_span(out: &mut Vec<StyledSpan>, text: Vec<char>, kind: SpanKind)
    ensures
        span_views(final(out)@) == span_views(old(out)@) + seq![(text@, kind)],
{
    let ghost before = out@;
    out.push(span(text, kind));
    assert(span_views(out@) =~= span_views(before) + seq![(text@, kind)]);
}

fn paired_spans_exec(out: &mut Vec<StyledSpan>, rest: &Vec<char>, marker: &str, kind: SpanKind) -> (consumed: usize)
    requires
        marker@.len() <= rest@.len(),
        marker@.len() > 0,
    ensures
        span_views(final(out)@) == span_views(old(out)@) + paired_spans(rest@, marker@, kind).0,
        consumed == paired_spans(rest@, marker@, kind).1,
        0 < consumed <= rest@.len(),
{
    let m = chars_of(marker);
    let w = m.len();
    let body = sub_chars(rest, w, rest.len());
    match find_in(&body, marker) {
        Some(end) => {
            proof {
                lemma_first_occurrence_occurs(body@, marker@);
            }
            let text = sub_chars(&body, 0, end);
            if kind == SpanKind::Code {
                push_span(out, text, kind);
            } else {
                push_span_if(out, text, kind);
            }
            w + end + w
        },
        None => {
            push_span(out, m, SpanKind::Plain);
            w
        },
    }
}

fn is_url_tail_char(c: char) -> (b: bool)
    ensures
        b == is_url_tail(c),
{
    c == '.' || c == ',' || c == ')' || c == ']' || c == '}' || c == '>'
}

proof fn lemma_url_trimmed_prefix(s: Seq<char>)
    ensures
        url_trimmed(s).len() <= s.len(),
        url_trimmed(s) == s.subrange(0, url_trimmed(s).len() as int),
    decreases s.len(),
{
    if s.len() > 0 && is_url_tail(s.last()) {
        lemma_url_trimmed_prefix(s.drop_last());
        assert(s.drop_last().subrange(0, url_trimmed(s).len() as int) =~= s.subrange(
            0,
            url_trimmed(s).len() as int,
        ));
    } else {
        assert(s.subrange(0, s.len() as int) =~= s);
    }
}

proof fn lemma_url_trimmed_step(s: Seq<char>, k: int)
    requires
        0 <= k <= s.len(),
        forall|j: int| k <= j < s.len() ==> is_url_tail(#[trigger] s[j]),
    ensures
        url_trimmed(s) == url_trimmed(s.subrange(0, k)),
    decreases s.len() - k,
{
    if k < s.len() {
        assert(s.drop_last() =~= s.subrange(0, s.len() - 1));
        lemma_url_trimmed_step(s.drop_last(), k);
        assert(s.drop_last().subrange(0, k) =~= s.subrange(0, k));
    } else {
        assert(s.subrange(0, k) =~= s);
    }
}

fn url_spans_exec(out: &mut Vec<StyledSpan>, rest: &Vec<char>) -> (consumed: usize)
    requires
        rest@.len() > 0,
        rest@[0] == 'h',
    ensures
        span_views(final(out)@) == span_views(old(out)@) + url_spans(rest@).0,
        consumed == url_spans(rest@).1,
        0 < consumed <= rest@.len(),
{
    let mut end = rest.len();
    proof {
        lemma_first_occurrence_occurs(rest@, " "@);
        lemma_first_occurrence_occurs(rest@, "\t"@);
        lemma_first_occurrence_occurs(rest@, "\n"@);
        reveal_strlit(" ");
        reveal_strlit("\t");
        reveal_strlit("\n");
    }
    if let Some(p) = find_in(rest, " ") {
        assert(rest@.subrange(p as int, p + 1)[0] == ' ');
        end = p;
    }
    if let Some(p) = find_in(rest, "\t") {
        assert(rest@.subrange(p as int, p + 1)[0] == '\t');
        if p < end {
            end = p;
        }
    }
    if let Some(p) = find_in(rest, "\n") {
        assert(rest@.subrange(p as int, p + 1)[0] == '\n');
        if p < end {
            end = p;
        }
    }
    assert(end == url_end(rest@));
    let raw = sub_chars(rest, 0, end);
    let mut k = raw.len();
    while k > 0 && is_url_tail_char(raw[k - 1])
        invariant
            k <= raw@.len(),
            forall|j: int| k <= j < raw@.len() ==> is_url_tail(#[trigger] raw@[j]),
        decreases k,
    {
        k = k - 1;
    }
    proof {
        lemma_url_trimmed_step(raw@, k as int);
        let t = raw@.subrange(0, k as int);
        if k > 0 {
            assert(!is_url_tail(t.last()));
        }
        assert(url_trimmed(t) == t);
    }
    let trimmed = sub_chars(&raw, 0, k);
    let tail = sub_chars(&raw, k, raw.len());
    push_span_if(out, trimmed, SpanKind::Link);
    let ghost mid = out@;
    push_span_if(out, tail, SpanKind::Plain);
    proof {
        assert(span_views(out@) =~= span_views(old(out)@) + url_spans(rest@).0);
    }
    end
}

fn bracket_spans_exec(out: &mut Vec<StyledSpan>, rest: &Vec<char>) -> (consumed: usize)
    requires
        rest@.len() > 0,
    ensures
        span_views(final(out)@) == span_views(old(out)@) + bracket_spans(rest@).0,
        consumed == bracket_spans(rest@).1,
        0 < consumed <= rest@.len(),
{
    let body = sub_chars(rest, 1, rest.len());
    proof {
        reveal_strlit("](");
        reveal_strlit(")");
    }
    match find_in(&body, "](") {
        Some(close_text) => {
            proof {
                lemma_first_occurrence_occurs(body@, "]("@);
            }
            let url_start = close_text + 2;
            let after = sub_chars(&body, url_start, body.len());
            match find_in(&after, ")") {
                Some(close_url) => {
                    proof {
                        lemma_first_occurrence_occurs(after@, ")"@);
                    }
                    let text = sub_chars(&body, 0, close_text);
                    let url = sub_chars(&body, url_start, url_start + close_url);
                    assert(url@ =~= body@.subrange(url_start as int, url_start + close_url));
                    push_span_if(out, text, SpanKind::Link);
                    let target = if url.len() > 0 {
                        concat_chars(&concat_chars(&chars_of(" ["), &url), &chars_of("]"))
                    } else {
                        Vec::new()
                    };
                    assert(target@ =~= if url@.len() > 0 {
                        " ["@ + url@ + "]"@
                    } else {
                        seq![]
                    });
                    push_span_if(out, target, SpanKind::LinkTarget);
                    proof {
                        assert(span_views(out@) =~= span_views(old(out)@) + bracket_spans(rest@).0);
                    }
                    1 + close_text + 2 + close_url + 1
                },
                None => {
                    push_span(out, chars_of("["), SpanKind::Plain);
                    1
                },
            }
        },
        None => {
            push_span(out, chars_of("["), SpanKind::Plain);
            1
        },
    }
}


fn token_spans_exec(out: &mut Vec<StyledSpan>, rest: &Vec<char>, t: usize) -> (consumed: usize)
    requires
        t < 7,
        occurs_at(rest@, markdown_token_text(t as int), 0),
    ensures
        span_views(final(out)@) == span_views(old(out)@) + token_spans(rest@, t as int).0,
        consumed == token_spans(rest@, t as int).1,
        0 < consumed <= rest@.len(),
{
    proof {
        reveal_strlit("https://");
        reveal_strlit("http://");
        reveal_strlit("**");
        reveal_strlit("__");
        reveal_strlit("*");
        reveal_strlit("`");
        reveal_strlit("[");
        assert(rest@.subrange(0, markdown_token_text(t as int).len() as int)[0] == rest@[0]);
    }
    if t == 0 || t == 1 {
        url_spans_exec(out, rest)
    } else if t == 2 || t == 3 {
        paired_spans_exec(out, rest, markdown_token_str(t), SpanKind::Bold)
    } else if t == 4 {
        paired_spans_exec(out, rest, "*", SpanKind::Italic)
    } else if t == 5 {
        paired_spans_exec(out, rest, "`", SpanKind::Code)
    } else {
        bracket_spans_exec(out, rest)
    }
}

/// Splits a description line into styled spans: `**bold**`, `__bold__`,
/// `*italic*`, `` `code` ``, bare `http://` and `https://` links and
/// `[text](target)` links, the rest as plain text; one empty plain span for
/// an empty line.
pub fn parse_styled_markdown(raw: &str) -> (r: Vec<StyledSpan>)
    ensures
        span_views(r@) == styled_markdown(raw@),
{
    let cs = chars_of(raw);
    let mut out: Vec<StyledSpan> = Vec::new();
    let mut i: usize = 0;
    assert(cs@.subrange(0, cs@.len() as int) =~= cs@);
    assert(span_views(out@) =~= seq![]);
    while i < cs.len()
        invariant
            i <= cs@.len(),
            span_views(out@) + markdown_spans(cs@.subrange(i as int, cs@.len() as int)) == markdown_spans(cs@),
        decreases cs@.len() - i,
    {
        let rest = sub_chars(&cs, i, cs.len());
        let ghost before = span_views(out@);
        match next_token(&rest) {
            None => {
                push_span(&mut out, rest, SpanKind::Plain);
                i = cs.len();
                assert(cs@.subrange(i as int, cs@.len() as int) =~= seq![]);
                assert(span_views(out@) + markdown_spans(cs@.subrange(i as int, cs@.len() as int)) =~= before
                    + markdown_spans(rest@));
            },
            Some((pos, t)) => {
                proof {
                    lemma_best_token(rest@, 7);
                }
                let lead = sub_chars(&rest, 0, pos);
                push_span_if(&mut out, lead, SpanKind::Plain);
                let tail = sub_chars(&rest, pos, rest.len());
                proof {
                    assert(tail@.subrange(0, markdown_token_text(t as int).len() as int) =~= rest@.subrange(
                        pos as int,
                        pos + markdown_token_text(t as int).len(),
                    ));
                }
                let consumed = token_spans_exec(&mut out, &tail, t);
                let ghost spans = token_spans(tail@, t as int).0;
                i = i + pos + consumed;
                proof {
                    assert(tail@.subrange(consumed as int, tail@.len() as int) =~= cs@.subrange(
                        i as int,
                        cs@.len() as int,
                    ));
                    let lead_spans = span_if(rest@.subrange(0, pos as int), SpanKind::Plain);
                    let next = markdown_spans(cs@.subrange(i as int, cs@.len() as int));
                    assert(markdown_spans(rest@) == lead_spans + spans + next);
                    assert(span_views(out@) + next =~= before + (lead_spans + spans + next));
                }
            },
        }
    }
    assert(cs@.subrange(i as int, cs@.len() as int) =~= seq![]);
    assert(span_views(out@) =~= markdown_spans(cs@));
    if out.len() == 0 {
        push_span(&mut out, Vec::new(), SpanKind::Plain);
    }
    out
}

} // verus!
