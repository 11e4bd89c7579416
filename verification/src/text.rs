use std::time::SystemTime;
use vstd::prelude::*;

use crate::chars::{chars_of, decimal, decimal_chars, string_of};
use vstd::string::StringSliceAdditionalSpecFns;
use crate::status::system_time_now;

verus! {

/// The text rotated left by `shift` characters (modulo its length).
pub open spec fn rotated_left(s: Seq<char>, shift: nat) -> Seq<char> {
    if s.len() == 0 {
        s
    } else {
        let k = (shift % s.len()) as int;
        s.subrange(k, s.len() as int) + s.subrange(0, k)
    }
}

/// Rotates the characters of a text left, as a marquee scrolls it.
pub fn rotate_left_chars(src: &str, shift: usize) -> (r: String)
    ensures
        r@ == rotated_left(src@, shift as nat),
{
    let cs = chars_of(src);
    let n = cs.len();
    if n == 0 {
        return String::new();
    }
    let k = shift % n;
    let mut out: Vec<char> = Vec::new();
    let mut i: usize = k;
    while i < n
        invariant
            k <= i <= n,
            n == cs@.len(),
            out@ == cs@.subrange(k as int, i as int),
        decreases n - i,
    {
        out.push(cs[i]);
        i = i + 1;
        assert(out@ =~= cs@.subrange(k as int, i as int));
    }
    let mut j: usize = 0;
    while j < k
        invariant
            j <= k < n,
            n == cs@.len(),
            out@ == cs@.subrange(k as int, n as int) + cs@.subrange(0, j as int),
        decreases k - j,
    {
        out.push(cs[j]);
        j = j + 1;
        assert(out@ =~= cs@.subrange(k as int, n as int) + cs@.subrange(0, j as int));
    }
    string_of(out.as_slice())
}

/// The first `width` characters of a text (all of it when it is shorter).
pub open spec fn compacted(s: Seq<char>, width: nat) -> Seq<char> {
    if s.len() <= width {
        s
    } else {
        s.subrange(0, width as int)
    }
}

fn take_chars(cs: &Vec<char>, width: usize) -> (r: Vec<char>)
    ensures
        r@ == compacted(cs@, width as nat),
{
    let m = if cs.len() <= width {
        cs.len()
    } else {
        width
    };
    let mut out: Vec<char> = Vec::new();
    let mut i: usize = 0;
    while i < m
        invariant
            i <= m <= cs@.len(),
            out@ == cs@.subrange(0, i as int),
        decreases m - i,
    {
        out.push(cs[i]);
        i = i + 1;
        assert(out@ =~= cs@.subrange(0, i as int));
    }
    assert(cs@.subrange(0, cs@.len() as int) =~= cs@);
    out
}

/// A text cut to fit a cell of `width` characters.
pub fn compact_cell_text(src: String, width: usize) -> (r: String)
    ensures
        r@ == compacted(src@, width as nat),
{
    let cs = chars_of(src.as_str());
    if width == 0 || cs.len() == 0 {
        assert(compacted(src@, width as nat) =~= Seq::<char>::empty());
        return String::new();
    }
    if cs.len() <= width {
        src
    } else {
        string_of(take_chars(&cs, width).as_slice())
    }
}

/// The width an item takes in a window: its cut text, at least one cell.
pub open spec fn item_width(s: Seq<char>, max_width: nat) -> int {
    let w = compacted(s, max_width).len() as int;
    if w < 1 {
        1
    } else {
        w
    }
}

/// Items are two cells apart.
pub const ITEM_SEPARATOR: usize = 2;

/// One widening pass over the window `[start, end)` that takes `used` cells: the
/// next item on the right joins when it fits, then the one on the left.
pub open spec fn widen_once(w: Seq<int>, max_width: int, start: int, end: int, used: int) -> (int, int, int) {
    let (end1, used1) = if end < w.len() && used + w[end] + 2 <= max_width {
        (end + 1, used + w[end] + 2)
    } else {
        (end, used)
    };
    if start > 0 && used1 + w[start - 1] + 2 <= max_width {
        (start - 1, end1, used1 + w[start - 1] + 2)
    } else {
        (start, end1, used1)
    }
}

/// The window after widening passes until a pass adds nothing.
pub open spec fn widened(w: Seq<int>, max_width: int, start: int, end: int, used: int) -> (int, int)
    decreases w.len() - (end - start),
{
    if !(0 <= start <= end <= w.len()) {
        (start, end)
    } else {
        let (s1, e1, u1) = widen_once(w, max_width, start, end, used);
        if s1 == start && e1 == end {
            (start, end)
        } else {
            widened(w, max_width, s1, e1, u1)
        }
    }
}

/// `i` is the first selected item, or 0 when none is selected.
pub open spec fn is_first_selected(items: Seq<(String, bool)>, i: int) -> bool {
    if exists|j: int| 0 <= j < items.len() && #[trigger] items[j].1 {
        &&& 0 <= i < items.len()
        &&& items[i].1
        &&& forall|j: int| 0 <= j < i ==> !(#[trigger] items[j].1)
    } else {
        i == 0
    }
}

/// The widths of the items in a window.
pub open spec fn item_widths(items: Seq<(String, bool)>, max_width: nat) -> Seq<int> {
    Seq::new(items.len(), |i: int| item_width(items[i].0@, max_width))
}

/// The items shown in a one-line strip of `max_width` cells: the window around
/// the first selected item (or the first item), widened one item at a time, right
/// then left, while the items and two cells between neighbours fit; each item
/// cut to `max_width` characters.
pub open spec fn item_window(
    items: Seq<(String, bool)>,
    max_width: nat,
    sel: int,
    r: Seq<(String, bool)>,
) -> bool {
    let w = item_widths(items, max_width);
    let (s, e) = widened(w, max_width as int, sel, sel + 1, w[sel]);
    &&& r.len() == e - s
    &&& forall|k: int|
        0 <= k < r.len() ==> (#[trigger] r[k]).0@ == compacted(items[s + k].0@, max_width) && r[k].1
            == items[s + k].1
}

proof fn lemma_widened_bounds(w: Seq<int>, max_width: int, start: int, end: int, used: int)
    requires
        0 <= start <= end <= w.len(),
    ensures
        0 <= widened(w, max_width, start, end, used).0 <= start,
        end <= widened(w, max_width, start, end, used).1 <= w.len(),
    decreases w.len() - (end - start),
{
    let (s1, e1, u1) = widen_once(w, max_width, start, end, used);
    if !(s1 == start && e1 == end) {
        lemma_widened_bounds(w, max_width, s1, e1, u1);
    }
}

/// The items of a one-line strip that fit around the selected one.
pub fn build_horizontal_item_window(items: &[(String, bool)], max_width: usize) -> (r: Vec<(String, bool)>)
    ensures
        items@.len() == 0 || max_width == 0 ==> r@.len() == 0,
        items@.len() > 0 && max_width > 0 ==> exists|sel: int|
            #[trigger] is_first_selected(items@, sel) && item_window(items@, max_width as nat, sel, r@),
{
    let n = items.len();
    if n == 0 || max_width == 0 {
        return Vec::new();
    }
    let mut sel: usize = 0;
    let mut found = false;
    let mut i: usize = 0;
    while i < n
        invariant
            n == items@.len(),
            i <= n,
            !found ==> sel == 0 && forall|j: int| 0 <= j < i ==> !(#[trigger] items@[j].1),
            found ==> sel < n && items@[sel as int].1 && forall|j: int| 0 <= j < sel ==> !(
            #[trigger] items@[j].1),
        decreases n - i,
    {
        if !found && items[i].1 {
            sel = i;
            found = true;
        }
        i = i + 1;
    }
    assert(is_first_selected(items@, sel as int));
    let ghost wv = item_widths(items@, max_width as nat);
    let mut texts: Vec<String> = Vec::new();
    let mut widths: Vec<usize> = Vec::new();
    let mut k: usize = 0;
    while k < n
        invariant
            n == items@.len(),
            k <= n,
            texts@.len() == k,
            widths@.len() == k,
            wv == item_widths(items@, max_width as nat),
            forall|j: int|
                0 <= j < k ==> (#[trigger] texts@[j])@ == compacted(items@[j].0@, max_width as nat),
            forall|j: int| 0 <= j < k ==> #[trigger] widths@[j] == wv[j],
            forall|j: int| 0 <= j < k ==> 1 <= #[trigger] widths@[j] <= max_width,
            max_width > 0,
        decreases n - k,
    {
        let text = compact_cell_text(items[k].0.clone(), max_width);
        let len = chars_of(text.as_str()).len();
        let width = if len < 1 {
            1
        } else {
            len
        };
        texts.push(text);
        widths.push(width);
        k = k + 1;
    }
    let mut start: usize = sel;
    let mut end: usize = sel + 1;
    let mut used: usize = widths[sel];
    let ghost target = widened(wv, max_width as int, sel as int, sel + 1, wv[sel as int]);
    while start > 0 || end < n
        invariant
            n == items@.len(),
            widths@.len() == n,
            forall|j: int| 0 <= j < n ==> #[trigger] widths@[j] == wv[j],
            forall|j: int| 0 <= j < n ==> 1 <= #[trigger] widths@[j] <= max_width,
            wv.len() == n,
            0 <= start < end <= n,
            used <= max_width,
            widened(wv, max_width as int, start as int, end as int, used as int) == target,
        ensures
            target == (start as int, end as int),
            0 <= start < end <= n,
        decreases n - (end - start),
    {
        let ghost (s0, e0, u0) = (start as int, end as int, used as int);
        let mut extended = false;
        if end < n && widths[end] <= max_width - used && 2 <= max_width - used - widths[end] {
            used = used + widths[end] + 2;
            end = end + 1;
            extended = true;
        }
        if start > 0 && widths[start - 1] <= max_width - used && 2 <= max_width - used
            - widths[start - 1] {
            used = used + widths[start - 1] + 2;
            start = start - 1;
            extended = true;
        }
        assert(widen_once(wv, max_width as int, s0, e0, u0) == (start as int, end as int, used as int));
        if !extended {
            break;
        }
    }
    let mut r: Vec<(String, bool)> = Vec::new();
    let mut j: usize = start;
    while j < end
        invariant
            start <= j <= end <= n,
            n == items@.len(),
            texts@.len() == n,
            r@.len() == j - start,
            forall|m: int|
                0 <= m < n ==> (#[trigger] texts@[m])@ == compacted(items@[m].0@, max_width as nat),
            forall|m: int|
                0 <= m < r@.len() ==> (#[trigger] r@[m]).0@ == compacted(
                    items@[start + m].0@,
                    max_width as nat,
                ) && r@[m].1 == items@[start + m].1,
        decreases end - j,
    {
        r.push((texts[j].clone(), items[j].1));
        j = j + 1;
    }
    assert(item_window(items@, max_width as nat, sel as int, r@));
    r
}

/// The selected item is inside the window the strip shows.
pub proof fn law_window_shows_selected(items: Seq<(String, bool)>, max_width: nat, sel: int)
    requires
        0 <= sel < items.len(),
    ensures
        ({
            let w = item_widths(items, max_width);
            let (s, e) = widened(w, max_width as int, sel, sel + 1, w[sel]);
            0 <= s <= sel < e <= items.len()
        }),
{
    let w = item_widths(items, max_width);
    lemma_widened_bounds(w, max_width as int, sel, sel + 1, w[sel]);
}

/// The lines a text wraps into in a box `width` characters wide and `height`
/// lines tall: consecutive runs of `width` characters (the last one shorter),
/// as many as fit; one empty line for an empty text.
pub open spec fn wrapped_lines(s: Seq<char>, width: nat, height: nat) -> Seq<Seq<char>> {
    if width == 0 || height == 0 {
        Seq::empty()
    } else if s.len() == 0 {
        seq![Seq::empty()]
    } else {
        let count = (s.len() + width - 1) / width as int;
        let shown = if count < height { count } else { height as int };
        Seq::new(
            shown as nat,
            |k: int|
                s.subrange(
                    k * width,
                    if (k + 1) * width < s.len() {
                        (k + 1) * width
                    } else {
                        s.len() as int
                    },
                ),
        )
    }
}

/// Wraps a text into the lines of a box, character by character.
pub fn wrap_text_lines(text: &str, width: usize, height: usize) -> (r: Vec<String>)
    ensures
        r@.len() == wrapped_lines(text@, width as nat, height as nat).len(),
        forall|k: int|
            0 <= k < r@.len() ==> (#[trigger] r@[k])@ == wrapped_lines(
                text@,
                width as nat,
                height as nat,
            )[k],
{
    if width == 0 || height == 0 {
        return Vec::new();
    }
    let cs = chars_of(text);
    let n = cs.len();
    if n == 0 {
        let mut r: Vec<String> = Vec::new();
        r.push(String::new());
        return r;
    }
    let ghost spec_lines = wrapped_lines(text@, width as nat, height as nat);
    let ghost count = (n + width - 1) / width as int;
    let mut lines: Vec<String> = Vec::new();
    let mut start: usize = 0;
    while start < n && lines.len() < height
        invariant
            n == cs@.len(),
            cs@ == text@,
            width > 0,
            height > 0,
            n > 0,
            spec_lines == wrapped_lines(text@, width as nat, height as nat),
            count == (n + width - 1) / width as int,
            lines@.len() <= height,
            start == lines@.len() * width || start == n,
            start <= n,
            start < n ==> start == lines@.len() * width,
            start == n ==> lines@.len() == count,
            lines@.len() <= count,
            forall|k: int|
                0 <= k < lines@.len() ==> (#[trigger] lines@[k])@ == cs@.subrange(
                    k * width,
                    if (k + 1) * width < n {
                        (k + 1) * width
                    } else {
                        n as int
                    },
                ),
        decreases n - start,
    {
        let end = if width <= n - start {
            start + width
        } else {
            n
        };
        let piece = take_range(&cs, start, end);
        let line = string_of(piece.as_slice());
        proof {
            assert(lines@.len() * width < n);
            assert((lines@.len() + 1) * width == start + width) by (nonlinear_arith)
                requires
                    start == lines@.len() * width,
            ;
            lemma_count_bound(n as int, width as int, lines@.len() as int);
        }
        lines.push(line);
        start = end;
    }
    proof {
        let shown = if count < height { count } else { height as int };
        assert(lines@.len() == shown) by {
            if start < n {
                assert(lines@.len() == height);
                assert((height - 1) * width < n) by (nonlinear_arith)
                    requires
                        start == height * width,
                        start < n,
                        width > 0,
                        height > 0,
                ;
                lemma_count_bound(n as int, width as int, height as int - 1);
            }
        }
    }
    lines
}

proof fn lemma_count_bound(n: int, width: int, done: int)
    requires
        n > 0,
        width > 0,
        done >= 0,
        done * width < n,
    ensures
        done + 1 <= (n + width - 1) / width,
        (done + 1) * width >= n ==> done + 1 == (n + width - 1) / width,
{
    assert(done + 1 <= (n + width - 1) / width) by (nonlinear_arith)
        requires
            n > 0,
            width > 0,
            done >= 0,
            done * width < n,
    ;
    assert((done + 1) * width >= n ==> done + 1 == (n + width - 1) / width) by (nonlinear_arith)
        requires
            n > 0,
            width > 0,
            done >= 0,
            done * width < n,
    ;
}

fn take_range(cs: &Vec<char>, from: usize, to: usize) -> (r: Vec<char>)
    requires
        from <= to <= cs@.len(),
    ensures
        r@ == cs@.subrange(from as int, to as int),
{
    let mut out: Vec<char> = Vec::new();
    let mut i: usize = from;
    while i < to
        invariant
            from <= i <= to <= cs@.len(),
            out@ == cs@.subrange(from as int, i as int),
        decreases to - i,
    {
        out.push(cs[i]);
        i = i + 1;
        assert(out@ =~= cs@.subrange(from as int, i as int));
    }
    out
}

/// How long ago something happened, in the largest whole unit that has passed:
/// days past a day, hours past an hour, minutes past a minute, else seconds.
pub open spec fn time_ago_text(seconds: nat) -> Seq<char> {
    if seconds > 86_400 {
        decimal(seconds / 86_400) + "d"@
    } else if seconds > 3600 {
        decimal(seconds / 3600) + "h"@
    } else if seconds > 60 {
        decimal(seconds / 60) + "m"@
    } else {
        decimal(seconds) + "s"@
    }
}

/// The age label for a number of elapsed seconds.
pub fn time_ago_label(seconds: u64) -> (r: String)
    ensures
        r@ == time_ago_text(seconds as nat),
{
    let (value, unit) = if seconds > 86_400 {
        (seconds / 86_400, "d")
    } else if seconds > 3600 {
        (seconds / 3600, "h")
    } else if seconds > 60 {
        (seconds / 60, "m")
    } else {
        (seconds, "s")
    };
    let mut r = string_of(decimal_chars(value).as_slice());
    r.append(unit);
    r
}

/// `SystemTime::duration_since`, in whole seconds, or zero when `earlier` is the
/// later one. Nothing is stated of the value: both times are opaque.
#[verifier::external_body]
pub(crate) fn seconds_since(later: SystemTime, earlier: SystemTime) -> u64 {
    later.duration_since(earlier).unwrap_or_default().as_secs()
}

/// How long ago a moment was, by the clock now.
pub fn format_time_ago(ts: SystemTime) -> (r: String)
    ensures
        exists|seconds: u64| r@ == #[trigger] time_ago_text(seconds as nat),
{
    let now = system_time_now();
    let seconds = seconds_since(now, ts);
    let r = time_ago_label(seconds);
    assert(r@ == time_ago_text(seconds as nat));
    r
}

/// `pat` occurs in `s` at position `i`.
pub open spec fn occurs_at<T>(s: Seq<T>, pat: Seq<T>, i: int) -> bool {
    0 <= i && i + pat.len() <= s.len() && s.subrange(i, i + pat.len()) == pat
}

/// `pat` occurs somewhere in `s`.
pub open spec fn contains_seq<T>(s: Seq<T>, pat: Seq<T>) -> bool {
    exists|i: int| #[trigger] occurs_at(s, pat, i)
}

/// The first position where `pat` occurs in `s`.
#[verifier::opaque]
pub open spec fn first_occurrence<T>(s: Seq<T>, pat: Seq<T>) -> Option<int> {
    if contains_seq(s, pat) {
        Some(choose|i: int| occurs_at(s, pat, i) && forall|j: int| 0 <= j < i ==> !#[trigger] occurs_at(s, pat, j))
    } else {
        None
    }
}

proof fn lemma_first_occurrence<T>(s: Seq<T>, pat: Seq<T>, i: int)
    requires
        occurs_at(s, pat, i),
        forall|j: int| 0 <= j < i ==> !#[trigger] occurs_at(s, pat, j),
    ensures
        first_occurrence(s, pat) == Some(i),
{
    reveal(first_occurrence);
    let c = choose|c: int| occurs_at(s, pat, c) && forall|j: int| 0 <= j < c ==> !#[trigger] occurs_at(s, pat, j);
    assert(occurs_at(s, pat, c));
    if c < i {
        assert(!occurs_at(s, pat, c));
    } else if c > i {
        assert(!occurs_at(s, pat, i));
    }
}

/// The first occurrence is an occurrence, with none before it.
pub(crate) proof fn lemma_first_occurrence_occurs<T>(s: Seq<T>, pat: Seq<T>)
    ensures
        first_occurrence(s, pat) matches Some(p) ==> occurs_at(s, pat, p) && forall|j: int|
            0 <= j < p ==> !#[trigger] occurs_at(s, pat, j),
{
    reveal(first_occurrence);
    if contains_seq(s, pat) {
        let i = choose|i: int| #[trigger] occurs_at(s, pat, i);
        lemma_least_occurrence(s, pat, i);
    }
}

proof fn lemma_least_occurrence<T>(s: Seq<T>, pat: Seq<T>, i: int)
    requires
        occurs_at(s, pat, i),
    ensures
        exists|m: int| occurs_at(s, pat, m) && forall|j: int| 0 <= j < m ==> !#[trigger] occurs_at(s, pat, j),
    decreases i,
{
    if exists|j: int| 0 <= j < i && #[trigger] occurs_at(s, pat, j) {
        let j = choose|j: int| 0 <= j < i && #[trigger] occurs_at(s, pat, j);
        lemma_least_occurrence(s, pat, j);
    } else {
        assert(occurs_at(s, pat, i) && forall|j: int| 0 <= j < i ==> !#[trigger] occurs_at(s, pat, j));
    }
}

pub(crate) proof fn lemma_first_occurrence_found<T>(s: Seq<T>, pat: Seq<T>)
    ensures
        first_occurrence(s, pat) is Some <==> contains_seq(s, pat),
{
    reveal(first_occurrence);
}

proof fn lemma_no_occurrence<T>(s: Seq<T>, pat: Seq<T>, upto: int)
    requires
        forall|j: int| 0 <= j < upto ==> !#[trigger] occurs_at(s, pat, j),
        upto + pat.len() > s.len(),
    ensures
        first_occurrence(s, pat) is None,
{
    reveal(first_occurrence);
    assert forall|j: int| !#[trigger] occurs_at(s, pat, j) by {
        if 0 <= j < upto {
        }
    }
}

pub(crate) fn matches_at_char(s: &[char], pat: &[char], i: usize) -> (r: bool)
    ensures
        r == occurs_at(s@, pat@, i as int),
{
    if i > s.len() || pat.len() > s.len() - i {
        return false;
    }
    let mut k: usize = 0;
    while k < pat.len()
        invariant
            i + pat@.len() <= s@.len(),
            s@.len() == s.len(),
            pat@.len() == pat.len(),
            k <= pat@.len(),
            forall|m: int| 0 <= m < k ==> s@[i + m] == pat@[m],
        decreases pat@.len() - k,
    {
        if s[i + k] != pat[k] {
            assert(s@.subrange(i as int, i + pat@.len())[k as int] != pat@[k as int]);
            return false;
        }
        k = k + 1;
    }
    assert(s@.subrange(i as int, i + pat@.len()) =~= pat@);
    true
}

/// The first position where `pat` occurs in `s`.
pub(crate) fn find_char(s: &[char], pat: &[char]) -> (r: Option<usize>)
    ensures
        match r {
            Some(i) => first_occurrence(s@, pat@) == Some(i as int),
            None => first_occurrence(s@, pat@) is None,
        },
{
    if pat.len() > s.len() {
        proof {
            lemma_no_occurrence(s@, pat@, 0);
        }
        return None;
    }
    let last = s.len() - pat.len();
    let mut i: usize = 0;
    while i < last
        invariant
            i <= last,
            last == s@.len() - pat@.len(),
            forall|j: int| 0 <= j < i ==> !#[trigger] occurs_at(s@, pat@, j),
        decreases last - i,
    {
        if matches_at_char(s, pat, i) {
            proof {
                lemma_first_occurrence(s@, pat@, i as int);
            }
            return Some(i);
        }
        i = i + 1;
    }
    if matches_at_char(s, pat, last) {
        proof {
            lemma_first_occurrence(s@, pat@, last as int);
        }
        return Some(last);
    }
    proof {
        lemma_no_occurrence(s@, pat@, last + 1);
    }
    None
}

fn matches_at_u8(s: &[u8], pat: &[u8], i: usize) -> (r: bool)
    ensures
        r == occurs_at(s@, pat@, i as int),
{
    if i > s.len() || pat.len() > s.len() - i {
        return false;
    }
    let mut k: usize = 0;
    while k < pat.len()
        invariant
            i + pat@.len() <= s@.len(),
            s@.len() == s.len(),
            pat@.len() == pat.len(),
            k <= pat@.len(),
            forall|m: int| 0 <= m < k ==> s@[i + m] == pat@[m],
        decreases pat@.len() - k,
    {
        if s[i + k] != pat[k] {
            assert(s@.subrange(i as int, i + pat@.len())[k as int] != pat@[k as int]);
            return false;
        }
        k = k + 1;
    }
    assert(s@.subrange(i as int, i + pat@.len()) =~= pat@);
    true
}

/// The first position where `pat` occurs in `s`, for bytes.
fn find_u8(s: &[u8], pat: &[u8]) -> (r: Option<usize>)
    ensures
        match r {
            Some(i) => first_occurrence(s@, pat@) == Some(i as int),
            None => first_occurrence(s@, pat@) is None,
        },
{
    if pat.len() > s.len() {
        proof {
            lemma_no_occurrence(s@, pat@, 0);
        }
        return None;
    }
    let last = s.len() - pat.len();
    let mut i: usize = 0;
    while i < last
        invariant
            i <= last,
            last == s@.len() - pat@.len(),
            forall|j: int| 0 <= j < i ==> !#[trigger] occurs_at(s@, pat@, j),
        decreases last - i,
    {
        if matches_at_u8(s, pat, i) {
            proof {
                lemma_first_occurrence(s@, pat@, i as int);
            }
            return Some(i);
        }
        i = i + 1;
    }
    if matches_at_u8(s, pat, last) {
        proof {
            lemma_first_occurrence(s@, pat@, last as int);
        }
        return Some(last);
    }
    proof {
        lemma_no_occurrence(s@, pat@, last + 1);
    }
    None
}

/// What `str::to_lowercase` gives back (full Unicode lower-casing).
pub uninterp spec fn unicode_lowercase(s: Seq<char>) -> Seq<char>;

/// `str::to_lowercase`.
#[verifier::external_body]
pub(crate) fn to_lowercase(s: &str) -> (r: String)
    ensures
        r@ == unicode_lowercase(s@),
{
    s.to_lowercase()
}

/// A status text reads as an error when, lower-cased, it mentions "error",
/// "failed" or "fail".
pub open spec fn reads_as_error(value: Seq<char>) -> bool {
    let lowered = unicode_lowercase(value);
    contains_seq(lowered, "error"@) || contains_seq(lowered, "failed"@) || contains_seq(
        lowered,
        "fail"@,
    )
}

/// Whether a status text reads as an error.
pub fn is_error_status(value: &str) -> (b: bool)
    ensures
        b == reads_as_error(value@),
{
    let lowered = chars_of(to_lowercase(value).as_str());
    proof {
        lemma_first_occurrence_found(lowered@, "error"@);
        lemma_first_occurrence_found(lowered@, "failed"@);
        lemma_first_occurrence_found(lowered@, "fail"@);
    }
    find_char(lowered.as_slice(), chars_of("error").as_slice()).is_some() || find_char(
        lowered.as_slice(),
        chars_of("failed").as_slice(),
    ).is_some() || find_char(lowered.as_slice(), chars_of("fail").as_slice()).is_some()
}

/// The markup tokens of descriptions, in the order they are looked for:
/// `https://`, `http://`, `**`, `__`, `*`, `` ` ``, `[`.
pub open spec fn markdown_token_bytes(t: int) -> Seq<u8> {
    if t == 0 {
        seq![104u8, 116u8, 116u8, 112u8, 115u8, 58u8, 47u8, 47u8]
    } else if t == 1 {
        seq![104u8, 116u8, 116u8, 112u8, 58u8, 47u8, 47u8]
    } else if t == 2 {
        seq![42u8, 42u8]
    } else if t == 3 {
        seq![95u8, 95u8]
    } else if t == 4 {
        seq![42u8]
    } else if t == 5 {
        seq![96u8]
    } else {
        seq![91u8]
    }
}

/// The text of a markup token.
pub open spec fn markdown_token_text(t: int) -> Seq<char> {
    if t == 0 {
        "https://"@
    } else if t == 1 {
        "http://"@
    } else if t == 2 {
        "**"@
    } else if t == 3 {
        "__"@
    } else if t == 4 {
        "*"@
    } else if t == 5 {
        "`"@
    } else {
        "["@
    }
}

/// Bold markers win a tie with another token at the same position.
pub open spec fn is_bold_marker(t: int) -> bool {
    t == 2 || t == 3
}

/// The earliest token among the first `k`, with the tie rule: a bold marker
/// wins over any other token, otherwise the token looked for later wins.
pub open spec fn best_markdown_token(line: Seq<u8>, k: int) -> Option<(int, int)>
    decreases k,
{
    if k <= 0 {
        None
    } else {
        let best = best_markdown_token(line, k - 1);
        match first_occurrence(line, markdown_token_bytes(k - 1)) {
            None => best,
            Some(pos) => match best {
                None => Some((pos, k - 1)),
                Some((best_pos, best_t)) => if pos < best_pos {
                    Some((pos, k - 1))
                } else if pos == best_pos {
                    Some(
                        (
                            best_pos,
                            if is_bold_marker(k - 1) {
                                k - 1
                            } else if is_bold_marker(best_t) {
                                best_t
                            } else {
                                k - 1
                            },
                        ),
                    )
                } else {
                    best
                },
            },
        }
    }
}

fn markdown_token_pattern(t: usize) -> (r: Vec<u8>)
    requires
        t < 7,
    ensures
        r@ == markdown_token_bytes(t as int),
{
    let mut r: Vec<u8> = Vec::new();
    if t == 0 {
        r.push(104);
        r.push(116);
        r.push(116);
        r.push(112);
        r.push(115);
        r.push(58);
        r.push(47);
        r.push(47);
    } else if t == 1 {
        r.push(104);
        r.push(116);
        r.push(116);
        r.push(112);
        r.push(58);
        r.push(47);
        r.push(47);
    } else if t == 2 {
        r.push(42);
        r.push(42);
    } else if t == 3 {
        r.push(95);
        r.push(95);
    } else if t == 4 {
        r.push(42);
    } else if t == 5 {
        r.push(96);
    } else {
        r.push(91);
    }
    assert(r@ =~= markdown_token_bytes(t as int));
    r
}

pub(crate) fn markdown_token_str(t: usize) -> (r: &'static str)
    requires
        t < 7,
    ensures
        r@ == markdown_token_text(t as int),
{
    if t == 0 {
        "https://"
    } else if t == 1 {
        "http://"
    } else if t == 2 {
        "**"
    } else if t == 3 {
        "__"
    } else if t == 4 {
        "*"
    } else if t == 5 {
        "`"
    } else {
        "["
    }
}

/// The next markup token in a line: its byte position and its text.
pub fn next_markdown_token(line: &str) -> (r: Option<(usize, &'static str)>)
    ensures
        match best_markdown_token(line.spec_bytes(), 7) {
            Some((pos, t)) => r matches Some((p, tok)) && p as int == pos && tok@
                == markdown_token_text(t),
            None => r is None,
        },
{
    let bytes = line.as_bytes();
    let mut best: Option<(usize, usize)> = None;
    let mut t: usize = 0;
    while t < 7
        invariant
            t <= 7,
            bytes@ == line.spec_bytes(),
            match best_markdown_token(bytes@, t as int) {
                Some((pos, tok)) => best matches Some((p, bt)) && p as int == pos && bt as int == tok
                    && bt < 7,
                None => best is None,
            },
        decreases 7 - t,
    {
        let pattern = markdown_token_pattern(t);
        match find_u8(bytes, pattern.as_slice()) {
            Some(pos) => {
                best = match best {
                    None => Some((pos, t)),
                    Some((best_pos, best_t)) => if pos < best_pos {
                        Some((pos, t))
                    } else if pos == best_pos {
                        let next = if t == 2 || t == 3 {
                            t
                        } else if best_t == 2 || best_t == 3 {
                            best_t
                        } else {
                            t
                        };
                        Some((best_pos, next))
                    } else {
                        Some((best_pos, best_t))
                    },
                };
            },
            None => {},
        }
        t = t + 1;
    }
    match best {
        Some((pos, tok)) => Some((pos, markdown_token_str(tok))),
        None => None,
    }
}

/// The next markup token is at the earliest position where any token occurs,
/// and there is one exactly when some token occurs.
pub proof fn law_markdown_token_is_earliest(line: Seq<u8>, k: int, t: int)
    requires
        0 <= t < k,
    ensures
        first_occurrence(line, markdown_token_bytes(t)) matches Some(p) ==> best_markdown_token(
            line,
            k,
        ) matches Some((bp, bt)) && bp <= p,
        best_markdown_token(line, k) matches Some((bp, bt)) ==> 0 <= bt < k
            && first_occurrence(line, markdown_token_bytes(bt)) == Some(bp),
    decreases k,
{
    if t < k - 1 {
        law_markdown_token_is_earliest(line, k - 1, t);
    } else if k - 1 > 0 {
        law_markdown_token_is_earliest(line, k - 1, 0);
    }
}

} // verus!
