use vstd::prelude::*;

use crate::chars::{decimal, decimal_chars, string_of, trim};
use crate::forms::{period_label, ImageSearchFormSection, SearchFormSection, SearchPeriod};
use crate::searchform::{next_section, previous_section, tag_list, ImageSearchFormState, SearchFormState};
use crate::imageform::{next_image_section, previous_image_section};
use crate::tags::{comma_pieces, query_tags};

verus! {

/// The key help of the quick search popups.
pub open spec fn quick_help() -> Seq<char> {
    " [Type] Query | [Enter] Apply | [Esc] Cancel | [f] Open Builder "@
}

/// The lines of a quick search popup: the query with the cursor after it, a
/// blank line, the summary of the filters in force, and the key help.
pub open spec fn quick_lines(query: Seq<char>, current: Seq<char>) -> Seq<Seq<char>> {
    seq![" Query: "@ + query + "█"@, Seq::empty(), current, quick_help()]
}

/// The label of the chosen period, `AllTime` past the end of the list.
pub open spec fn chosen_period_label(periods: Seq<SearchPeriod>, selected: usize) -> Seq<char> {
    if selected < periods.len() {
        period_label(periods[selected as int])
    } else {
        "AllTime"@
    }
}

/// The sort shown: its label, `Relevance` when none is chosen.
pub open spec fn sort_shown(sort_label: Option<Seq<char>>) -> Seq<char> {
    match sort_label {
        Some(s) => s,
        None => "Relevance"@,
    }
}

/// The summary line of the model quick search: the sort, how many types,
/// tags and base models are chosen, and the period.
pub open spec fn model_current_text(sort: Seq<char>, types: nat, tags: nat, bases: nat, period: Seq<char>) -> Seq<char> {
    " Current: sort="@ + sort + " | types="@ + decimal(types) + " | tags="@ + decimal(tags) + " | bases="@ + decimal(
        bases,
    ) + " | period="@ + period + " "@
}

/// The summary line of the image quick search: as for models, with the
/// number of aspect ratios before the period.
pub open spec fn image_current_text(
    sort: Seq<char>,
    types: nat,
    tags: nat,
    bases: nat,
    ratios: nat,
    period: Seq<char>,
) -> Seq<char> {
    " Current: sort="@ + sort + " | types="@ + decimal(types) + " | tags="@ + decimal(tags) + " | bases="@ + decimal(
        bases,
    ) + " | ratios="@ + decimal(ratios) + " | period="@ + period + " "@
}

fn number(n: usize) -> (r: String)
    ensures
        r@ == decimal(n as nat),
{
    string_of(decimal_chars(n as u64).as_slice())
}

fn period_text(periods: &Vec<SearchPeriod>, selected: usize) -> (r: &'static str)
    ensures
        r@ == chosen_period_label(periods@, selected),
{
    if selected < periods.len() {
        periods[selected].label()
    } else {
        "AllTime"
    }
}

fn quick_popup(query: &str, current: String) -> (r: Vec<String>)
    ensures
        r@.map_values(|s: String| s@) == quick_lines(query@, current@),
{
    let mut first = String::from_str(" Query: ");
    first.append(query);
    first.append("█");
    let r = vec![first, String::new(), current, String::from_str(" [Type] Query | [Enter] Apply | [Esc] Cancel | [f] Open Builder ")];
    assert(r@.map_values(|s: String| s@) =~= quick_lines(query@, current@));
    r
}

/// The lines of the model quick search popup (see `quick_lines` and
/// `model_current_text`); `sort_label` is the label of the chosen sort, when
/// the choice names one.
pub fn model_quick_search_lines<S, T, B>(fm: &SearchFormState<S, T, B>, sort_label: Option<&str>) -> (r: Vec<String>)
    ensures
        r@.map_values(|s: String| s@) == quick_lines(
            fm.query@,
            model_current_text(
                sort_shown(
                    match sort_label {
                        Some(s) => Some(s@),
                        None => None,
                    },
                ),
                fm.selected_types@.len(),
                query_tags(comma_pieces(fm.tag_query@)).len(),
                fm.selected_base_models@.len(),
                chosen_period_label(fm.periods@, fm.selected_period),
            ),
        ),
{
    let tags = tag_list(fm.tag_query.as_str());
    proof {
        assert(tags@.map_values(|s: String| s@).len() == tags@.len());
    }
    let mut current = String::from_str(" Current: sort=");
    match sort_label {
        Some(s) => current.append(s),
        None => current.append("Relevance"),
    }
    current.append(" | types=");
    current.append(number(fm.selected_types.len()).as_str());
    current.append(" | tags=");
    current.append(number(tags.len()).as_str());
    current.append(" | bases=");
    current.append(number(fm.selected_base_models.len()).as_str());
    current.append(" | period=");
    current.append(period_text(&fm.periods, fm.selected_period));
    current.append(" ");
    quick_popup(fm.query.as_str(), current)
}

/// The lines of the image quick search popup (see `quick_lines` and
/// `image_current_text`); `sort_label` is the label of the chosen sort, when
/// the choice names one.
pub fn image_quick_search_lines<S, M, B, A>(form: &ImageSearchFormState<S, M, B, A>, sort_label: Option<&str>) -> (r: Vec<String>)
    ensures
        r@.map_values(|s: String| s@) == quick_lines(
            form.query@,
            image_current_text(
                sort_shown(
                    match sort_label {
                        Some(s) => Some(s@),
                        None => None,
                    },
                ),
                form.selected_media_types@.len(),
                query_tags(comma_pieces(form.tag_query@)).len(),
                form.selected_base_models@.len(),
                form.selected_aspect_ratios@.len(),
                chosen_period_label(form.periods@, form.selected_period),
            ),
        ),
{
    let tags = tag_list(form.tag_query.as_str());
    proof {
        assert(tags@.map_values(|s: String| s@).len() == tags@.len());
    }
    let mut current = String::from_str(" Current: sort=");
    match sort_label {
        Some(s) => current.append(s),
        None => current.append("Relevance"),
    }
    current.append(" | types=");
    current.append(number(form.selected_media_types.len()).as_str());
    current.append(" | tags=");
    current.append(number(tags.len()).as_str());
    current.append(" | bases=");
    current.append(number(form.selected_base_models.len()).as_str());
    current.append(" | ratios=");
    current.append(number(form.selected_aspect_ratios.len()).as_str());
    current.append(" | period=");
    current.append(period_text(&form.periods, form.selected_period));
    current.append(" ");
    quick_popup(form.query.as_str(), current)
}

/// One box of a search builder popup: its title, whether it has the focus,
/// and whether its filter is set (drawn brighter).
#[derive(Clone, Copy, Debug, PartialEq, Eq)]
pub struct BoxState {
    pub title: &'static str,
    pub focused: bool,
    pub configured: bool,
}

/// The boxes of the model search builder, in order: the query (set when not
/// blank), the sort and the period (always set), the types and base models
/// (set when any is chosen) and the tags (set when not blank), each with its
/// title and focus.
pub open spec fn model_boxes(
    focused: SearchFormSection,
    query: Seq<char>,
    types: nat,
    tags: Seq<char>,
    bases: nat,
) -> Seq<(Seq<char>, bool, bool)> {
    seq![
        (" Query "@, focused == SearchFormSection::Query, trim(query).len() > 0),
        (" Sort "@, focused == SearchFormSection::Sort, true),
        (" Period "@, focused == SearchFormSection::Period, true),
        (" Type "@, focused == SearchFormSection::Type, types > 0),
        (" Tags "@, focused == SearchFormSection::Tag, trim(tags).len() > 0),
        (" Base Model "@, focused == SearchFormSection::BaseModel, bases > 0),
    ]
}

/// The view of a list of boxes.
pub open spec fn boxes_view(b: Seq<BoxState>) -> Seq<(Seq<char>, bool, bool)> {
    b.map_values(|x: BoxState| (x.title@, x.focused, x.configured))
}

fn not_blank(s: &str) -> (b: bool)
    ensures
        b == (trim(s@).len() > 0),
{
    crate::chars::trim_chars(&crate::chars::chars_of(s)).len() > 0
}

/// The boxes of the model search builder (see `model_boxes`).
pub fn model_search_boxes<S, T, B>(fm: &SearchFormState<S, T, B>) -> (r: Vec<BoxState>)
    ensures
        boxes_view(r@) == model_boxes(
            fm.focused_section,
            fm.query@,
            fm.selected_types@.len(),
            fm.tag_query@,
            fm.selected_base_models@.len(),
        ),
{
    let f = fm.focused_section;
    let r = vec![
        BoxState { title: " Query ", focused: f == SearchFormSection::Query, configured: not_blank(fm.query.as_str()) },
        BoxState { title: " Sort ", focused: f == SearchFormSection::Sort, configured: true },
        BoxState { title: " Period ", focused: f == SearchFormSection::Period, configured: true },
        BoxState { title: " Type ", focused: f == SearchFormSection::Type, configured: fm.selected_types.len() > 0 },
        BoxState { title: " Tags ", focused: f == SearchFormSection::Tag, configured: not_blank(fm.tag_query.as_str()) },
        BoxState {
            title: " Base Model ",
            focused: f == SearchFormSection::BaseModel,
            configured: fm.selected_base_models.len() > 0,
        },
    ];
    assert(boxes_view(r@) =~= model_boxes(
        fm.focused_section,
        fm.query@,
        fm.selected_types@.len(),
        fm.tag_query@,
        fm.selected_base_models@.len(),
    ));
    r
}

/// The boxes of the image search builder, in order, as for models with the
/// media types in place of the types and the aspect ratios last.
pub open spec fn image_boxes(
    focused: ImageSearchFormSection,
    query: Seq<char>,
    media: nat,
    tags: Seq<char>,
    bases: nat,
    ratios: nat,
) -> Seq<(Seq<char>, bool, bool)> {
    seq![
        (" Query "@, focused == ImageSearchFormSection::Query, trim(query).len() > 0),
        (" Sort "@, focused == ImageSearchFormSection::Sort, true),
        (" Period "@, focused == ImageSearchFormSection::Period, true),
        (" Media Type "@, focused == ImageSearchFormSection::MediaType, media > 0),
        (" Tags "@, focused == ImageSearchFormSection::Tag, trim(tags).len() > 0),
        (" Base Model "@, focused == ImageSearchFormSection::BaseModel, bases > 0),
        (" Aspect Ratio "@, focused == ImageSearchFormSection::AspectRatio, ratios > 0),
    ]
}

/// The boxes of the image search builder (see `image_boxes`).
pub fn image_search_boxes<S, M, B, A>(form: &ImageSearchFormState<S, M, B, A>) -> (r: Vec<BoxState>)
    ensures
        boxes_view(r@) == image_boxes(
            form.focused_section,
            form.query@,
            form.selected_media_types@.len(),
            form.tag_query@,
            form.selected_base_models@.len(),
            form.selected_aspect_ratios@.len(),
        ),
{
    let f = form.focused_section;
    let r = vec![
        BoxState { title: " Query ", focused: f == ImageSearchFormSection::Query, configured: not_blank(form.query.as_str()) },
        BoxState { title: " Sort ", focused: f == ImageSearchFormSection::Sort, configured: true },
        BoxState { title: " Period ", focused: f == ImageSearchFormSection::Period, configured: true },
        BoxState {
            title: " Media Type ",
            focused: f == ImageSearchFormSection::MediaType,
            configured: form.selected_media_types.len() > 0,
        },
        BoxState { title: " Tags ", focused: f == ImageSearchFormSection::Tag, configured: not_blank(form.tag_query.as_str()) },
        BoxState {
            title: " Base Model ",
            focused: f == ImageSearchFormSection::BaseModel,
            configured: form.selected_base_models.len() > 0,
        },
        BoxState {
            title: " Aspect Ratio ",
            focused: f == ImageSearchFormSection::AspectRatio,
            configured: form.selected_aspect_ratios.len() > 0,
        },
    ];
    assert(boxes_view(r@) =~= image_boxes(
        form.focused_section,
        form.query@,
        form.selected_media_types@.len(),
        form.tag_query@,
        form.selected_base_models@.len(),
        form.selected_aspect_ratios@.len(),
    ));
    r
}

/// The marks of a list of `len` options in a builder box: which one the
/// cursor is on, and which are chosen (by position).
pub fn option_marks(len: usize, cursor: usize, chosen: &Vec<usize>) -> (r: Vec<(bool, bool)>)
    ensures
        r@.len() == len,
        forall|i: int| 0 <= i < len ==> (#[trigger] r@[i]).0 == (i == cursor) && r@[i].1 == chosen@.contains(i as usize),
{
    let mut r: Vec<(bool, bool)> = Vec::new();
    let mut i: usize = 0;
    while i < len
        invariant
            i <= len,
            r@.len() == i,
            forall|k: int| 0 <= k < i ==> (#[trigger] r@[k]).0 == (k == cursor) && r@[k].1 == chosen@.contains(k as usize),
        decreases len - i,
    {
        let mut found = false;
        let mut j: usize = 0;
        while j < chosen.len()
            invariant
                j <= chosen@.len(),
                found == exists|m: int| 0 <= m < j && chosen@[m] == i,
            decreases chosen@.len() - j,
        {
            if chosen[j] == i {
                found = true;
            }
            j = j + 1;
        }
        proof {
            if found {
                let m = choose|m: int| 0 <= m < chosen@.len() && chosen@[m] == i;
                assert(chosen@.contains(i));
            }
        }
        r.push((i == cursor, found));
        i = i + 1;
    }
    r
}

/// In the model search builder Tab moves the focus to the box drawn right after
/// the focused one and Shift-Tab to the one drawn right before it, wrapping
/// round; exactly one box is focused.
pub proof fn law_model_sections_follow_boxes(
    s: SearchFormSection,
    query: Seq<char>,
    types: nat,
    tags: Seq<char>,
    bases: nat,
    k: int,
)
    requires
        0 <= k < 6,
        model_boxes(s, query, types, tags, bases)[k].1,
    ensures
        model_boxes(next_section(s), query, types, tags, bases)[(k + 1) % 6].1,
        model_boxes(previous_section(s), query, types, tags, bases)[(k + 5) % 6].1,
        forall|j: int| 0 <= j < 6 && j != k ==> !(#[trigger] model_boxes(s, query, types, tags, bases)[j]).1,
{
}

/// In the image search builder Tab moves the focus to the box drawn right after
/// the focused one and Shift-Tab to the one drawn right before it, wrapping
/// round; exactly one box is focused.
pub proof fn law_image_sections_follow_boxes(
    s: ImageSearchFormSection,
    query: Seq<char>,
    media: nat,
    tags: Seq<char>,
    bases: nat,
    ratios: nat,
    k: int,
)
    requires
        0 <= k < 7,
        image_boxes(s, query, media, tags, bases, ratios)[k].1,
    ensures
        image_boxes(next_image_section(s), query, media, tags, bases, ratios)[(k + 1) % 7].1,
        image_boxes(previous_image_section(s), query, media, tags, bases, ratios)[(k + 6) % 7].1,
        forall|j: int| 0 <= j < 7 && j != k ==> !(#[trigger] image_boxes(s, query, media, tags, bases, ratios)[j]).1,
{
}

} // verus!
