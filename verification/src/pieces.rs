//! Pieces of text that the screen is made of.

use crate::entry::{DeleteStatus, EntryView, StatusView, TargetEntry};
use crate::model::SPINNER_LENGTH;
use crate::style::{
    bold_style, fg_style, raw, span_views, styled, Color, Line, LineView, Span, SpanView, Style,
};
use crate::text::{
    characters, find, lower_characters, lower_text, occurs_first_at, occurs_in, stands_at, text_between,
};
use vstd::prelude::*;

verus! {

/// The pictures of which the spinner is made.
pub open spec fn spinner_pictures() -> Seq<Seq<char>> {
    seq!["⠋"@, "⠙"@, "⠹"@, "⠸"@, "⠼"@, "⠴"@, "⠦"@, "⠧"@, "⠇"@, "⠏"@]
}

/// The picture of the spinner at a moment.
pub open spec fn spinner_picture(index: int) -> Seq<char> {
    spinner_pictures()[index % SPINNER_LENGTH as int]
}

/// The picture of the spinner at a moment.
pub fn spinner(index: usize) -> (result: &'static str)
    ensures
        result@ == spinner_picture(index as int),
{
    match index % SPINNER_LENGTH {
        0 => "⠋",
        1 => "⠙",
        2 => "⠹",
        3 => "⠸",
        4 => "⠼",
        5 => "⠴",
        6 => "⠦",
        7 => "⠧",
        8 => "⠇",
        _ => "⠏",
    }
}

/// The sign in front of an entry: whether it is selected, or what has become of its removal.
pub open spec fn status_sign(entry: EntryView, is_selected: bool, tick: int) -> SpanView {
    match entry.delete_status {
        StatusView::Ready => if is_selected {
            styled("✓"@, bold_style(Color::AccentSuccess))
        } else {
            raw(" "@)
        },
        StatusView::Deleting => styled(spinner_picture(tick), bold_style(Color::AccentPrimary)),
        StatusView::Deleted => styled("✓"@, bold_style(Color::TextMuted)),
        StatusView::Failed(_) => styled("!"@, bold_style(Color::AccentError)),
    }
}

/// The sign in front of an entry.
pub fn status_span(entry: &TargetEntry, is_selected: bool, animation_tick: usize) -> (result: Span)
    ensures
        result@ == status_sign(entry@, is_selected, animation_tick as int),
{
    match &entry.delete_status {
        DeleteStatus::Ready => if is_selected {
            Span::styled("✓".to_owned(), Style::bold(Color::AccentSuccess))
        } else {
            Span::raw(" ".to_owned())
        },
        DeleteStatus::Deleting => Span::styled(
            spinner(animation_tick).to_owned(),
            Style::bold(Color::AccentPrimary),
        ),
        DeleteStatus::Deleted => Span::styled("✓".to_owned(), Style::bold(Color::TextMuted)),
        DeleteStatus::Failed(_) => Span::styled("!".to_owned(), Style::bold(Color::AccentError)),
    }
}

/// What some keys do, as it is shown in one line: each key and its action, two spaces between
/// one pair and the next.
pub open spec fn key_hints(pairs: Seq<(Seq<char>, Seq<char>)>) -> Seq<SpanView>
    decreases pairs.len(),
{
    if pairs.len() == 0 {
        Seq::empty()
    } else {
        let before = key_hints(pairs.drop_last());
        let (key, action) = pairs.last();
        let hint = seq![
            styled(key, bold_style(Color::AccentPrimary)),
            raw(" "@),
            styled(action, fg_style(Color::TextMuted)),
        ];
        if pairs.len() == 1 {
            hint
        } else {
            before.push(raw("  "@)) + hint
        }
    }
}

/// What the pairs of a list hold.
pub open spec fn pair_views(pairs: Seq<(&str, &str)>) -> Seq<(Seq<char>, Seq<char>)> {
    pairs.map_values(|pair: (&str, &str)| (pair.0@, pair.1@))
}

/// Says what some keys do.
pub fn footer_spans(pairs: &Vec<(&str, &str)>) -> (result: Vec<Span>)
    ensures
        span_views(result@) == key_hints(pair_views(pairs@)),
{
    let ghost all = pair_views(pairs@);
    let mut spans: Vec<Span> = Vec::new();
    let mut index: usize = 0;
    assert(span_views(spans@) =~= key_hints(all.take(0)));
    while index < pairs.len()
        invariant
            index <= pairs@.len(),
            all == pair_views(pairs@),
            span_views(spans@) == key_hints(all.take(index as int)),
        decreases pairs@.len() - index,
    {
        let ghost before = span_views(spans@);
        let (key, action) = pairs[index];
        if index > 0 {
            spans.push(Span::raw("  ".to_owned()));
        }
        spans.push(Span::styled(key.to_owned(), Style::bold(Color::AccentPrimary)));
        spans.push(Span::raw(" ".to_owned()));
        spans.push(Span::styled(action.to_owned(), Style::fg(Color::TextMuted)));
        index += 1;
        proof {
            let shown = all.take(index as int);
            assert(shown.drop_last() =~= all.take(index - 1));
            assert(shown.last() == (key@, action@));
            let hint = seq![
                styled(key@, bold_style(Color::AccentPrimary)),
                raw(" "@),
                styled(action@, fg_style(Color::TextMuted)),
            ];
            if index == 1 {
                assert(before =~= Seq::empty());
                assert(span_views(spans@) =~= hint);
            } else {
                assert(span_views(spans@) =~= before.push(raw("  "@)) + hint);
            }
        }
    }
    assert(all.take(all.len() as int) =~= all);
    spans
}

/// A text cut in three, with a mark on the middle piece.
pub open spec fn marked(text: Seq<char>, from: int, to: int) -> LineView {
    LineView::Spans(
        seq![
            raw(text.take(from)),
            styled(text.subrange(from, to), bold_style(Color::AccentPrimary)),
            raw(text.skip(to)),
        ],
    )
}

/// The first place at which a text holds another one.
pub open spec fn first_place(text: Seq<char>, needle: Seq<char>) -> int {
    choose|at: int| occurs_first_at(text, needle, at)
}

/// A text with a mark on the first place that holds the query, capitals or not. Without such a
/// place, or without a query, nothing is marked.
pub open spec fn highlighted(text: Seq<char>, query: Seq<char>) -> LineView {
    if query.len() == 0 || !occurs_in(lower_text(text), lower_text(query)) {
        LineView::Plain(text)
    } else {
        let at = first_place(lower_text(text), lower_text(query));
        marked(text, at, at + query.len())
    }
}

/// Shows a text with a mark on the first place that holds the query.
pub fn highlight_text(text: &str, query: &str) -> (result: Line)
    ensures
        result@ == highlighted(text@, query@),
        result@.text() == text@,
{
    if query.is_empty() {
        return Line::Plain(text.to_owned());
    }
    let needle = lower_characters(query);
    let found = find(&lower_characters(text), &needle);
    match found {
        None => Line::Plain(text.to_owned()),
        Some(start) => {
            let all = characters(text);
            let length: usize = all.len();
            assert(start + needle@.len() <= length);
            let end: usize = start + needle.len();
            let spans = vec![
                Span::raw(text_between(&all, 0, start)),
                Span::styled(text_between(&all, start, end), Style::bold(Color::AccentPrimary)),
                Span::raw(text_between(&all, end, length)),
            ];
            let line = Line::Spans(spans);
            proof {
                assert(span_views(spans@) =~= seq![
                    raw(text@.take(start as int)),
                    styled(
                        text@.subrange(start as int, end as int),
                        bold_style(Color::AccentPrimary),
                    ),
                    raw(text@.skip(end as int)),
                ]);
                let place = first_place(lower_text(text@), lower_text(query@));
                assert(occurs_first_at(lower_text(text@), lower_text(query@), place));
                assert(place == start);
                marking_keeps_text(text@, start as int, end as int);
            }
            line
        },
    }
}

/// Cutting a text in three loses nothing of it.
proof fn marking_keeps_text(text: Seq<char>, from: int, to: int)
    requires
        0 <= from <= to <= text.len(),
    ensures
        marked(text, from, to).text() == text,
{
    reveal_with_fuel(crate::style::spans_text, 4);
    let spans = seq![
        raw(text.take(from)),
        styled(text.subrange(from, to), bold_style(Color::AccentPrimary)),
        raw(text.skip(to)),
    ];
    assert(spans.drop_last() =~= seq![spans[0], spans[1]]);
    assert(spans.drop_last().drop_last() =~= seq![spans[0]]);
    assert(marked(text, from, to).text() =~= text);
}

/// A text without a beginning, as often as it stands there.
pub open spec fn without_prefix(text: Seq<char>, prefix: Seq<char>) -> Seq<char>
    decreases text.len(),
{
    if prefix.len() > 0 && prefix.is_prefix_of(text) {
        without_prefix(text.skip(prefix.len() as int), prefix)
    } else {
        text
    }
}

/// A text without an end, as often as it stands there.
pub open spec fn without_suffix(text: Seq<char>, suffix: Seq<char>) -> Seq<char>
    decreases text.len(),
{
    if suffix.len() > 0 && suffix.is_suffix_of(text) {
        without_suffix(text.take(text.len() - suffix.len()), suffix)
    } else {
        text
    }
}

/// The number of slashes in a text.
pub open spec fn slashes(text: Seq<char>) -> nat
    decreases text.len(),
{
    if text.len() == 0 {
        0
    } else if text[0] == '/' {
        1 + slashes(text.drop_first())
    } else {
        slashes(text.drop_first())
    }
}

/// The longest end of a text that holds at most one slash: the last two names of a path.
pub open spec fn last_two_names(text: Seq<char>) -> Seq<char>
    decreases text.len(),
{
    if slashes(text) < 2 {
        text
    } else {
        last_two_names(text.drop_first())
    }
}

/// A path as it is shown in a narrow column: whole where it is at most 28 characters long, else
/// the name of the project and that of the directory around it.
pub open spec fn compact_path_text(path: Seq<char>) -> Seq<char> {
    if path.len() <= 28 {
        path
    } else {
        let trimmed = without_suffix(without_prefix(path, "./"@), "/target"@);
        "…/"@ + last_two_names(trimmed) + "/target"@
    }
}


/// Where a text begins once a beginning is taken off as often as it stands there, and where it
/// ends once an end is taken off in the same way.
fn trim_ends(text: &Vec<char>, prefix: &Vec<char>, suffix: &Vec<char>) -> (result: (usize, usize))
    requires
        prefix@.len() > 0,
        suffix@.len() > 0,
    ensures
        result.0 <= result.1 <= text@.len(),
        text@.subrange(result.0 as int, result.1 as int) == without_suffix(
            without_prefix(text@, prefix@),
            suffix@,
        ),
{
    let length: usize = text.len();
    let mut start: usize = 0;
    assert(text@.skip(0) =~= text@);
    while prefix.len() <= length - start && stands_at(text, prefix, start)
        invariant
            length == text@.len(),
            start <= length,
            prefix@.len() > 0,
            without_prefix(text@, prefix@) == without_prefix(text@.skip(start as int), prefix@),
        decreases length - start,
    {
        proof {
            let rest = text@.skip(start as int);
            assert(rest.subrange(0, prefix@.len() as int) =~= text@.subrange(
                start as int,
                start + prefix@.len(),
            ));
            assert(rest.skip(prefix@.len() as int) =~= text@.skip(start + prefix@.len()));
        }
        start += prefix.len();
    }
    let ghost kept = text@.skip(start as int);
    proof {
        if prefix@.is_prefix_of(kept) {
            assert(kept.subrange(0, prefix@.len() as int) =~= text@.subrange(
                start as int,
                start + prefix@.len(),
            ));
        }
    }
    let mut end: usize = length;
    assert(text@.subrange(start as int, end as int) =~= kept);
    while suffix.len() <= end - start && stands_at(text, suffix, end - suffix.len())
        invariant
            length == text@.len(),
            start <= end <= length,
            suffix@.len() > 0,
            without_suffix(kept, suffix@) == without_suffix(
                text@.subrange(start as int, end as int),
                suffix@,
            ),
        decreases end - start,
    {
        proof {
            let rest = text@.subrange(start as int, end as int);
            assert(rest.subrange(rest.len() - suffix@.len(), rest.len() as int)
                =~= text@.subrange(end - suffix@.len(), end as int));
            assert(rest.take(rest.len() - suffix@.len()) =~= text@.subrange(
                start as int,
                end - suffix@.len(),
            ));
        }
        end -= suffix.len();
    }
    proof {
        let rest = text@.subrange(start as int, end as int);
        if suffix@.is_suffix_of(rest) {
            assert(rest.subrange(rest.len() - suffix@.len(), rest.len() as int)
                =~= text@.subrange(end - suffix@.len(), end as int));
        }
    }
    (start, end)
}

/// Where the last two names begin in a part of a text.
fn find_last_names(text: &Vec<char>, from: usize, to: usize) -> (result: usize)
    requires
        from <= to <= text@.len(),
    ensures
        from <= result <= to,
        text@.subrange(result as int, to as int) == last_two_names(
            text@.subrange(from as int, to as int),
        ),
{
    let mut count: usize = 0;
    let mut index: usize = to;
    assert(slashes(text@.subrange(to as int, to as int)) == 0);
    while index > from
        invariant
            from <= index <= to <= text@.len(),
            count == slashes(text@.subrange(index as int, to as int)),
            count <= to - index,
        decreases index,
    {
        index -= 1;
        if text[index] == '/' {
            count += 1;
        }
        assert(text@.subrange(index as int, to as int).drop_first() =~= text@.subrange(
            index + 1,
            to as int,
        ));
    }
    let mut start: usize = from;
    while count >= 2
        invariant
            from <= start <= to <= text@.len(),
            count == slashes(text@.subrange(start as int, to as int)),
            last_two_names(text@.subrange(from as int, to as int)) == last_two_names(
                text@.subrange(start as int, to as int),
            ),
        decreases to - start,
    {
        assert(text@.subrange(start as int, to as int).drop_first() =~= text@.subrange(
            start + 1,
            to as int,
        ));
        if text[start] == '/' {
            count -= 1;
        }
        start += 1;
    }
    start
}

/// Writes a path for a narrow column.
pub fn compact_relative_path(path: &str) -> (result: String)
    ensures
        result@ == compact_path_text(path@),
{
    let all = characters(path);
    if all.len() <= 28 {
        return path.to_owned();
    }
    let prefix = characters("./");
    let suffix = characters("/target");
    proof {
        reveal_strlit("./");
        reveal_strlit("/target");
    }
    let (from, to) = trim_ends(&all, &prefix, &suffix);
    let start: usize = find_last_names(&all, from, to);
    "…/".to_owned().concat(text_between(&all, start, to).as_str()).concat("/target")
}

} // verus!
