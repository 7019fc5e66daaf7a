//! What holds of every menu that the parser gives: which lines leave no
//! trace, where text ends up, and that nothing changes its place.

use crate::errors::ParseError;
use crate::menu::{collapse, entries_of, entry_of, extend, menu_of, EntryView};
use crate::text::{
    count, join, lemma_ascii_byte_is_bounded, lemma_split_around, lemma_split_keeps_utf8,
    lemma_split_one_piece, lemma_trim_start_keeps_utf8, lemma_without_cr_keeps_utf8, split,
    trim_start, without_cr,
};
use vstd::prelude::*;
use vstd::utf8::*;

verus! {

/// What is read as text is text. In an answer that is valid UTF-8, every
/// line that begins with an ASCII byte has fields that are valid UTF-8, and
/// so is the selector that is left of its second field without the slashes
/// before it.
pub proof fn lemma_fields_are_text(bytes: Seq<u8>, i: int)
    requires
        valid_utf8(bytes),
        0 <= i < split(bytes, 0x0a).len(),
    ensures
        ({
            let line = without_cr(split(bytes, 0x0a)[i]);
            let fields = split(line.skip(1), 0x09);
            line.len() > 0 && line[0] < 0x80 ==> forall|j: int|
                0 <= j < fields.len() ==> valid_utf8(#[trigger] fields[j]) && valid_utf8(
                    trim_start(fields[j], 0x2f),
                )
        }),
{
    let line = without_cr(split(bytes, 0x0a)[i]);
    let fields = split(line.skip(1), 0x09);
    lemma_split_keeps_utf8(bytes, 0x0a);
    lemma_without_cr_keeps_utf8(split(bytes, 0x0a)[i]);
    if line.len() > 0 && line[0] < 0x80 {
        lemma_ascii_byte_is_bounded(line, 0);
        valid_utf8_split(line, 1);
        lemma_split_keeps_utf8(line.skip(1), 0x09);
        assert forall|j: int| 0 <= j < fields.len() implies valid_utf8(#[trigger] fields[j])
            && valid_utf8(trim_start(fields[j], 0x2f)) by {
            lemma_trim_start_keeps_utf8(fields[j], 0x2f);
        }
    }
}

/// A line with fewer than four fields gives no entry, and neither does an
/// empty line.
pub proof fn lemma_short_line_gives_no_entry(origin: Seq<char>, line: Seq<u8>)
    requires
        line.len() == 0 || split(line.skip(1), 0x09).len() < 4,
    ensures
        entry_of(origin, line) == Ok::<Option<EntryView>, ParseError>(None),
{
}

/// A line that gives no entry leaves the menu as it would be without the
/// line, wherever in the listing it stands: the lines before it and the
/// lines after it are read as if it were not there.
pub proof fn lemma_silent_line_changes_nothing(
    origin: Seq<char>,
    lines: Seq<Seq<u8>>,
    k: int,
    line: Seq<u8>,
)
    requires
        0 <= k <= lines.len(),
        entry_of(origin, without_cr(line)) == Ok::<Option<EntryView>, ParseError>(None),
    ensures
        entries_of(origin, lines.insert(k, line)) == entries_of(origin, lines),
    decreases lines.len(),
{
    let with = lines.insert(k, line);
    if k == lines.len() {
        assert(with.drop_last() == lines);
    } else {
        assert(with.drop_last() == lines.drop_last().insert(k, line));
        lemma_silent_line_changes_nothing(origin, lines.drop_last(), k, line);
    }
}

/// In the bytes of a listing, a whole line that gives no entry can be taken
/// out, line feed and all, and the menu is the same. `head` is what comes
/// before the line feed that ends the line before.
pub proof fn lemma_malformed_line_is_skipped(
    origin: Seq<char>,
    head: Seq<u8>,
    line: Seq<u8>,
    tail: Seq<u8>,
)
    requires
        count(line, 0x0a) == 0,
        entry_of(origin, without_cr(line)) == Ok::<Option<EntryView>, ParseError>(None),
    ensures
        menu_of(origin, head.push(0x0a) + (line.push(0x0a) + tail)) == menu_of(
            origin,
            head.push(0x0a) + tail,
        ),
        menu_of(origin, line.push(0x0a) + tail) == menu_of(origin, tail),
{
    let before = split(head, 0x0a);
    let after = split(tail, 0x0a);
    lemma_split_one_piece(line, 0x0a);
    lemma_split_around(line, tail, 0x0a);
    lemma_split_around(head, line.push(0x0a) + tail, 0x0a);
    lemma_split_around(head, tail, 0x0a);
    assert(split(line.push(0x0a) + tail, 0x0a) == after.insert(0, line));
    assert(before + (seq![line] + after) == (before + after).insert(before.len() as int, line));
    lemma_silent_line_changes_nothing(origin, after, 0, line);
    lemma_silent_line_changes_nothing(origin, before + after, before.len() as int, line);
}

/// Lines of text at the end of a listing are kept: they make one last entry,
/// with a newline between each two of them. Here `head` is a listing whose
/// menu does not end in text, and each line of `tail` says one of `texts`.
pub proof fn lemma_trailing_text_is_kept(
    origin: Seq<char>,
    head: Seq<Seq<u8>>,
    tail: Seq<Seq<u8>>,
    texts: Seq<Seq<char>>,
)
    requires
        entries_of(origin, head) matches Ok(menu) && (menu.len() == 0 || menu.last() is Link),
        tail.len() >= 1,
        texts.len() == tail.len(),
        forall|i: int|
            0 <= i < tail.len() ==> entry_of(origin, without_cr(#[trigger] tail[i])) == Ok::<
                Option<EntryView>,
                ParseError,
            >(Some(EntryView::Information(texts[i]))),
    ensures
        entries_of(origin, head + tail) == Ok::<Seq<EntryView>, ParseError>(
            entries_of(origin, head)->Ok_0.push(EntryView::Information(join(texts, '\n'))),
        ),
    decreases tail.len(),
{
    let menu = entries_of(origin, head)->Ok_0;
    assert((head + tail).drop_last() == head + tail.drop_last());
    if tail.len() > 1 {
        let fewer = texts.drop_last();
        assert forall|i: int| 0 <= i < tail.drop_last().len() implies entry_of(
            origin,
            without_cr(#[trigger] tail.drop_last()[i]),
        ) == Ok::<Option<EntryView>, ParseError>(Some(EntryView::Information(fewer[i]))) by {
            assert(tail.drop_last()[i] == tail[i]);
        }
        lemma_trailing_text_is_kept(origin, head, tail.drop_last(), fewer);
        let sofar = menu.push(EntryView::Information(join(fewer, '\n')));
        assert(sofar.update(
            sofar.len() - 1,
            EntryView::Information(join(fewer, '\n').push('\n') + texts.last()),
        ) == menu.push(EntryView::Information(join(texts, '\n'))));
    }
}

/// A link is added after all that the lines before it gave, which stays
/// as it was.
pub proof fn lemma_link_comes_last(
    origin: Seq<char>,
    lines: Seq<Seq<u8>>,
    line: Seq<u8>,
    link: EntryView,
)
    requires
        entries_of(origin, lines) is Ok,
        link is Link,
        entry_of(origin, without_cr(line)) == Ok::<Option<EntryView>, ParseError>(Some(link)),
    ensures
        entries_of(origin, lines.push(line)) == Ok::<Seq<EntryView>, ParseError>(
            entries_of(origin, lines)->Ok_0.push(link),
        ),
{
    assert(lines.push(line).drop_last() == lines);
}

/// Lines of text that follow one another and are followed by a link make
/// one entry, which stands before the link: after what `head` gave come the
/// texts of `tail` as one entry, joined by newlines in their order, and then
/// the link.
pub proof fn lemma_text_is_gathered_before_its_link(
    origin: Seq<char>,
    head: Seq<Seq<u8>>,
    tail: Seq<Seq<u8>>,
    texts: Seq<Seq<char>>,
    line: Seq<u8>,
    link: EntryView,
)
    requires
        entries_of(origin, head) matches Ok(menu) && (menu.len() == 0 || menu.last() is Link),
        tail.len() >= 1,
        texts.len() == tail.len(),
        forall|i: int|
            0 <= i < tail.len() ==> entry_of(origin, without_cr(#[trigger] tail[i])) == Ok::<
                Option<EntryView>,
                ParseError,
            >(Some(EntryView::Information(texts[i]))),
        link is Link,
        entry_of(origin, without_cr(line)) == Ok::<Option<EntryView>, ParseError>(Some(link)),
    ensures
        entries_of(origin, (head + tail).push(line)) == Ok::<Seq<EntryView>, ParseError>(
            entries_of(origin, head)->Ok_0.push(EntryView::Information(join(texts, '\n'))).push(
                link,
            ),
        ),
{
    lemma_trailing_text_is_kept(origin, head, tail, texts);
    lemma_link_comes_last(origin, head + tail, line, link);
}

/// No line is refused for its encoding: what refuses a listing is a type.
pub proof fn lemma_lines_are_refused_for_their_type_only(origin: Seq<char>, lines: Seq<Seq<u8>>)
    ensures
        entries_of(origin, lines) matches Err(e) ==> e is UnsupportedType,
    decreases lines.len(),
{
    if lines.len() > 0 {
        lemma_lines_are_refused_for_their_type_only(origin, lines.drop_last());
    }
}

/// The links among the entries, in their order.
pub open spec fn links_of(entries: Seq<EntryView>) -> Seq<EntryView>
    decreases entries.len(),
{
    if entries.len() == 0 {
        Seq::<EntryView>::empty()
    } else if entries.last() is Link {
        links_of(entries.drop_last()).push(entries.last())
    } else {
        links_of(entries.drop_last())
    }
}

/// Whether no two entries of text stand next to each other.
pub open spec fn text_is_gathered(menu: Seq<EntryView>) -> bool {
    forall|i: int|
        0 <= i < menu.len() - 1 ==> !(#[trigger] menu[i] is Information && menu[i
            + 1] is Information)
}

/// Taking in one more entry keeps the links and their order, and keeps text
/// gathered.
pub proof fn lemma_extend_keeps_order(menu: Seq<EntryView>, entry: EntryView)
    ensures
        links_of(extend(menu, entry)) == if entry is Link {
            links_of(menu).push(entry)
        } else {
            links_of(menu)
        },
        text_is_gathered(menu) ==> text_is_gathered(extend(menu, entry)),
        extend(menu, entry).len() > 0,
        extend(menu, entry).last() is Link <==> entry is Link,
{
    let more = extend(menu, entry);
    if entry is Link {
        assert(more.drop_last() == menu);
    } else if menu.len() > 0 && menu.last() is Information {
        assert(more.drop_last() == menu.drop_last());
    } else {
        assert(more.drop_last() == menu);
    }
}

/// Gathering text changes neither the links nor their order, and leaves no
/// two entries of text next to each other.
pub proof fn lemma_collapse_keeps_order(entries: Seq<EntryView>)
    ensures
        links_of(collapse(entries)) == links_of(entries),
        text_is_gathered(collapse(entries)),
    decreases entries.len(),
{
    if entries.len() > 0 {
        lemma_collapse_keeps_order(entries.drop_last());
        lemma_extend_keeps_order(collapse(entries.drop_last()), entries.last());
    }
}

/// The entries that the lines of a listing give one by one, before text is
/// gathered: nothing for a line that gives no entry or is refused.
pub open spec fn entries_line_by_line(origin: Seq<char>, lines: Seq<Seq<u8>>) -> Seq<EntryView>
    decreases lines.len(),
{
    if lines.len() == 0 {
        Seq::<EntryView>::empty()
    } else {
        match entry_of(origin, without_cr(lines.last())) {
            Ok(Some(entry)) => entries_line_by_line(origin, lines.drop_last()).push(entry),
            _ => entries_line_by_line(origin, lines.drop_last()),
        }
    }
}

/// A menu holds the entries of its lines in the order of the lines, with
/// text gathered and nothing else changed: its links are the links of the
/// lines, in their order, and no two entries of text are neighbours.
pub proof fn lemma_menu_keeps_the_order_of_lines(origin: Seq<char>, lines: Seq<Seq<u8>>)
    requires
        entries_of(origin, lines) is Ok,
    ensures
        entries_of(origin, lines)->Ok_0 == collapse(entries_line_by_line(origin, lines)),
        links_of(entries_of(origin, lines)->Ok_0) == links_of(
            entries_line_by_line(origin, lines),
        ),
        text_is_gathered(entries_of(origin, lines)->Ok_0),
    decreases lines.len(),
{
    if lines.len() > 0 {
        lemma_menu_keeps_the_order_of_lines(origin, lines.drop_last());
        let each = entries_line_by_line(origin, lines);
        match entry_of(origin, without_cr(lines.last())) {
            Ok(Some(entry)) => {
                assert(each.drop_last() == entries_line_by_line(origin, lines.drop_last()));
            },
            _ => {},
        }
    }
    lemma_collapse_keeps_order(entries_line_by_line(origin, lines));
}

} // verus!
