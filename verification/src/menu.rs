//! The entries of a Gopher menu, and how lines of free text that follow one
//! another are gathered into a single entry.

use crate::errors::ParseError;
use crate::item_type::{decode_tag, encode_tag, ItemType};
use crate::locator::{text_with_path, url_text};
use crate::text::{
    bytes_of, slice_str, split, split_str, trim_start, trim_start_str, without_cr,
    without_cr_str, lemma_ascii_byte_is_bounded,
};
use url::Url;
use vstd::prelude::*;
use vstd::string::*;
use vstd::utf8::*;

verus! {

/// One entry of a menu.
#[derive(Debug, Clone, PartialEq, Eq)]
pub enum MenuEntry {
    /// Text for the reader, which leads nowhere. Lines that follow one
    /// another in the listing stand in one entry, with a newline between
    /// them.
    Information(String),
    /// A resource that can be fetched: its type, its label, and the full URL
    /// that it is found at.
    Link(ItemType, String, String),
}

/// What a menu entry holds, as plain values.
pub enum EntryView {
    Information(Seq<char>),
    Link(ItemType, Seq<char>, Seq<char>),
}

impl DeepView for MenuEntry {
    type V = EntryView;

    open spec fn deep_view(&self) -> EntryView {
        match *self {
            MenuEntry::Information(text) => EntryView::Information(text@),
            MenuEntry::Link(item_type, label, target) => EntryView::Link(
                item_type,
                label@,
                target@,
            ),
        }
    }
}

/// The path under which a link's resource stands in its URL: a slash, the
/// tag of its type, a slash, and the selector without the slashes that it
/// begins with.
pub open spec fn link_path(item_type: ItemType, selector: Seq<u8>) -> Seq<char> {
    seq!['/', encode_tag(item_type) as char, '/'] + decode_utf8(trim_start(selector, 0x2f))
}

/// Whether a URL written as `origin` can take `path`: the text of a URL has
/// to stay under 4 GiB, and in it a byte of the path may take the place of
/// three.
pub open spec fn link_fits(origin: Seq<char>, path: Seq<char>) -> bool {
    encode_utf8(origin).len() + 3 * encode_utf8(path).len() + 4 <= u32::MAX
}

/// What one line of a directory listing says, given the text of the URL
/// that the listing was fetched from.
///
/// A line is a tag byte and then fields with a tab between each two:
/// label, selector, host, port. It gives no entry (`Ok(None)`) when it is
/// empty, when it does not begin with an ASCII byte, when it has fewer than
/// four fields, or when its link would not fit in a URL. A tag that names no
/// known type makes the line text for the reader. A file or a directory
/// makes it a link. Any other known type is refused.
pub open spec fn entry_of(origin: Seq<char>, line: Seq<u8>) -> Result<
    Option<EntryView>,
    ParseError,
> {
    if line.len() == 0 || line[0] >= 0x80 {
        Ok(None)
    } else {
        let item_type = decode_tag(line[0]);
        let fields = split(line.skip(1), 0x09);
        if fields.len() < 4 {
            Ok(None)
        } else if item_type is Other {
            Ok(Some(EntryView::Information(decode_utf8(fields[0]))))
        } else if item_type.is_navigable() {
            let path = link_path(item_type, fields[1]);
            if link_fits(origin, path) {
                Ok(
                    Some(
                        EntryView::Link(
                            item_type,
                            decode_utf8(fields[0]),
                            text_with_path(origin, path),
                        ),
                    ),
                )
            } else {
                Ok(None)
            }
        } else {
            Err(ParseError::UnsupportedType(item_type))
        }
    }
}

/// Two runs of text as one, the second on a new line.
pub open spec fn on_new_line(text: Seq<char>, more: Seq<char>) -> Seq<char> {
    text.push('\n') + more
}

/// The menu with one more entry. A link is added at the end. Text is added
/// at the end too, unless the menu ends in text already: then it goes on a
/// new line of that last entry.
pub open spec fn extend(menu: Seq<EntryView>, entry: EntryView) -> Seq<EntryView> {
    match entry {
        EntryView::Link(_, _, _) => menu.push(entry),
        EntryView::Information(more) => {
            if menu.len() > 0 && menu.last() is Information {
                menu.update(
                    menu.len() - 1,
                    EntryView::Information(on_new_line(menu.last()->Information_0, more)),
                )
            } else {
                menu.push(entry)
            }
        },
    }
}

/// The menu that a list of entries makes when they are taken in one by one:
/// every run of text entries has become one entry, the links stand as they
/// were, and nothing has changed its place.
pub open spec fn collapse(entries: Seq<EntryView>) -> Seq<EntryView>
    decreases entries.len(),
{
    if entries.len() == 0 {
        Seq::<EntryView>::empty()
    } else {
        extend(collapse(entries.drop_last()), entries.last())
    }
}

impl MenuEntry {
    /// Reads one line of a directory listing that was fetched from `origin`,
    /// as `entry_of` says. The line comes without its line ending.
    pub fn from_line(origin: &Url, line: &str) -> (entry: Result<Option<MenuEntry>, ParseError>)
        ensures
            match entry {
                Ok(Some(e)) => entry_of(url_text(*origin), line.spec_bytes()) == Ok::<
                    Option<EntryView>,
                    ParseError,
                >(Some(e.deep_view())),
                Ok(None) => entry_of(url_text(*origin), line.spec_bytes()) == Ok::<
                    Option<EntryView>,
                    ParseError,
                >(None),
                Err(e) => entry_of(url_text(*origin), line.spec_bytes()) == Err::<
                    Option<EntryView>,
                    ParseError,
                >(e),
            },
    {
        broadcast use encode_utf8_valid_utf8, encode_utf8_decode_utf8;

        let bytes = line.as_bytes();
        let n = bytes.len();
        if n == 0 || bytes[0] >= 0x80 {
            return Ok(None);
        }
        let item_type = ItemType::decode(bytes[0]);
        proof {
            lemma_ascii_byte_is_bounded(line.spec_bytes(), 0);
            is_char_boundary_start_end_of_seq(line.spec_bytes());
        }
        let fields = split_str(slice_str(line, 1, n), 0x09);
        if fields.len() < 4 {
            return Ok(None);
        }
        let ghost pieces = split(line.spec_bytes().skip(1), 0x09);
        assert(fields[0].spec_bytes() == pieces[0]);
        assert(fields[1].spec_bytes() == pieces[1]);
        match item_type {
            ItemType::Other(_) => Ok(Some(MenuEntry::Information(fields[0].to_owned()))),
            ItemType::File | ItemType::Dir => {
                let stem = match item_type {
                    ItemType::File => "/0/",
                    _ => "/1/",
                };
                proof {
                    reveal_strlit("/0/");
                    reveal_strlit("/1/");
                    assert(stem@ == seq!['/', encode_tag(item_type) as char, '/']);
                }
                let selector = trim_start_str(fields[1], 0x2f);
                let path = String::from_str(stem).concat(selector);
                let room = origin.as_str().as_bytes().len() as u128;
                let need = path.as_str().as_bytes().len() as u128;
                if room + 3 * need + 4 > u32::MAX as u128 {
                    return Ok(None);
                }
                let mut target = origin.clone();
                target.set_path(path.as_str());
                Ok(
                    Some(
                        MenuEntry::Link(
                            item_type,
                            fields[0].to_owned(),
                            target.as_str().to_owned(),
                        ),
                    ),
                )
            },
            _ => Err(ParseError::UnsupportedType(item_type)),
        }
    }
}

/// The menu that the lines of a listing make, read in order: each line is
/// rid of the carriage return that it may end in and read as `entry_of`
/// says, and the entries that come of it are gathered as `extend` says. The
/// first line that is refused refuses the whole listing.
pub open spec fn entries_of(origin: Seq<char>, lines: Seq<Seq<u8>>) -> Result<
    Seq<EntryView>,
    ParseError,
>
    decreases lines.len(),
{
    if lines.len() == 0 {
        Ok(Seq::<EntryView>::empty())
    } else {
        match entries_of(origin, lines.drop_last()) {
            Err(e) => Err(e),
            Ok(menu) => match entry_of(origin, without_cr(lines.last())) {
                Err(e) => Err(e),
                Ok(None) => Ok(menu),
                Ok(Some(entry)) => Ok(extend(menu, entry)),
            },
        }
    }
}

/// The menu that the bytes of a directory answer stand for. Its lines are
/// what lies between the line feeds.
pub open spec fn menu_of(origin: Seq<char>, bytes: Seq<u8>) -> Result<Seq<EntryView>, ParseError> {
    entries_of(origin, split(bytes, 0x0a))
}

/// Once the first lines of a listing are refused, the listing is, with the
/// same error.
pub proof fn lemma_refusal_stays(origin: Seq<char>, lines: Seq<Seq<u8>>, k: int)
    requires
        0 <= k <= lines.len(),
        entries_of(origin, lines.take(k)) is Err,
    ensures
        entries_of(origin, lines) == entries_of(origin, lines.take(k)),
    decreases lines.len(),
{
    if k == lines.len() {
        assert(lines.take(k) == lines);
    } else {
        assert(lines.drop_last().take(k) == lines.take(k));
        lemma_refusal_stays(origin, lines.drop_last(), k);
    }
}

/// Reads a directory listing that was fetched from `origin`.
pub fn parse_menu(origin: &Url, text: &str) -> (menu: Result<Vec<MenuEntry>, ParseError>)
    ensures
        match menu {
            Ok(entries) => menu_of(url_text(*origin), text.spec_bytes()) == Ok::<
                Seq<EntryView>,
                ParseError,
            >(entries.deep_view()),
            Err(e) => menu_of(url_text(*origin), text.spec_bytes()) == Err::<
                Seq<EntryView>,
                ParseError,
            >(e),
        },
{
    let pieces = split_str(text, 0x0a);
    let ghost lines = split(text.spec_bytes(), 0x0a);
    let ghost from = url_text(*origin);
    let mut menu: Vec<MenuEntry> = Vec::new();
    let mut i: usize = 0;
    proof {
        assert(menu.deep_view() == Seq::<EntryView>::empty());
    }
    while i < pieces.len()
        invariant
            i <= pieces.len(),
            bytes_of(pieces@) == lines,
            lines == split(text.spec_bytes(), 0x0a),
            from == url_text(*origin),
            entries_of(from, lines.take(i as int)) == Ok::<Seq<EntryView>, ParseError>(
                menu.deep_view(),
            ),
        decreases pieces.len() - i,
    {
        proof {
            assert(lines.take(i + 1).drop_last() == lines.take(i as int));
        }
        let line = without_cr_str(pieces[i]);
        match MenuEntry::from_line(origin, line) {
            Err(e) => {
                proof {
                    lemma_refusal_stays(from, lines, i + 1);
                }
                return Err(e);
            },
            Ok(None) => {},
            Ok(Some(entry)) => {
                add_entry(&mut menu, entry);
            },
        }
        i += 1;
    }
    proof {
        assert(lines.take(i as int) == lines);
    }
    Ok(menu)
}

/// Takes one more entry into the menu, as `extend` says: a link goes to
/// the end, and so does text, unless the menu ends in text already, which
/// then gets the new text as a further line.
pub fn add_entry(menu: &mut Vec<MenuEntry>, entry: MenuEntry)
    ensures
        final(menu).deep_view() == extend(old(menu).deep_view(), entry.deep_view()),
{
    match entry {
        MenuEntry::Information(more) => {
            match menu.pop() {
                Some(MenuEntry::Information(text)) => {
                    proof {
                        reveal_strlit("\n");
                        assert(text@ + "\n"@ == text@.push('\n'));
                    }
                    menu.push(MenuEntry::Information(text.concat("\n").concat(more.as_str())));
                },
                Some(last) => {
                    menu.push(last);
                    menu.push(MenuEntry::Information(more));
                },
                None => {
                    menu.push(MenuEntry::Information(more));
                },
            }
        },
        MenuEntry::Link(item_type, label, target) => {
            menu.push(MenuEntry::Link(item_type, label, target));
        },
    }
}

} // verus!
