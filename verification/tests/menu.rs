use gopher::errors::ParseError;
use gopher::item_type::ItemType;
use gopher::menu::{add_entry, parse_menu, MenuEntry};
use url::Url;

fn origin() -> Url {
    Url::parse("gopher://host:7070/1/here").unwrap()
}

fn text(s: &str) -> MenuEntry {
    MenuEntry::Information(s.to_string())
}

fn link(item_type: ItemType, label: &str, target: &str) -> MenuEntry {
    MenuEntry::Link(item_type, label.to_string(), target.to_string())
}

#[test]
fn from_line_reads_text() {
    let entry = MenuEntry::from_line(&origin(), "iWelcome to the server\tfake\t(NULL)\t0");
    assert_eq!(entry, Ok(Some(text("Welcome to the server"))));
}

#[test]
fn from_line_reads_a_file_link() {
    let entry = MenuEntry::from_line(&origin(), "0About\t/about.txt\texample.org\t70");
    assert_eq!(
        entry,
        Ok(Some(link(ItemType::File, "About", "gopher://host:7070/0/about.txt")))
    );
}

#[test]
fn from_line_reads_a_directory_link() {
    let entry = MenuEntry::from_line(&origin(), "1Files\tfiles\texample.org\t70");
    assert_eq!(entry, Ok(Some(link(ItemType::Dir, "Files", "gopher://host:7070/1/files"))));
}

#[test]
fn from_line_keeps_a_carriage_return_that_it_is_given() {
    let entry = MenuEntry::from_line(&origin(), "iA\t\t\t0\r");
    assert_eq!(entry, Ok(Some(text("A"))));
    let entry = MenuEntry::from_line(&origin(), "iA\r\t\t\t0");
    assert_eq!(entry, Ok(Some(text("A\r"))));
}

#[test]
fn from_line_skips_what_is_no_line() {
    assert_eq!(MenuEntry::from_line(&origin(), ""), Ok(None));
    assert_eq!(MenuEntry::from_line(&origin(), "i"), Ok(None));
    assert_eq!(MenuEntry::from_line(&origin(), "."), Ok(None));
    assert_eq!(MenuEntry::from_line(&origin(), "0Label\t/sel"), Ok(None));
    assert_eq!(MenuEntry::from_line(&origin(), "0Label\t/sel\thost"), Ok(None));
    assert_eq!(MenuEntry::from_line(&origin(), "\u{fc}ber\t/sel\thost\t70"), Ok(None));
}

#[test]
fn from_line_refuses_other_known_types() {
    for (tag, item_type) in [
        ('2', ItemType::CsoServer),
        ('3', ItemType::Error),
        ('4', ItemType::BinHex),
        ('5', ItemType::Dos),
        ('6', ItemType::Uuencoded),
        ('7', ItemType::IndexServer),
        ('8', ItemType::Telnet),
        ('9', ItemType::Binary),
        ('+', ItemType::RedundantServer),
        ('T', ItemType::Tn3270),
        ('g', ItemType::Gif),
        ('I', ItemType::Image),
    ] {
        let line = format!("{}Label\t/sel\thost\t70", tag);
        assert_eq!(
            MenuEntry::from_line(&origin(), &line),
            Err(ParseError::UnsupportedType(item_type))
        );
    }
}

#[test]
fn from_line_resolves_dots_as_the_url_does() {
    let entry = MenuEntry::from_line(&origin(), "0Up\t/a/../b\thost\t70");
    assert_eq!(entry, Ok(Some(link(ItemType::File, "Up", "gopher://host:7070/0/b"))));
}

#[test]
fn parse_menu_reads_lines_in_order() {
    let entries = parse_menu(&origin(), "iA\t\t\t0\r\n1B\t/b\th\t70\r\niC\t\t\t0\n.\r\n").unwrap();
    assert_eq!(
        entries,
        vec![text("A"), link(ItemType::Dir, "B", "gopher://host:7070/1/b"), text("C")]
    );
}

#[test]
fn parse_menu_refuses_with_the_first_unsupported_line() {
    let r = parse_menu(&origin(), "iA\t\t\t0\r\nIimg\t/i\th\t70\r\n7s\t/s\th\t70\r\n");
    assert_eq!(r, Err(ParseError::UnsupportedType(ItemType::Image)));
}

#[test]
fn add_entry_gathers_text_and_keeps_links_apart() {
    let mut menu = Vec::new();
    add_entry(&mut menu, text("a"));
    add_entry(&mut menu, text("b"));
    add_entry(&mut menu, link(ItemType::File, "f", "gopher://h/0/f"));
    add_entry(&mut menu, link(ItemType::Dir, "d", "gopher://h/1/d"));
    add_entry(&mut menu, text("c"));
    assert_eq!(
        menu,
        vec![
            text("a\nb"),
            link(ItemType::File, "f", "gopher://h/0/f"),
            link(ItemType::Dir, "d", "gopher://h/1/d"),
            text("c"),
        ]
    );
}

#[test]
fn add_entry_joins_three_lines_with_two_newlines() {
    let mut menu = Vec::new();
    add_entry(&mut menu, text("one"));
    add_entry(&mut menu, text(""));
    add_entry(&mut menu, text("three"));
    assert_eq!(menu, vec![text("one\n\nthree")]);
}

#[test]
fn add_entry_adds_to_a_menu_that_ends_in_text() {
    let mut menu = vec![link(ItemType::Dir, "d", "gopher://h/1/d"), text("seen")];
    add_entry(&mut menu, text("new"));
    assert_eq!(menu, vec![link(ItemType::Dir, "d", "gopher://h/1/d"), text("seen\nnew")]);
}
