use bytes::BytesMut;
use gopher::errors::ParseError;
use gopher::item_type::ItemType;
use gopher::menu::MenuEntry;
use gopher::response::{Response, ResponseCodec, ResponseKind};
use url::Url;

fn origin() -> Url {
    Url::parse("gopher://host:70").unwrap()
}

fn far_origin() -> Url {
    Url::parse("gopher://example.org:7070/1/start?q#frag").unwrap()
}

fn menu_from(url: Url, bytes: &[u8]) -> Vec<MenuEntry> {
    match Response::from_buf(url, ItemType::Dir, bytes.to_vec()) {
        Ok(Response { kind: ResponseKind::Menu(entries), .. }) => entries,
        other => panic!("no menu: {:?}", other),
    }
}

fn menu(bytes: &[u8]) -> Vec<MenuEntry> {
    menu_from(origin(), bytes)
}

fn text(s: &str) -> MenuEntry {
    MenuEntry::Information(s.to_string())
}

fn link(item_type: ItemType, label: &str, target: &str) -> MenuEntry {
    MenuEntry::Link(item_type, label.to_string(), target.to_string())
}

#[test]
fn information_lines_are_grouped_before_the_link() {
    let entries = menu(b"iHello\t\t\t0\r\niWorld\t\t\t0\r\n0File One\t/0/file1\thost\t70\r\n");
    assert_eq!(
        entries,
        vec![text("Hello\nWorld"), link(ItemType::File, "File One", "gopher://host/0/0/file1")]
    );
}

#[test]
fn labels_are_kept_with_their_spaces() {
    let entries = menu(b"i Hello\t\t\t0\r\ni World\t\t\t0\r\n0File One\t/0/file1\thost\t70\r\n");
    assert_eq!(
        entries,
        vec![text(" Hello\n World"), link(ItemType::File, "File One", "gopher://host/0/0/file1")]
    );
}

#[test]
fn link_keeps_the_port_of_its_origin() {
    let entries = menu_from(
        Url::parse("gopher://host:7070").unwrap(),
        b"0File One\tfile1\thost\t70\r\n1Sub\t/sub/dir\thost\t70\r\n",
    );
    assert_eq!(
        entries,
        vec![
            link(ItemType::File, "File One", "gopher://host:7070/0/file1"),
            link(ItemType::Dir, "Sub", "gopher://host:7070/1/sub/dir"),
        ]
    );
}

#[test]
fn link_replaces_the_path_and_keeps_query_and_fragment() {
    let entries = menu_from(far_origin(), b"1Next\t/next\tignored\t1\r\n");
    assert_eq!(
        entries,
        vec![link(ItemType::Dir, "Next", "gopher://example.org:7070/1/next?q#frag")]
    );
}

#[test]
fn every_leading_slash_of_the_selector_is_dropped() {
    let entries = menu(b"1Deep\t///a//b\thost\t70\r\n1Root\t\thost\t70\r\n1Slash\t/\thost\t70\r\n");
    assert_eq!(
        entries,
        vec![
            link(ItemType::Dir, "Deep", "gopher://host/1/a//b"),
            link(ItemType::Dir, "Root", "gopher://host/1/"),
            link(ItemType::Dir, "Slash", "gopher://host/1/"),
        ]
    );
}

#[test]
fn selector_is_percent_encoded_in_the_target() {
    let entries = menu("0Caf\u{e9}\t/my file \u{e9}\thost\t70\r\n".as_bytes());
    assert_eq!(
        entries,
        vec![link(ItemType::File, "Caf\u{e9}", "gopher://host/0/my%20file%20%C3%A9")]
    );
}

#[test]
fn line_with_two_fields_is_skipped() {
    let entries = menu(b"0Good\t/a\thost\t70\r\n0Bad\t/b\r\n0Also good\t/c\thost\t70\r\n");
    assert_eq!(
        entries,
        vec![
            link(ItemType::File, "Good", "gopher://host/0/a"),
            link(ItemType::File, "Also good", "gopher://host/0/c"),
        ]
    );
}

#[test]
fn line_with_three_fields_is_skipped_and_four_is_enough() {
    assert_eq!(menu(b"0Bad\t/b\thost\r\n"), vec![]);
    assert_eq!(
        menu(b"0Fine\t/b\thost\t70\r\n"),
        vec![link(ItemType::File, "Fine", "gopher://host/0/b")]
    );
    assert_eq!(
        menu(b"0More\t/b\thost\t70\t+\r\n"),
        vec![link(ItemType::File, "More", "gopher://host/0/b")]
    );
}

#[test]
fn skipped_line_does_not_part_a_run_of_text() {
    let entries = menu(b"iOne\t\t\t0\r\nibroken\r\n\r\niTwo\t\t\t0\r\n");
    assert_eq!(entries, vec![text("One\nTwo")]);
}

#[test]
fn trailing_information_is_kept() {
    let entries = menu(b"0File\t/f\thost\t70\r\niBye\t\t\t0\r\niNow\t\t\t0\r\n");
    assert_eq!(
        entries,
        vec![link(ItemType::File, "File", "gopher://host/0/f"), text("Bye\nNow")]
    );
}

#[test]
fn lone_information_line_is_the_whole_menu() {
    assert_eq!(menu(b"iAlone\t\t\t0\r\n"), vec![text("Alone")]);
}

#[test]
fn menu_that_ends_in_a_link_gets_no_empty_text_after_it() {
    let entries = menu(b"iHead\t\t\t0\r\n1Dir\t/d\thost\t70\r\n");
    assert_eq!(entries, vec![text("Head"), link(ItemType::Dir, "Dir", "gopher://host/1/d")]);
}

#[test]
fn empty_answer_is_an_empty_menu() {
    assert_eq!(menu(b""), vec![]);
    assert_eq!(menu(b"\r\n\r\n"), vec![]);
}

#[test]
fn empty_information_lines_are_empty_lines_of_text() {
    assert_eq!(menu(b"i\t\t\t0\r\n"), vec![text("")]);
    assert_eq!(menu(b"iA\t\t\t0\r\ni\t\t\t0\r\niB\t\t\t0\r\n"), vec![text("A\n\nB")]);
}

#[test]
fn text_between_links_stays_between_them() {
    let entries = menu(
        b"iA\t\t\t0\r\n0One\t/1\th\t70\r\niB\t\t\t0\r\niC\t\t\t0\r\n1Two\t/2\th\t70\r\n0Three\t/3\th\t70\r\niD\t\t\t0\r\n",
    );
    assert_eq!(
        entries,
        vec![
            text("A"),
            link(ItemType::File, "One", "gopher://host/0/1"),
            text("B\nC"),
            link(ItemType::Dir, "Two", "gopher://host/1/2"),
            link(ItemType::File, "Three", "gopher://host/0/3"),
            text("D"),
        ]
    );
}

#[test]
fn end_of_listing_mark_is_skipped() {
    let entries = menu(b"0File\t/f\thost\t70\r\n.\r\n");
    assert_eq!(entries, vec![link(ItemType::File, "File", "gopher://host/0/f")]);
}

#[test]
fn bare_line_feeds_end_lines_too() {
    let entries = menu(b"iA\t\t\t0\niB\t\t\t0\n0F\t/f\thost\t70");
    assert_eq!(entries, vec![text("A\nB"), link(ItemType::File, "F", "gopher://host/0/f")]);
}

#[test]
fn only_one_carriage_return_is_taken_from_a_line() {
    let entries = menu(b"0F\t/f\thost\t70\r\r\n");
    assert_eq!(entries, vec![link(ItemType::File, "F", "gopher://host/0/f")]);
    let entries = menu(b"iA\t\t\tx\r\r\n");
    assert_eq!(entries, vec![text("A")]);
    let entries = menu(b"iA\t\t\t\r\r\n");
    assert_eq!(entries, vec![text("A")]);
    let entries = menu(b"iA\t\t\r\r\n");
    assert_eq!(entries, vec![]);
}

#[test]
fn carriage_return_inside_a_line_stays() {
    let entries = menu(b"iA\rB\t\t\t0\r\n");
    assert_eq!(entries, vec![text("A\rB")]);
}

#[test]
fn line_that_begins_outside_ascii_is_skipped() {
    let entries = menu("\u{e9}Label\t/a\thost\t70\r\n0Ok\t/b\thost\t70\r\n".as_bytes());
    assert_eq!(entries, vec![link(ItemType::File, "Ok", "gopher://host/0/b")]);
}

#[test]
fn other_tags_are_text() {
    let entries = menu(b"hWeb\tURL:http://x\thost\t70\r\n?What\t\t\t0\r\n");
    assert_eq!(entries, vec![text("Web\nWhat")]);
}

#[test]
fn known_type_that_is_no_file_or_directory_is_refused() {
    let r = Response::from_buf(
        origin(),
        ItemType::Dir,
        b"iHead\t\t\t0\r\n7Search\t/s\thost\t70\r\n0File\t/f\thost\t70\r\n".to_vec(),
    );
    assert_eq!(r, Err(ParseError::UnsupportedType(ItemType::IndexServer)));
}

#[test]
fn first_refused_line_names_the_error() {
    let r = Response::from_buf(
        origin(),
        ItemType::Dir,
        b"gPic\t/p\thost\t70\r\n9Bin\t/b\thost\t70\r\n".to_vec(),
    );
    assert_eq!(r, Err(ParseError::UnsupportedType(ItemType::Gif)));
}

#[test]
fn malformed_line_of_a_refused_type_is_skipped() {
    assert_eq!(menu(b"7Search\t/s\r\n"), vec![]);
}

#[test]
fn invalid_utf8_is_an_encoding_error() {
    let r = Response::from_buf(origin(), ItemType::Dir, vec![b'i', 0xff, 0xfe, b'\n']);
    assert_eq!(r, Err(ParseError::Encoding));
    let r = Response::from_buf(origin(), ItemType::File, vec![0xc3]);
    assert_eq!(r, Err(ParseError::Encoding));
}

#[test]
fn invalid_utf8_after_good_lines_gives_no_partial_menu() {
    let mut bytes = b"0File\t/f\thost\t70\r\n".to_vec();
    bytes.extend_from_slice(&[b'i', 0xed, 0xa0, 0x80, b'\t', b'\t', b'\t', b'0', b'\n']);
    let r = Response::from_buf(origin(), ItemType::Dir, bytes);
    assert_eq!(r, Err(ParseError::Encoding));
}

#[test]
fn invalid_utf8_comes_before_the_type() {
    let r = Response::from_buf(origin(), ItemType::Binary, vec![0xff]);
    assert_eq!(r, Err(ParseError::Encoding));
}

#[test]
fn file_is_its_text_as_sent() {
    let r = Response::from_buf(origin(), ItemType::File, b"a\r\nb\n\n.\r\n".to_vec()).unwrap();
    assert_eq!(r.url, origin());
    assert_eq!(r.item_type, ItemType::File);
    assert_eq!(r.kind, ResponseKind::TextFile("a\r\nb\n\n.\r\n".to_string()));
    let r = Response::from_buf(origin(), ItemType::File, Vec::new()).unwrap();
    assert_eq!(r.kind, ResponseKind::TextFile(String::new()));
    let r = Response::from_buf(origin(), ItemType::File, "caf\u{e9}".as_bytes().to_vec()).unwrap();
    assert_eq!(r.kind, ResponseKind::TextFile("caf\u{e9}".to_string()));
}

#[test]
fn menu_response_keeps_url_and_type() {
    let r = Response::from_buf(far_origin(), ItemType::Dir, b"iA\t\t\t0\r\n".to_vec()).unwrap();
    assert_eq!(r.url, far_origin());
    assert_eq!(r.item_type, ItemType::Dir);
    assert_eq!(r.kind, ResponseKind::Menu(vec![text("A")]));
}

#[test]
fn other_types_are_unsupported() {
    for item_type in [
        ItemType::Binary,
        ItemType::Gif,
        ItemType::Image,
        ItemType::IndexServer,
        ItemType::Telnet,
        ItemType::Other(b'i'),
    ] {
        let r = Response::from_buf(origin(), item_type, b"anything".to_vec());
        assert_eq!(r, Err(ParseError::UnsupportedType(item_type)));
    }
}

#[test]
fn link_target_leads_back_to_its_selector() {
    let entries = menu(b"1Sub\t/sub/dir\thost\t70\r\n");
    let target = match &entries[0] {
        MenuEntry::Link(_, _, target) => Url::parse(target).unwrap(),
        other => panic!("no link: {:?}", other),
    };
    let address = gopher::request::SocketAddress::V4 { octets: 1, port: 70 };
    let request = gopher::request::Request::from_url(&target, &vec![address]).unwrap();
    assert_eq!(request.item_type, ItemType::Dir);
    assert_eq!(request.resource, "sub/dir");
}

#[test]
fn response_codec_takes_and_gives_nothing() {
    let mut codec = ResponseCodec::new(ItemType::Binary);
    let mut buf = BytesMut::new();
    buf.extend_from_slice(b"0File\t/f\thost\t70\r\n");
    assert!(matches!(codec.decode(&mut buf), Ok(None)));
    assert_eq!(&buf[..], b"0File\t/f\thost\t70\r\n");
    let response = Response::from_buf(origin(), ItemType::File, b"x".to_vec()).unwrap();
    assert!(codec.encode(response, &mut buf).is_ok());
    assert_eq!(&buf[..], b"0File\t/f\thost\t70\r\n");
}
