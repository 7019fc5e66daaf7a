//! A server's answer, read into a typed value.

use crate::errors::{Error, ParseError};
use crate::item_type::ItemType;
use crate::locator::url_text;
use crate::menu::{menu_of, parse_menu, EntryView, MenuEntry};
use crate::menu_laws::lemma_lines_are_refused_for_their_type_only;
use crate::text::split;
use bytes::BytesMut;
use url::Url;
use vstd::prelude::*;
use vstd::string::*;
use vstd::utf8::*;

verus! {

/// What was fetched: the URL it came from, the type it was asked for as,
/// and what it holds.
#[derive(Debug, Clone, PartialEq, Eq)]
pub struct Response {
    pub url: Url,
    pub item_type: ItemType,
    pub kind: ResponseKind,
}

/// What an answer holds.
#[derive(Debug, Clone, PartialEq, Eq)]
pub enum ResponseKind {
    /// A directory listing: its entries in the order in which the server
    /// sent them.
    Menu(Vec<MenuEntry>),
    /// A text file, as it was sent, line endings and all.
    TextFile(String),
    /// A file that is no text. Nothing reads one yet.
    BinaryFile,
}

/// What an answer holds, as plain values.
pub enum KindView {
    Menu(Seq<EntryView>),
    TextFile(Seq<char>),
    BinaryFile,
}

impl DeepView for ResponseKind {
    type V = KindView;

    open spec fn deep_view(&self) -> KindView {
        match *self {
            ResponseKind::Menu(entries) => KindView::Menu(entries.deep_view()),
            ResponseKind::TextFile(text) => KindView::TextFile(text@),
            ResponseKind::BinaryFile => KindView::BinaryFile,
        }
    }
}

/// What the bytes of an answer hold, when they were asked for as
/// `item_type` from the URL written as `origin`.
///
/// Bytes that are not UTF-8 are refused first, whatever the type. A file is
/// its text. A directory is its menu. No other type is read.
pub open spec fn kind_of(origin: Seq<char>, item_type: ItemType, bytes: Seq<u8>) -> Result<
    KindView,
    ParseError,
> {
    if !valid_utf8(bytes) {
        Err(ParseError::Encoding)
    } else {
        match item_type {
            ItemType::File => Ok(KindView::TextFile(decode_utf8(bytes))),
            ItemType::Dir => match menu_of(origin, bytes) {
                Ok(menu) => Ok(KindView::Menu(menu)),
                Err(e) => Err(e),
            },
            _ => Err(ParseError::UnsupportedType(item_type)),
        }
    }
}

/// An answer is refused for its encoding exactly when its bytes are not
/// valid UTF-8, whatever it was asked for as, and then nothing of it is
/// read.
pub proof fn lemma_encoding_is_refused(origin: Seq<char>, item_type: ItemType, bytes: Seq<u8>)
    ensures
        kind_of(origin, item_type, bytes) == Err::<KindView, ParseError>(ParseError::Encoding)
            <==> !valid_utf8(bytes),
{
    lemma_lines_are_refused_for_their_type_only(origin, split(bytes, 0x0a));
}

/// A file is never refused once its bytes are text, and its text is all of
/// what was sent.
pub proof fn lemma_file_is_its_text(origin: Seq<char>, bytes: Seq<u8>)
    requires
        valid_utf8(bytes),
    ensures
        kind_of(origin, ItemType::File, bytes) == Ok::<KindView, ParseError>(
            KindView::TextFile(decode_utf8(bytes)),
        ),
        encode_utf8(decode_utf8(bytes)) == bytes,
{
    decode_utf8_encode_utf8(bytes);
}

impl Response {
    /// Reads the bytes that came back for a request of `item_type` at `url`.
    ///
    /// A listing's trailing text is kept as a last entry; where a listing
    /// ends in a link, or is empty, no empty text entry is added after it.
    pub fn from_buf(url: Url, item_type: ItemType, buf: Vec<u8>) -> (response: Result<
        Response,
        ParseError,
    >)
        ensures
            match response {
                Ok(r) => {
                    &&& r.url == url
                    &&& r.item_type == item_type
                    &&& kind_of(url_text(url), item_type, buf@) == Ok::<KindView, ParseError>(
                        r.kind.deep_view(),
                    )
                },
                Err(e) => kind_of(url_text(url), item_type, buf@) == Err::<KindView, ParseError>(e),
            },
    {
        broadcast use decode_utf8_encode_utf8;

        let text = match String::from_utf8(buf) {
            Ok(text) => text,
            Err(_) => {
                return Err(ParseError::Encoding);
            },
        };
        let kind = match item_type {
            ItemType::File => ResponseKind::TextFile(text),
            ItemType::Dir => match parse_menu(&url, text.as_str()) {
                Ok(entries) => ResponseKind::Menu(entries),
                Err(e) => {
                    return Err(e);
                },
            },
            _ => {
                return Err(ParseError::UnsupportedType(item_type));
            },
        };
        Ok(Response { url, item_type, kind })
    }
}

/// Reads answers frame by frame, for the item types that are not read to
/// the end of the stream. No such type is read yet: the codec takes no bytes
/// and gives no response.
pub struct ResponseCodec(ItemType);

impl ResponseCodec {
    /// The item type that the codec was made for.
    pub closed spec fn item_type(&self) -> ItemType {
        self.0
    }

    pub fn new(item_type: ItemType) -> (codec: ResponseCodec)
        ensures
            codec.item_type() == item_type,
    {
        ResponseCodec(item_type)
    }

    /// Responses are not written as bytes: the buffer stays as it is.
    pub fn encode(&mut self, item: Response, bytes: &mut BytesMut) -> (done: Result<(), Error>)
        ensures
            done is Ok,
            *final(bytes) == *old(bytes),
            final(self).item_type() == old(self).item_type(),
    {
        Ok(())
    }

    /// Takes no bytes and gives no response, whatever the buffer holds.
    pub fn decode(&mut self, bytes: &mut BytesMut) -> (item: Result<Option<Response>, Error>)
        ensures
            item matches Ok(None),
            *final(bytes) == *old(bytes),
            final(self).item_type() == old(self).item_type(),
    {
        Ok(None)
    }
}

} // verus!
