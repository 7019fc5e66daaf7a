//! A request: where to connect, what kind of thing is asked for, and the
//! selector that names it to the server.

use crate::buffer::buffer_bytes;
use crate::errors::{Error, UrlError};
use crate::item_type::{decode_tag, ItemType};
use crate::locator::{path_segments_of, port_of, url_path_segments, url_text};
use crate::text::join;
use bytes::BytesMut;
use url::Url;
use vstd::prelude::*;
use vstd::string::*;
use vstd::utf8::*;

verus! {

/// The port that Gopher servers listen on where a URL names none.
pub const DEFAULT_PORT: u16 = 70;

/// An address to connect to, as plain numbers. The four octets of an IPv4
/// address, or the eight segments of an IPv6 address, stand in one number,
/// the first of them in its highest bits.
#[derive(Debug, PartialEq, Eq, Structural, Hash, Clone, Copy)]
pub enum SocketAddress {
    V4 { octets: u32, port: u16 },
    V6 { segments: u128, port: u16, flowinfo: u32, scope_id: u32 },
}

/// What to ask of which server.
#[derive(Debug, Clone, PartialEq, Eq)]
pub struct Request {
    pub addr: SocketAddress,
    pub item_type: ItemType,
    pub resource: String,
}

/// The parts of a URL's path that make up the selector: what is left of the
/// first segment after its first character, if anything is, and the
/// segments after the first.
pub open spec fn selector_parts(segments: Seq<Seq<char>>) -> Seq<Seq<char>> {
    if segments[0].len() > 1 {
        seq![segments[0].skip(1)] + segments.skip(1)
    } else {
        segments.skip(1)
    }
}

/// The item type and the selector that the path segments of a URL ask for.
///
/// Without segments, or with an empty first one, it is the root menu: a
/// directory with the empty selector. Otherwise the first byte of the first
/// segment is the tag of the type, and the selector is the `selector_parts`
/// with a slash between each two.
pub open spec fn selection(segments: Option<Seq<Seq<char>>>) -> (ItemType, Seq<char>) {
    match segments {
        Some(list) => {
            if list.len() == 0 || list[0].len() == 0 {
                (ItemType::Dir, Seq::<char>::empty())
            } else {
                (decode_tag(encode_utf8(list[0])[0]), join(selector_parts(list), '/'))
            }
        },
        None => (ItemType::Dir, Seq::<char>::empty()),
    }
}

/// The bytes that go to the server for a selector: the selector and a line
/// feed. For the root menu that is the line feed alone.
pub open spec fn wire_bytes(resource: Seq<char>) -> Seq<u8> {
    encode_utf8(resource).push(0x0a)
}

/// A URL without a path, or with a path that begins with an empty segment,
/// asks for the root menu, and the root menu is asked for with a bare line
/// feed.
pub proof fn lemma_root_menu(segments: Option<Seq<Seq<char>>>)
    requires
        segments matches Some(list) ==> list.len() == 0 || list[0].len() == 0,
    ensures
        selection(segments) == (ItemType::Dir, Seq::<char>::empty()),
        wire_bytes(selection(segments).1) == seq![0x0au8],
{
}

/// Where the first segment is a type tag and no more, the selector is made
/// of the segments after it; where there are none, it is empty.
pub proof fn lemma_tag_alone(list: Seq<Seq<char>>)
    requires
        list.len() >= 1,
        list[0].len() == 1,
    ensures
        selection(Some(list)).1 == join(list.skip(1), '/'),
        list.len() == 1 ==> selection(Some(list)).1 == Seq::<char>::empty(),
{
}

/// The port to connect to when the URL gives `known`, or gives none.
pub fn port_or_default(known: Option<u16>) -> (port: u16)
    ensures
        port == match known {
            Some(p) => p,
            None => DEFAULT_PORT,
        },
{
    match known {
        Some(p) => p,
        None => DEFAULT_PORT,
    }
}

impl Request {
    /// The port to resolve the URL's host with: the URL's own, or the one of
    /// its scheme, or 70.
    pub fn port(url: &Url) -> (port: u16)
        ensures
            port == match port_of(url_text(*url)) {
                Some(p) => p,
                None => DEFAULT_PORT,
            },
    {
        port_or_default(url.port_or_known_default())
    }

    /// The item type and the selector that path segments ask for, as
    /// `selection` says.
    pub fn select(segments: Option<Vec<String>>) -> (chosen: (ItemType, String))
        ensures
            (chosen.0, chosen.1@) == selection(
                match segments {
                    Some(list) => Some(list.deep_view()),
                    None => None,
                },
            ),
    {
        let list = match segments {
            Some(list) => list,
            None => {
                return (ItemType::Dir, String::new());
            },
        };
        if list.len() == 0 {
            return (ItemType::Dir, String::new());
        }
        let first = list[0].as_str();
        let length = first.unicode_len();
        if length == 0 {
            return (ItemType::Dir, String::new());
        }
        let item_type = ItemType::decode(first.as_bytes()[0]);
        let ghost parts = selector_parts(list.deep_view());
        let ghost lead: int = if length > 1 { 1 } else { 0 };
        let mut resource = String::new();
        let mut written = false;
        if length > 1 {
            resource.append(first.substring_char(1, length));
            written = true;
        }
        let mut i: usize = 1;
        while i < list.len()
            invariant
                1 <= i <= list.len(),
                parts == selector_parts(list.deep_view()),
                lead == 0 || lead == 1,
                parts.len() == lead + list.len() - 1,
                written == (lead + i - 1 > 0),
                resource@ == join(parts.take(lead + i - 1), '/'),
            decreases list.len() - i,
        {
            let ghost done = parts.take(lead + i - 1);
            let ghost next = parts.take(lead + i);
            proof {
                reveal_strlit("/");
                assert(next.drop_last() == done);
            }
            if written {
                resource.append("/");
            }
            resource.append(list[i].as_str());
            written = true;
            i += 1;
        }
        proof {
            assert(parts.take(parts.len() as int) == parts);
        }
        (item_type, resource)
    }

    /// The request that a URL stands for, once its host and port have been
    /// resolved to `candidates`. The first candidate is the address; without
    /// one there is no request.
    pub fn from_url(url: &Url, candidates: &Vec<SocketAddress>) -> (request: Result<
        Request,
        UrlError,
    >)
        ensures
            match request {
                Ok(r) => {
                    &&& candidates.len() > 0
                    &&& r.addr == candidates[0]
                    &&& (r.item_type, r.resource@) == selection(path_segments_of(url_text(*url)))
                },
                Err(e) => candidates.len() == 0 && e == UrlError::Resolve,
            },
    {
        if candidates.len() == 0 {
            return Err(UrlError::Resolve);
        }
        let addr = candidates[0];
        let (item_type, resource) = Request::select(url_path_segments(url));
        Ok(Request { addr, item_type, resource })
    }
}

/// Writes requests as the bytes that go over the wire.
pub struct RequestCodec;

impl RequestCodec {
    pub fn new() -> (codec: RequestCodec) {
        RequestCodec
    }

    /// Adds the request's wire bytes to the buffer: its selector, then a
    /// line feed. This never fails; the buffer has to be able to take them.
    pub fn encode(&mut self, item: Request, bytes: &mut BytesMut) -> (done: Result<(), Error>)
        requires
            buffer_bytes(*old(bytes)).len() + wire_bytes(item.resource@).len() <= isize::MAX,
        ensures
            done is Ok,
            buffer_bytes(*final(bytes)) == buffer_bytes(*old(bytes)) + wire_bytes(item.resource@),
    {
        let line_feed: [u8; 1] = [0x0a];
        bytes.extend_from_slice(item.resource.as_str().as_bytes());
        bytes.extend_from_slice(line_feed.as_slice());
        Ok(())
    }

    /// Requests are not read from bytes: no bytes are taken and no request
    /// is given.
    pub fn decode(&mut self, bytes: &mut BytesMut) -> (item: Result<Option<Request>, Error>)
        ensures
            item matches Ok(None),
            *final(bytes) == *old(bytes),
    {
        Ok(None)
    }
}

} // verus!
