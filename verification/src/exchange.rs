//! One round trip with a server, as a sequence of decisions. The exchange
//! itself touches no socket: it says what is to be done next, is told how
//! that went, and says what follows.

use crate::buffer::buffer_bytes;
use crate::errors::{Error, ParseError};
use crate::item_type::ItemType;
use crate::locator::url_text;
use crate::request::{wire_bytes, Request, RequestCodec, SocketAddress};
use crate::response::{kind_of, KindView, Response};
use bytes::BytesMut;
use url::Url;
use vstd::prelude::*;
use vstd::std_specs::convert::FromSpec;

verus! {

/// Where an exchange stands.
pub enum Exchange {
    /// Waiting for the connection. The request's bytes lie ready.
    Connecting { url: Url, item_type: ItemType, wire: BytesMut },
    /// Waiting for the request to be written in full.
    Sending { url: Url, item_type: ItemType },
    /// Waiting for the whole answer, up to the end of the stream.
    Reading { url: Url, item_type: ItemType },
    /// Waiting for the first frame of the answer.
    Framing { item_type: ItemType },
    /// Over: the result has been handed out.
    Done,
}

/// What is to be done next for an exchange.
pub enum Action {
    /// Open a stream to this address.
    Connect(SocketAddress),
    /// Write all of these bytes to the stream.
    Send(BytesMut),
    /// Read the stream until the server closes it.
    ReadToEnd,
    /// Read one frame from the stream.
    ReadFrame,
    /// Hand this result to whoever asked. Nothing more is to be done.
    Deliver(Result<Response, Error>),
}

/// What happened to the last action.
pub enum Event {
    /// The stream is open.
    Connected,
    /// The bytes have been written.
    Sent,
    /// The stream has ended; these bytes came before its end.
    Body(Vec<u8>),
    /// The frame that was read, or none if the stream ended first.
    Frame(Option<Response>),
    /// The action failed.
    Failed(std::io::Error),
}

/// Whether an answer of this type is read as a whole, up to the end of the
/// stream: a directory or a file. Other types are read by frames.
pub open spec fn reads_to_end(item_type: ItemType) -> bool {
    item_type is Dir || item_type is File
}

impl Exchange {
    /// How many more events the exchange can take before it is over, at
    /// most.
    pub open spec fn steps_left(self) -> nat {
        match self {
            Exchange::Connecting { .. } => 3,
            Exchange::Sending { .. } => 2,
            Exchange::Reading { .. } => 1,
            Exchange::Framing { .. } => 1,
            Exchange::Done => 0,
        }
    }

    /// Begins the exchange for `request`, which was made from `url`. The
    /// first thing to do is to connect to the request's address. The bytes
    /// to send are made ready here, so they have to fit in a buffer.
    pub fn start(url: Url, request: Request) -> (begun: (Exchange, Action))
        requires
            wire_bytes(request.resource@).len() <= isize::MAX,
        ensures
            begun.0 matches Exchange::Connecting { url: u, item_type: t, wire } && u == url && t
                == request.item_type && buffer_bytes(wire) == wire_bytes(request.resource@),
            begun.1 matches Action::Connect(addr) && addr == request.addr,
    {
        let addr = request.addr;
        let item_type = request.item_type;
        let mut wire = BytesMut::new();
        let mut codec = RequestCodec::new();
        let _ = codec.encode(request, &mut wire);
        (Exchange::Connecting { url, item_type, wire }, Action::Connect(addr))
    }

    /// Takes in what happened and says what follows.
    ///
    /// Once connected, the request is sent. Once it is sent, and not before,
    /// the answer is read: to the end for a directory or a file, by a frame
    /// for other types. What was read to the end is parsed and delivered; a
    /// frame is delivered as it is, and a stream without one is an
    /// unsupported type. A failure is delivered as an I/O error. Anything
    /// that the exchange was not waiting for ends it as out of turn. Every
    /// event brings the exchange nearer to its end: it is over after three
    /// events at most, and stays over.
    pub fn step(self, event: Event) -> (next: (Exchange, Action))
        ensures
            next.1 is Send ==> self is Connecting && event is Connected,
            next.1 is ReadToEnd || next.1 is ReadFrame ==> self is Sending && event is Sent,
            !(next.1 is Connect),
            next.1 is Deliver <==> next.0 is Done,
            !(self is Done) ==> next.0.steps_left() < self.steps_left(),
            match (self, event) {
                (Exchange::Connecting { url, item_type, wire }, Event::Connected) => {
                    &&& next.0 matches Exchange::Sending { url: u, item_type: t } && u == url && t
                        == item_type
                    &&& next.1 matches Action::Send(bytes) && bytes == wire
                },
                (Exchange::Sending { url, item_type }, Event::Sent) => {
                    if reads_to_end(item_type) {
                        &&& next.0 matches Exchange::Reading { url: u, item_type: t } && u == url
                            && t == item_type
                        &&& next.1 is ReadToEnd
                    } else {
                        &&& next.0 matches Exchange::Framing { item_type: t } && t == item_type
                        &&& next.1 is ReadFrame
                    }
                },
                (Exchange::Reading { url, item_type }, Event::Body(body)) => {
                    &&& next.0 is Done
                    &&& next.1 matches Action::Deliver(result)
                    &&& match result {
                        Ok(r) => {
                            &&& r.url == url
                            &&& r.item_type == item_type
                            &&& kind_of(url_text(url), item_type, body@) == Ok::<
                                KindView,
                                ParseError,
                            >(r.kind.deep_view())
                        },
                        Err(e) => {
                            &&& kind_of(url_text(url), item_type, body@) matches Err(refusal)
                            &&& e == Error::from_spec(refusal)
                        },
                    }
                },
                (Exchange::Framing { item_type }, Event::Frame(frame)) => {
                    &&& next.0 is Done
                    &&& next.1 matches Action::Deliver(result)
                    &&& match frame {
                        Some(response) => result == Ok::<Response, Error>(response),
                        None => result == Err::<Response, Error>(
                            Error::UnsupportedType(item_type),
                        ),
                    }
                },
                (Exchange::Done, _) => {
                    &&& next.0 is Done
                    &&& next.1 matches Action::Deliver(Err(Error::OutOfTurn))
                },
                (_, Event::Failed(failure)) => {
                    &&& next.0 is Done
                    &&& next.1 matches Action::Deliver(Err(Error::IO(f)))
                    &&& f == failure
                },
                _ => {
                    &&& next.0 is Done
                    &&& next.1 matches Action::Deliver(Err(Error::OutOfTurn))
                },
            },
    {
        match (self, event) {
            (Exchange::Connecting { url, item_type, wire }, Event::Connected) => (
                Exchange::Sending { url, item_type },
                Action::Send(wire),
            ),
            (Exchange::Sending { url, item_type }, Event::Sent) => match item_type {
                ItemType::Dir | ItemType::File => (
                    Exchange::Reading { url, item_type },
                    Action::ReadToEnd,
                ),
                _ => (Exchange::Framing { item_type }, Action::ReadFrame),
            },
            (Exchange::Reading { url, item_type }, Event::Body(body)) => {
                let result = match Response::from_buf(url, item_type, body) {
                    Ok(response) => Ok(response),
                    Err(refusal) => Err(Error::from(refusal)),
                };
                (Exchange::Done, Action::Deliver(result))
            },
            (Exchange::Framing { item_type }, Event::Frame(frame)) => {
                let result = match frame {
                    Some(response) => Ok(response),
                    None => Err(Error::UnsupportedType(item_type)),
                };
                (Exchange::Done, Action::Deliver(result))
            },
            (Exchange::Done, _) => (Exchange::Done, Action::Deliver(Err(Error::OutOfTurn))),
            (_, Event::Failed(failure)) => (
                Exchange::Done,
                Action::Deliver(Err(Error::IO(failure))),
            ),
            _ => (Exchange::Done, Action::Deliver(Err(Error::OutOfTurn))),
        }
    }
}

} // verus!
