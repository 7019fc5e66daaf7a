//! The one-byte tag that tells what kind of resource a Gopher item is.

use vstd::prelude::*;

verus! {

/// The type of a resource in a Gopher directory.
///
/// The tags are those of section 3.8 of RFC 1436.
#[derive(Debug, PartialEq, Eq, Structural, Hash, Clone, Copy)]
pub enum ItemType {
    /// Item is a file
    File,
    /// Item is a directory
    Dir,
    /// Item is a CSO phone-book server
    CsoServer,
    /// Error
    Error,
    /// Item is a BinHexed Macintosh file.
    BinHex,
    /// Item is DOS binary archive of some sort.
    Dos,
    /// Item is a UNIX uuencoded file.
    Uuencoded,
    /// Item is an Index-Search server.
    IndexServer,
    /// Item points to a text-based telnet session.
    Telnet,
    /// Item is a binary file.
    Binary,
    /// Item is a redundant server
    RedundantServer,
    /// Item points to a text-based tn3270 session.
    Tn3270,
    /// Item is a GIF format graphics file.
    Gif,
    /// Item is some kind of image file.
    Image,
    /// Item is a non-standard type; the tag is kept as it came.
    Other(u8),
}

/// Whether `b` is the tag of one of the fourteen named item types.
pub open spec fn is_known_tag(b: u8) -> bool {
    ||| 0x30 <= b <= 0x39
    ||| b == 0x2b
    ||| b == 0x54
    ||| b == 0x67
    ||| b == 0x49
}

/// The item type that a tag byte stands for.
pub open spec fn decode_tag(b: u8) -> ItemType {
    if b == 0x30 {
        ItemType::File
    } else if b == 0x31 {
        ItemType::Dir
    } else if b == 0x32 {
        ItemType::CsoServer
    } else if b == 0x33 {
        ItemType::Error
    } else if b == 0x34 {
        ItemType::BinHex
    } else if b == 0x35 {
        ItemType::Dos
    } else if b == 0x36 {
        ItemType::Uuencoded
    } else if b == 0x37 {
        ItemType::IndexServer
    } else if b == 0x38 {
        ItemType::Telnet
    } else if b == 0x39 {
        ItemType::Binary
    } else if b == 0x2b {
        ItemType::RedundantServer
    } else if b == 0x54 {
        ItemType::Tn3270
    } else if b == 0x67 {
        ItemType::Gif
    } else if b == 0x49 {
        ItemType::Image
    } else {
        ItemType::Other(b)
    }
}

/// The tag byte that an item type is written as.
pub open spec fn encode_tag(t: ItemType) -> u8 {
    match t {
        ItemType::File => 0x30,
        ItemType::Dir => 0x31,
        ItemType::CsoServer => 0x32,
        ItemType::Error => 0x33,
        ItemType::BinHex => 0x34,
        ItemType::Dos => 0x35,
        ItemType::Uuencoded => 0x36,
        ItemType::IndexServer => 0x37,
        ItemType::Telnet => 0x38,
        ItemType::Binary => 0x39,
        ItemType::RedundantServer => 0x2b,
        ItemType::Tn3270 => 0x54,
        ItemType::Gif => 0x67,
        ItemType::Image => 0x49,
        ItemType::Other(b) => b,
    }
}

impl ItemType {
    /// Whether this is one of the fourteen named types, not `Other`.
    pub open spec fn is_named(self) -> bool {
        !(self is Other)
    }

    /// Whether a client can follow a link of this type: a file or a
    /// directory.
    pub open spec fn is_navigable(self) -> bool {
        self is File || self is Dir
    }

    /// Reads a tag byte. Every byte gives a type; one that names no known
    /// type gives `Other` with the byte in it.
    pub fn decode(b: u8) -> (t: ItemType)
        ensures
            t == decode_tag(b),
            is_known_tag(b) ==> t.is_named() && encode_tag(t) == b,
            !is_known_tag(b) ==> t == ItemType::Other(b),
    {
        match b {
            0x30 => ItemType::File,
            0x31 => ItemType::Dir,
            0x32 => ItemType::CsoServer,
            0x33 => ItemType::Error,
            0x34 => ItemType::BinHex,
            0x35 => ItemType::Dos,
            0x36 => ItemType::Uuencoded,
            0x37 => ItemType::IndexServer,
            0x38 => ItemType::Telnet,
            0x39 => ItemType::Binary,
            0x2b => ItemType::RedundantServer,
            0x54 => ItemType::Tn3270,
            0x67 => ItemType::Gif,
            0x49 => ItemType::Image,
            byte => ItemType::Other(byte),
        }
    }

    /// Writes the type as its tag byte; `Other` gives back the byte it holds.
    pub fn encode(self) -> (b: u8)
        ensures
            b == encode_tag(self),
            self.is_named() ==> is_known_tag(b) && decode_tag(b) == self,
            self matches ItemType::Other(byte) ==> b == byte,
    {
        match self {
            ItemType::File => 0x30,
            ItemType::Dir => 0x31,
            ItemType::CsoServer => 0x32,
            ItemType::Error => 0x33,
            ItemType::BinHex => 0x34,
            ItemType::Dos => 0x35,
            ItemType::Uuencoded => 0x36,
            ItemType::IndexServer => 0x37,
            ItemType::Telnet => 0x38,
            ItemType::Binary => 0x39,
            ItemType::RedundantServer => 0x2b,
            ItemType::Tn3270 => 0x54,
            ItemType::Gif => 0x67,
            ItemType::Image => 0x49,
            ItemType::Other(byte) => byte,
        }
    }
}

/// Decoding undoes encoding for every named type: `decode(encode(t)) == t`.
pub proof fn lemma_decode_encode(t: ItemType)
    requires
        t.is_named(),
    ensures
        decode_tag(encode_tag(t)) == t,
        is_known_tag(encode_tag(t)),
{
}

/// Encoding undoes decoding for every byte: `encode(decode(b)) == b`.
pub proof fn lemma_encode_decode(b: u8)
    ensures
        encode_tag(decode_tag(b)) == b,
{
}

/// A byte outside the known tags decodes to `Other` of itself, and `Other`
/// encodes to the byte it holds.
pub proof fn lemma_unknown_tag(b: u8)
    requires
        !is_known_tag(b),
    ensures
        decode_tag(b) == ItemType::Other(b),
        encode_tag(ItemType::Other(b)) == b,
{
}

/// `Other` round-trips exactly when the byte it holds is no known tag.
pub proof fn lemma_other_round_trip(b: u8)
    ensures
        decode_tag(encode_tag(ItemType::Other(b))) == ItemType::Other(b) <==> !is_known_tag(b),
{
}

} // verus!
