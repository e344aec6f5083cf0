//! The wire format, stated mathematically.
//!
//! A bulk stream is a five-byte header (four magic bytes and a version byte)
//! followed by any number of sections. Each section is one tag byte, a
//! four-byte big-endian length, and that many payload bytes. A MIME-type
//! section adds one label to the pending set; a content section consumes the
//! pending set (which must not be empty) into one data item.
//!
//! This module defines the decode functions over byte sequences that the
//! executable decoders are proved against, and the encode functions that
//! describe conforming streams.

use vstd::prelude::*;
use vstd::utf8::{decode_utf8, valid_utf8};

use crate::error::DecodeError;
use crate::item::SourceDataModel;

verus! {

/// The section tag that announces one MIME-type label.
pub const TAG_MIME: u8 = 0x4d;

/// The section tag that announces one content payload.
pub const TAG_CONTENT: u8 = 0x43;

/// The single supported protocol version.
pub const PROTOCOL_VERSION: u8 = 0;

/// The byte at position `i` of the four-byte magic constant.
pub open spec fn magic_byte(i: int) -> u8 {
    if i == 0 {
        0x20
    } else if i == 1 {
        0x09
    } else if i == 2 {
        0x02
    } else {
        0x14
    }
}

/// True when the stream begins with the four magic bytes.
pub open spec fn magic_ok(s: Seq<u8>) -> bool
    recommends
        s.len() >= 4,
{
    &&& s[0] == magic_byte(0)
    &&& s[1] == magic_byte(1)
    &&& s[2] == magic_byte(2)
    &&& s[3] == magic_byte(3)
}

/// The value of four bytes read as a big-endian unsigned 32-bit integer.
pub open spec fn be_u32_value(s: Seq<u8>) -> nat
    recommends
        s.len() == 4,
{
    (s[0] as nat) * 0x1000000 + (s[1] as nat) * 0x10000 + (s[2] as nat) * 0x100 + (s[3] as nat)
}

/// One length-prefixed block read at position `pos`: the four-byte
/// big-endian length, then that many payload bytes. Yields the payload and
/// the position just past it, or `TruncatedInput` when either part is cut
/// short.
pub open spec fn spec_read_block(s: Seq<u8>, pos: int) -> Result<(Seq<u8>, int), DecodeError>
    recommends
        0 <= pos <= s.len(),
{
    if s.len() - pos < 4 {
        Err(DecodeError::TruncatedInput)
    } else {
        let n = be_u32_value(s.subrange(pos, pos + 4)) as int;
        if s.len() - (pos + 4) < n {
            Err(DecodeError::TruncatedInput)
        } else {
            Ok((s.subrange(pos + 4, pos + 4 + n), pos + 4 + n))
        }
    }
}

/// One MIME-type section body read at position `pos`: a length-prefixed
/// block decoded as UTF-8. Yields the label and the position just past the
/// block, `TruncatedInput` when the block is cut short, `InvalidEncoding`
/// when its bytes are not valid UTF-8.
pub open spec fn spec_read_mime(s: Seq<u8>, pos: int) -> Result<(Seq<char>, int), DecodeError>
    recommends
        0 <= pos <= s.len(),
{
    match spec_read_block(s, pos) {
        Ok((body, end)) => if valid_utf8(body) {
            Ok((decode_utf8(body), end))
        } else {
            Err(DecodeError::InvalidEncoding)
        },
        Err(e) => Err(e),
    }
}

/// The section loop, from position `pos` with the labels in `pending`
/// already declared and not yet consumed. Ends cleanly only at a section
/// boundary; pending labels left over at the end are dropped without an
/// error and produce no item.
pub open spec fn spec_decode_sections(s: Seq<u8>, pos: int, pending: Seq<Seq<char>>) -> Result<
    Seq<SourceDataModel>,
    DecodeError,
>
    recommends
        0 <= pos <= s.len(),
    decreases s.len() - pos,
{
    if pos < 0 || pos >= s.len() {
        Ok(Seq::empty())
    } else if s[pos] == TAG_MIME {
        match spec_read_mime(s, pos + 1) {
            Ok((label, end)) => if pos < end <= s.len() {
                spec_decode_sections(s, end, pending.push(label))
            } else {
                // read_mime never yields a position outside (pos, s.len()];
                // this branch only bounds the recursion.
                Err(DecodeError::TruncatedInput)
            },
            Err(e) => Err(e),
        }
    } else if s[pos] == TAG_CONTENT {
        if pending.len() == 0 {
            Err(DecodeError::ContentWithoutMimeType)
        } else {
            match spec_read_block(s, pos + 1) {
                Ok((body, end)) => if pos < end <= s.len() {
                    match spec_decode_sections(s, end, Seq::empty()) {
                        Ok(rest) => Ok(
                            seq![SourceDataModel { mime_type: pending, content: body }] + rest,
                        ),
                        Err(e) => Err(e),
                    }
                } else {
                    Err(DecodeError::TruncatedInput)
                },
                Err(e) => Err(e),
            }
        }
    } else {
        Err(DecodeError::UnknownSectionTag(s[pos]))
    }
}

/// The whole bulk decode: header check, then the section loop with no
/// pending label. A stream of only a header decodes to no items.
pub open spec fn spec_decode_bulk(s: Seq<u8>) -> Result<Seq<SourceDataModel>, DecodeError> {
    if s.len() < 4 {
        Err(DecodeError::TruncatedInput)
    } else if !magic_ok(s) {
        Err(DecodeError::BadMagic)
    } else if s.len() < 5 {
        Err(DecodeError::TruncatedInput)
    } else if s[4] != PROTOCOL_VERSION {
        Err(DecodeError::UnsupportedVersion)
    } else {
        spec_decode_sections(s, 5, Seq::empty())
    }
}

/// The result of a decode that still has `items` to place before whatever
/// `rest` of the section loop yields: the items are prepended on success,
/// and the error stands on failure.
pub open spec fn prepend_items(
    items: Seq<SourceDataModel>,
    rest: Result<Seq<SourceDataModel>, DecodeError>,
) -> Result<Seq<SourceDataModel>, DecodeError> {
    match rest {
        Ok(tail) => Ok(items + tail),
        Err(e) => Err(e),
    }
}

/// Prepending no items changes nothing.
pub proof fn lemma_prepend_items_empty(rest: Result<Seq<SourceDataModel>, DecodeError>)
    ensures
        prepend_items(Seq::empty(), rest) == rest,
{
    match rest {
        Ok(tail) => {
            assert(Seq::<SourceDataModel>::empty() + tail =~= tail);
        },
        Err(_) => {},
    }
}

/// A freshly decoded item can move from the head of the remaining result to
/// the end of the items already placed.
pub proof fn lemma_prepend_items_shift(
    items: Seq<SourceDataModel>,
    m: SourceDataModel,
    rest: Result<Seq<SourceDataModel>, DecodeError>,
)
    ensures
        prepend_items(
            items,
            (match rest {
                Ok(tail) => Ok::<Seq<SourceDataModel>, DecodeError>(seq![m] + tail),
                Err(e) => Err::<Seq<SourceDataModel>, DecodeError>(e),
            }),
        ) == prepend_items(items.push(m), rest),
{
    match rest {
        Ok(tail) => {
            assert(items + (seq![m] + tail) =~= items.push(m) + tail);
        },
        Err(_) => {},
    }
}

/// The oneshot label filter: empty labels are discarded, the rest keep
/// their relative order.
pub open spec fn spec_filter_labels(labels: Seq<Seq<char>>) -> Seq<Seq<char>> {
    labels.filter(|label: Seq<char>| label.len() != 0)
}

/// The whole oneshot decode over the already-read content bytes and the
/// caller's candidate labels: one item carrying the filtered labels, or
/// `NoValidMimeType` when none survives the filter.
pub open spec fn spec_decode_oneshot(content: Seq<u8>, labels: Seq<Seq<char>>) -> Result<
    Seq<SourceDataModel>,
    DecodeError,
> {
    let kept = spec_filter_labels(labels);
    if kept.len() == 0 {
        Err(DecodeError::NoValidMimeType)
    } else {
        Ok(seq![SourceDataModel { mime_type: kept, content: content }])
    }
}

/// An item as the encoding counterpart sees it: the label strings as UTF-8
/// bytes, and the payload.
pub ghost struct WireItem {
    pub mime_type: Seq<Seq<u8>>,
    pub content: Seq<u8>,
}

/// A label that a conforming stream can carry: valid UTF-8, short enough
/// for a 32-bit length field.
pub open spec fn label_encodable(label: Seq<u8>) -> bool {
    valid_utf8(label) && label.len() < 0x1_0000_0000
}

/// An item that a conforming stream can carry: at least one label, every
/// label encodable, the payload short enough for a 32-bit length field.
pub open spec fn wire_item_encodable(it: WireItem) -> bool {
    &&& it.mime_type.len() >= 1
    &&& (forall|j: int| 0 <= j < it.mime_type.len() ==> label_encodable(#[trigger] it.mime_type[j]))
    &&& it.content.len() < 0x1_0000_0000
}

pub open spec fn wire_items_encodable(items: Seq<WireItem>) -> bool {
    forall|i: int| 0 <= i < items.len() ==> wire_item_encodable(#[trigger] items[i])
}

/// The four big-endian bytes of a length below 2^32.
pub open spec fn be_u32_bytes(n: nat) -> Seq<u8>
    recommends
        n < 0x1_0000_0000,
{
    seq![
        ((n / 0x1000000) % 0x100) as u8,
        ((n / 0x10000) % 0x100) as u8,
        ((n / 0x100) % 0x100) as u8,
        (n % 0x100) as u8,
    ]
}

/// One encoded section: the tag byte, the big-endian length of the body,
/// the body.
pub open spec fn encode_section(tag: u8, body: Seq<u8>) -> Seq<u8> {
    seq![tag] + be_u32_bytes(body.len()) + body
}

/// The encoded MIME-type sections for a run of labels, in order.
pub open spec fn encode_labels(labels: Seq<Seq<u8>>) -> Seq<u8>
    decreases labels.len(),
{
    if labels.len() == 0 {
        Seq::empty()
    } else {
        encode_section(TAG_MIME, labels[0]) + encode_labels(labels.skip(1))
    }
}

/// One encoded item: its MIME-type sections, then its content section.
pub open spec fn encode_item(it: WireItem) -> Seq<u8> {
    encode_labels(it.mime_type) + encode_section(TAG_CONTENT, it.content)
}

/// The encoded sections for a run of items, in order.
pub open spec fn encode_items(items: Seq<WireItem>) -> Seq<u8>
    decreases items.len(),
{
    if items.len() == 0 {
        Seq::empty()
    } else {
        encode_item(items[0]) + encode_items(items.skip(1))
    }
}

/// The five header bytes that open every conforming bulk stream.
pub open spec fn stream_header() -> Seq<u8> {
    seq![magic_byte(0), magic_byte(1), magic_byte(2), magic_byte(3), PROTOCOL_VERSION]
}

/// The item a decoder yields for an encoded wire item: each label's bytes
/// decoded as UTF-8, the payload unchanged.
pub open spec fn decoded_item(it: WireItem) -> SourceDataModel {
    SourceDataModel {
        mime_type: it.mime_type.map_values(|b: Seq<u8>| decode_utf8(b)),
        content: it.content,
    }
}

} // verus!
