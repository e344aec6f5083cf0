//! The format-level guarantees of the bulk decoder, stated and proved over
//! the wire model. Each public proof function here is one law of the
//! format; the executable decoders are tied to the same model by their own
//! contracts in `recv`.

use vstd::arithmetic::div_mod::{
    lemma_div_denominator, lemma_fundamental_div_mod, lemma_small_mod,
};
use vstd::prelude::*;

use vstd::utf8::decode_utf8;

use crate::error::DecodeError;
use crate::item::SourceDataModel;
use crate::wire::{
    be_u32_bytes, be_u32_value, decoded_item, encode_items, encode_labels, encode_section,
    label_encodable, magic_byte, magic_ok, prepend_items, spec_decode_bulk,
    spec_decode_sections, spec_read_block, spec_read_mime, stream_header, wire_item_encodable,
    wire_items_encodable, WireItem, PROTOCOL_VERSION, TAG_CONTENT, TAG_MIME,
};

verus! {

/// A length below 2^32 survives the trip through its four big-endian
/// bytes.
pub proof fn lemma_be_u32_bytes_value(n: nat)
    requires
        n < 0x1_0000_0000,
    ensures
        be_u32_value(be_u32_bytes(n)) == n,
{
    let x = n as int;
    lemma_fundamental_div_mod(x, 0x100);
    lemma_fundamental_div_mod(x / 0x100, 0x100);
    lemma_fundamental_div_mod(x / 0x10000, 0x100);
    lemma_div_denominator(x, 0x100, 0x100);
    lemma_div_denominator(x, 0x10000, 0x100);
    lemma_small_mod((n / 0x1000000) as nat, 0x100);
    assert(x == 0x1000000 * (x / 0x1000000) + 0x10000 * ((x / 0x10000) % 0x100) + 0x100 * ((x
        / 0x100) % 0x100) + x % 0x100);
}

/// A stream that differs from the magic constant in any one of its first
/// four bytes fails with `BadMagic`; nothing after the magic is looked at.
pub proof fn lemma_bad_magic(s: Seq<u8>, i: int)
    requires
        s.len() >= 4,
        0 <= i < 4,
        s[i] != magic_byte(i),
    ensures
        spec_decode_bulk(s) == Err::<Seq<SourceDataModel>, DecodeError>(DecodeError::BadMagic),
{
    assert(!magic_ok(s));
}

/// A stream with the right magic but a version byte other than the
/// supported one fails with `UnsupportedVersion`, whatever follows.
pub proof fn lemma_unsupported_version(s: Seq<u8>)
    requires
        s.len() >= 5,
        magic_ok(s),
        s[4] != PROTOCOL_VERSION,
    ensures
        spec_decode_bulk(s) == Err::<Seq<SourceDataModel>, DecodeError>(
            DecodeError::UnsupportedVersion,
        ),
{
}

/// Walking a run of encoded MIME-type sections appends their decoded
/// labels, in order, to whatever labels were already pending, and consumes
/// exactly those sections.
proof fn lemma_decode_encoded_labels(
    s: Seq<u8>,
    pos: int,
    pending: Seq<Seq<char>>,
    labels: Seq<Seq<u8>>,
    tail: int,
)
    requires
        0 <= pos <= tail <= s.len(),
        s.subrange(pos, tail) == encode_labels(labels),
        forall|j: int| 0 <= j < labels.len() ==> label_encodable(#[trigger] labels[j]),
    ensures
        spec_decode_sections(s, pos, pending) == spec_decode_sections(
            s,
            tail,
            pending + labels.map_values(|b: Seq<u8>| decode_utf8(b)),
        ),
    decreases labels.len(),
{
    let enc = encode_labels(labels);
    assert(tail - pos == enc.len());
    if labels.len() == 0 {
        assert(pending + labels.map_values(|b: Seq<u8>| decode_utf8(b)) =~= pending);
    } else {
        let label = labels[0];
        let n = label.len() as int;
        let sec = encode_section(TAG_MIME, label);
        let rest = encode_labels(labels.skip(1));
        let sub = s.subrange(pos, tail);
        assert(enc == sec + rest);
        assert(sec.len() == 5 + n);
        assert(sub[0] == s[pos]);
        assert(sub[0] == TAG_MIME);
        assert forall|k: int| 0 <= k < 4 implies s.subrange(pos + 1, pos + 5)[k]
            == be_u32_bytes(label.len())[k] by {
            assert(s.subrange(pos + 1, pos + 5)[k] == s[pos + 1 + k]);
            assert(sub[1 + k] == s[pos + 1 + k]);
            assert(sub[1 + k] == sec[1 + k]);
        }
        assert(s.subrange(pos + 1, pos + 5) =~= be_u32_bytes(label.len()));
        lemma_be_u32_bytes_value(label.len());
        assert(be_u32_value(s.subrange(pos + 1, pos + 5)) == label.len());
        assert forall|k: int| 0 <= k < n implies s.subrange(pos + 5, pos + 5 + n)[k]
            == label[k] by {
            assert(s.subrange(pos + 5, pos + 5 + n)[k] == s[pos + 5 + k]);
            assert(sub[5 + k] == s[pos + 5 + k]);
            assert(sub[5 + k] == sec[5 + k]);
        }
        assert(s.subrange(pos + 5, pos + 5 + n) =~= label);
        assert(spec_read_block(s, pos + 1) == Ok::<(Seq<u8>, int), DecodeError>(
            (label, pos + 5 + n),
        ));
        assert(spec_read_mime(s, pos + 1) == Ok::<(Seq<char>, int), DecodeError>(
            (decode_utf8(label), pos + 5 + n),
        ));
        assert(spec_decode_sections(s, pos, pending) == spec_decode_sections(
            s,
            pos + 5 + n,
            pending.push(decode_utf8(label)),
        ));
        assert forall|k: int| 0 <= k < tail - (pos + 5 + n) implies s.subrange(
            pos + 5 + n,
            tail,
        )[k] == rest[k] by {
            assert(s.subrange(pos + 5 + n, tail)[k] == s[pos + 5 + n + k]);
            assert(sub[5 + n + k] == s[pos + 5 + n + k]);
            assert(sub[5 + n + k] == rest[k]);
        }
        assert(s.subrange(pos + 5 + n, tail) =~= rest);
        lemma_decode_encoded_labels(s, pos + 5 + n, pending.push(decode_utf8(label)), labels.skip(1), tail);
        assert(pending.push(decode_utf8(label)) + labels.skip(1).map_values(
            |b: Seq<u8>| decode_utf8(b),
        ) =~= pending + labels.map_values(|b: Seq<u8>| decode_utf8(b)));
    }
}

/// Walking a run of encoded items from an empty pending set yields exactly
/// those items, decoded, in front of whatever the rest of the stream
/// yields.
#[verifier::rlimit(60)]
proof fn lemma_decode_encoded_items(s: Seq<u8>, pos: int, items: Seq<WireItem>, tail: int)
    requires
        0 <= pos <= tail <= s.len(),
        s.subrange(pos, tail) == encode_items(items),
        wire_items_encodable(items),
    ensures
        spec_decode_sections(s, pos, Seq::empty()) == prepend_items(
            items.map_values(|it: WireItem| decoded_item(it)),
            spec_decode_sections(s, tail, Seq::empty()),
        ),
    decreases items.len(),
{
    let enc = encode_items(items);
    assert(tail - pos == enc.len());
    if items.len() == 0 {
        assert(pos == tail);
        crate::wire::lemma_prepend_items_empty(spec_decode_sections(s, tail, Seq::empty()));
        assert(items.map_values(|it: WireItem| decoded_item(it))
            =~= Seq::<SourceDataModel>::empty());
    } else {
        let it = items[0];
        let labels_enc = encode_labels(it.mime_type);
        let csec = encode_section(TAG_CONTENT, it.content);
        let rest = encode_items(items.skip(1));
        let sub = s.subrange(pos, tail);
        let clen = it.content.len() as int;
        assert(wire_item_encodable(it));
        assert(enc == (labels_enc + csec) + rest);
        let mid = pos + labels_enc.len();
        let cend = mid + 5 + clen;
        assert(csec.len() == 5 + clen);

        // The labels of the first item occupy `pos .. mid`.
        assert forall|k: int| 0 <= k < labels_enc.len() implies s.subrange(pos, mid)[k]
            == labels_enc[k] by {
            assert(s.subrange(pos, mid)[k] == s[pos + k]);
            assert(sub[k] == s[pos + k]);
            assert(sub[k] == (labels_enc + csec)[k]);
        }
        assert(s.subrange(pos, mid) =~= labels_enc);
        lemma_decode_encoded_labels(s, pos, Seq::empty(), it.mime_type, mid);
        let pending = Seq::<Seq<char>>::empty() + it.mime_type.map_values(
            |b: Seq<u8>| decode_utf8(b),
        );
        assert(pending =~= it.mime_type.map_values(|b: Seq<u8>| decode_utf8(b)));
        assert(pending.len() >= 1);

        // The content section occupies `mid .. cend`.
        assert(sub[mid - pos] == s[mid]);
        assert(sub[mid - pos] == csec[0]);
        assert(s[mid] == TAG_CONTENT);
        assert forall|k: int| 0 <= k < 4 implies s.subrange(mid + 1, mid + 5)[k]
            == be_u32_bytes(it.content.len())[k] by {
            assert(s.subrange(mid + 1, mid + 5)[k] == s[mid + 1 + k]);
            assert(sub[mid - pos + 1 + k] == s[mid + 1 + k]);
            assert(sub[mid - pos + 1 + k] == csec[1 + k]);
        }
        assert(s.subrange(mid + 1, mid + 5) =~= be_u32_bytes(it.content.len()));
        lemma_be_u32_bytes_value(it.content.len());
        assert forall|k: int| 0 <= k < clen implies s.subrange(mid + 5, cend)[k]
            == it.content[k] by {
            assert(s.subrange(mid + 5, cend)[k] == s[mid + 5 + k]);
            assert(sub[mid - pos + 5 + k] == s[mid + 5 + k]);
            assert(sub[mid - pos + 5 + k] == csec[5 + k]);
        }
        assert(s.subrange(mid + 5, cend) =~= it.content);
        assert(spec_read_block(s, mid + 1) == Ok::<(Seq<u8>, int), DecodeError>(
            (it.content, cend),
        ));
        let m = SourceDataModel { mime_type: pending, content: it.content };
        assert(spec_decode_sections(s, mid, pending) == (match spec_decode_sections(
            s,
            cend,
            Seq::empty(),
        ) {
            Ok(r) => Ok::<Seq<SourceDataModel>, DecodeError>(seq![m] + r),
            Err(e) => Err::<Seq<SourceDataModel>, DecodeError>(e),
        }));

        // The remaining items occupy `cend .. tail`.
        assert forall|k: int| 0 <= k < tail - cend implies s.subrange(cend, tail)[k]
            == rest[k] by {
            assert(s.subrange(cend, tail)[k] == s[cend + k]);
            assert(sub[cend - pos + k] == s[cend + k]);
            assert(sub[cend - pos + k] == rest[k]);
        }
        assert(s.subrange(cend, tail) =~= rest);
        lemma_decode_encoded_items(s, cend, items.skip(1), tail);

        // Put the first decoded item in front of the rest.
        let f = |x: WireItem| decoded_item(x);
        assert(m == decoded_item(it)) by {
            assert(pending == it.mime_type.map_values(|b: Seq<u8>| decode_utf8(b)));
        }
        let tail_result = spec_decode_sections(s, tail, Seq::empty());
        match tail_result {
            Ok(r) => {
                assert(seq![m] + (items.skip(1).map_values(f) + r) =~= items.map_values(f)
                    + r) by {
                    assert forall|k: int| 0 <= k < items.len() implies items.map_values(f)[k]
                        == (seq![m] + items.skip(1).map_values(f))[k] by {
                        if k > 0 {
                            assert(items.skip(1)[k - 1] == items[k]);
                        }
                    }
                }
            },
            Err(_) => {},
        }
    }
}

/// Round trip: a stream that the encoding counterpart produces for a run
/// of items — the header, then each item's MIME-type sections followed by
/// its content section — decodes to exactly those items: one data item per
/// content section, carrying the labels declared since the previous
/// content section (or the start) in declaration order, and the payload
/// bytes unchanged, zero-length payloads included.
pub proof fn lemma_decode_bulk_round_trip(items: Seq<WireItem>)
    requires
        wire_items_encodable(items),
    ensures
        spec_decode_bulk(stream_header() + encode_items(items)) == Ok::<
            Seq<SourceDataModel>,
            DecodeError,
        >(items.map_values(|it: WireItem| decoded_item(it))),
{
    let s = stream_header() + encode_items(items);
    lemma_header_opens_stream(s);
    assert(s.subrange(5, s.len() as int) =~= encode_items(items));
    lemma_decode_encoded_items(s, 5, items, s.len() as int);
    assert(spec_decode_sections(s, s.len() as int, Seq::empty()) == Ok::<
        Seq<SourceDataModel>,
        DecodeError,
    >(Seq::empty()));
    let decoded = items.map_values(|it: WireItem| decoded_item(it));
    assert(decoded + Seq::<SourceDataModel>::empty() =~= decoded);
}

/// A stream that ends with MIME-type sections not followed by a content
/// section still decodes successfully, and those trailing labels produce
/// no item.
pub proof fn lemma_trailing_labels_dropped(
    items: Seq<WireItem>,
    labels: Seq<Seq<u8>>,
)
    requires
        wire_items_encodable(items),
        forall|j: int| 0 <= j < labels.len() ==> label_encodable(#[trigger] labels[j]),
    ensures
        spec_decode_bulk(stream_header() + encode_items(items) + encode_labels(labels)) == Ok::<
            Seq<SourceDataModel>,
            DecodeError,
        >(items.map_values(|it: WireItem| decoded_item(it))),
{
    let s = stream_header() + encode_items(items) + encode_labels(labels);
    let mid = 5 + encode_items(items).len() as int;
    lemma_header_opens_stream(s);
    assert(s.subrange(5, mid) =~= encode_items(items));
    lemma_decode_encoded_items(s, 5, items, mid);
    assert(s.subrange(mid, s.len() as int) =~= encode_labels(labels));
    lemma_decode_encoded_labels(s, mid, Seq::empty(), labels, s.len() as int);
    assert(spec_decode_sections(s, s.len() as int, Seq::empty() + labels.map_values(
        |b: Seq<u8>| decode_utf8(b),
    )) == Ok::<Seq<SourceDataModel>, DecodeError>(Seq::empty()));
    let decoded = items.map_values(|it: WireItem| decoded_item(it));
    assert(decoded + Seq::<SourceDataModel>::empty() =~= decoded);
}

/// A content section that arrives when no MIME-type label is pending —
/// right after the previous item's content section, or right after the
/// header — fails the whole decode with `ContentWithoutMimeType`.
pub proof fn lemma_content_needs_mime_type(items: Seq<WireItem>, tail: Seq<u8>)
    requires
        wire_items_encodable(items),
        tail.len() > 0,
        tail[0] == TAG_CONTENT,
    ensures
        spec_decode_bulk(stream_header() + encode_items(items) + tail) == Err::<
            Seq<SourceDataModel>,
            DecodeError,
        >(DecodeError::ContentWithoutMimeType),
{
    let s = stream_header() + encode_items(items) + tail;
    let mid = 5 + encode_items(items).len() as int;
    lemma_header_opens_stream(s);
    assert(s.subrange(5, mid) =~= encode_items(items));
    lemma_decode_encoded_items(s, 5, items, mid);
    assert(s[mid] == TAG_CONTENT);
    assert(spec_decode_sections(s, mid, Seq::empty()) == Err::<
        Seq<SourceDataModel>,
        DecodeError,
    >(DecodeError::ContentWithoutMimeType));
}

/// A stream opened by the five header bytes passes the header checks and
/// is decoded by the section loop from position five.
proof fn lemma_header_opens_stream(s: Seq<u8>)
    requires
        s.len() >= 5,
        s.subrange(0, 5) =~= stream_header(),
    ensures
        magic_ok(s),
        s[4] == PROTOCOL_VERSION,
        spec_decode_bulk(s) == spec_decode_sections(s, 5, Seq::empty()),
{
    assert(s[0] == s.subrange(0, 5)[0]);
    assert(s[1] == s.subrange(0, 5)[1]);
    assert(s[2] == s.subrange(0, 5)[2]);
    assert(s[3] == s.subrange(0, 5)[3]);
    assert(s[4] == s.subrange(0, 5)[4]);
}

} // verus!
