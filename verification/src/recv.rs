//! The executable decoders, proved against the wire model.
//!
//! All functions work on a byte buffer the caller has already read from its
//! transport; a position argument says where in the buffer reading starts,
//! and readers that consume bytes return the position just past what they
//! consumed.

use vstd::prelude::*;
use vstd::slice::{slice_subrange, slice_to_vec};
use vstd::utf8::{decode_utf8, valid_utf8};

use crate::error::DecodeError;
use crate::item::{item_well_formed, items_view, SourceDataItem, SourceDataModel};
use crate::wire::{
    be_u32_value, magic_ok, prepend_items, spec_decode_bulk, spec_decode_oneshot,
    spec_decode_sections, spec_filter_labels, spec_read_block, spec_read_mime, PROTOCOL_VERSION,
    TAG_CONTENT, TAG_MIME,
};

verus! {

/// Relies on `String::from_utf8`: it returns the string decoded from the
/// given bytes exactly when they are valid UTF-8, and refuses them
/// otherwise.
#[verifier::external_body]
fn string_from_utf8(bytes: Vec<u8>) -> (r: Option<String>)
    ensures
        (match r {
            Some(s) => valid_utf8(bytes@) && s@ == decode_utf8(bytes@),
            None => !valid_utf8(bytes@),
        }),
{
    match String::from_utf8(bytes) {
        Ok(s) => Some(s),
        Err(_) => None,
    }
}

/// Reads exactly `n` bytes at position `pos`, or fails with
/// `TruncatedInput` when fewer are available.
pub fn read_exact_bytes(input: &[u8], pos: usize, n: usize) -> (r: Result<Vec<u8>, DecodeError>)
    requires
        pos <= input@.len(),
    ensures
        (match r {
            Ok(bytes) => pos + n <= input@.len() && bytes@ == input@.subrange(
                pos as int,
                pos + n,
            ),
            Err(e) => e == DecodeError::TruncatedInput && input@.len() - pos < n,
        }),
{
    if n > input.len() - pos {
        return Err(DecodeError::TruncatedInput);
    }
    Ok(slice_to_vec(slice_subrange(input, pos, pos + n)))
}

/// The value of a four-byte big-endian length field.
pub fn be_u32(b: &[u8]) -> (r: u32)
    requires
        b@.len() == 4,
    ensures
        r as nat == be_u32_value(b@),
{
    (b[0] as u32) * 0x1000000 + (b[1] as u32) * 0x10000 + (b[2] as u32) * 0x100 + (b[3] as u32)
}

/// Reads one length-prefixed block at position `pos`: a four-byte
/// big-endian length, then that many payload bytes. Returns the payload and
/// the position just past it; fails with `TruncatedInput` when either part
/// is cut short. No upper bound is put on the length here: a corrupt length
/// field surfaces as `TruncatedInput` unless the buffer really holds that
/// many bytes.
pub fn read_length_prefixed_block(input: &[u8], pos: usize) -> (r: Result<
    (Vec<u8>, usize),
    DecodeError,
>)
    requires
        pos <= input@.len(),
    ensures
        (match r {
            Ok((body, end)) => spec_read_block(input@, pos as int) == Ok::<
                (Seq<u8>, int),
                DecodeError,
            >((body@, end as int)) && pos + 4 <= end <= input@.len(),
            Err(e) => spec_read_block(input@, pos as int) == Err::<(Seq<u8>, int), DecodeError>(e),
        }),
{
    // Binding the length in executable code makes its usize bound available
    // to the overflow checks on the position sums below.
    let _total = input.len();
    let size_bytes = match read_exact_bytes(input, pos, 4) {
        Ok(b) => b,
        Err(e) => {
            return Err(e);
        },
    };
    let size = be_u32(size_bytes.as_slice());
    let body_start = pos + 4;
    let n = size as usize;
    match read_exact_bytes(input, body_start, n) {
        Ok(body) => Ok((body, body_start + n)),
        Err(e) => Err(e),
    }
}

/// Reads one MIME-type section body at position `pos`: a length-prefixed
/// block decoded as UTF-8. Fails with `InvalidEncoding` when the block's
/// bytes are not valid UTF-8.
pub fn read_mime_types(input: &[u8], pos: usize) -> (r: Result<(String, usize), DecodeError>)
    requires
        pos <= input@.len(),
    ensures
        (match r {
            Ok((label, end)) => spec_read_mime(input@, pos as int) == Ok::<
                (Seq<char>, int),
                DecodeError,
            >((label@, end as int)) && pos + 4 <= end <= input@.len(),
            Err(e) => spec_read_mime(input@, pos as int) == Err::<(Seq<char>, int), DecodeError>(e),
        }),
{
    let (body, end) = match read_length_prefixed_block(input, pos) {
        Ok(ok) => ok,
        Err(e) => {
            return Err(e);
        },
    };
    match string_from_utf8(body) {
        Some(label) => Ok((label, end)),
        None => Err(DecodeError::InvalidEncoding),
    }
}

/// Reads one content section body at position `pos`: a length-prefixed
/// block whose bytes are handed back unchanged.
pub fn read_content(input: &[u8], pos: usize) -> (r: Result<(Vec<u8>, usize), DecodeError>)
    requires
        pos <= input@.len(),
    ensures
        (match r {
            Ok((body, end)) => spec_read_block(input@, pos as int) == Ok::<
                (Seq<u8>, int),
                DecodeError,
            >((body@, end as int)) && pos + 4 <= end <= input@.len(),
            Err(e) => spec_read_block(input@, pos as int) == Err::<(Seq<u8>, int), DecodeError>(e),
        }),
{
    read_length_prefixed_block(input, pos)
}

/// Decodes a self-describing bulk stream: checks the magic constant and the
/// version byte, then walks the sections, turning each content section into
/// one data item carrying the MIME-type labels declared since the previous
/// content section (or the start), in declaration order. The stream may end
/// only at a section boundary; labels pending there are dropped without an
/// error. The call either fully succeeds or fails with the first error; no
/// partial list is returned.
pub fn receive_data_bulk(input: &[u8]) -> (r: Result<Vec<SourceDataItem>, DecodeError>)
    ensures
        (match r {
            Ok(items) => spec_decode_bulk(input@) == Ok::<Seq<SourceDataModel>, DecodeError>(
                items_view(items@),
            ) && forall|j: int| 0 <= j < items@.len() ==> item_well_formed(#[trigger] items@[j]@),
            Err(e) => spec_decode_bulk(input@) == Err::<Seq<SourceDataModel>, DecodeError>(e),
        }),
{
    if input.len() < 4 {
        return Err(DecodeError::TruncatedInput);
    }
    if !(input[0] == 0x20 && input[1] == 0x09 && input[2] == 0x02 && input[3] == 0x14) {
        proof {
            assert(!magic_ok(input@));
        }
        return Err(DecodeError::BadMagic);
    }
    if input.len() < 5 {
        return Err(DecodeError::TruncatedInput);
    }
    if input[4] != PROTOCOL_VERSION {
        return Err(DecodeError::UnsupportedVersion);
    }

    let mut pos: usize = 5;
    let mut type_list: Vec<String> = Vec::new();
    let mut ret: Vec<SourceDataItem> = Vec::new();
    proof {
        assert(type_list.deep_view() =~= Seq::<Seq<char>>::empty());
        assert(items_view(ret@) =~= Seq::<SourceDataModel>::empty());
        crate::wire::lemma_prepend_items_empty(spec_decode_sections(input@, 5, Seq::empty()));
    }
    while pos < input.len()
        invariant
            5 <= pos <= input@.len(),
            forall|j: int| 0 <= j < ret@.len() ==> item_well_formed(#[trigger] ret@[j]@),
            spec_decode_bulk(input@) == prepend_items(
                items_view(ret@),
                spec_decode_sections(input@, pos as int, type_list.deep_view()),
            ),
        decreases input@.len() - pos,
    {
        let tag = input[pos];
        if tag == TAG_MIME {
            match read_mime_types(input, pos + 1) {
                Ok((label, end)) => {
                    let ghost old_dv = type_list.deep_view();
                    let ghost label_chars = label@;
                    type_list.push(label);
                    proof {
                        assert(type_list.deep_view() =~= old_dv.push(label_chars));
                    }
                    pos = end;
                },
                Err(e) => {
                    return Err(e);
                },
            }
        } else if tag == TAG_CONTENT {
            if type_list.len() == 0 {
                proof {
                    assert(type_list.deep_view() =~= Seq::<Seq<char>>::empty());
                }
                return Err(DecodeError::ContentWithoutMimeType);
            }
            match read_content(input, pos + 1) {
                Ok((content, end)) => {
                    let ghost pending = type_list.deep_view();
                    let ghost body = content@;
                    let ghost items_before = items_view(ret@);
                    let item = SourceDataItem { mime_type: type_list, content };
                    ret.push(item);
                    type_list = Vec::new();
                    proof {
                        let m = SourceDataModel { mime_type: pending, content: body };
                        assert(items_view(ret@) =~= items_before.push(m));
                        assert(type_list.deep_view() =~= Seq::<Seq<char>>::empty());
                        crate::wire::lemma_prepend_items_shift(
                            items_before,
                            m,
                            spec_decode_sections(input@, end as int, Seq::empty()),
                        );
                    }
                    pos = end;
                },
                Err(e) => {
                    return Err(e);
                },
            }
        } else {
            return Err(DecodeError::UnknownSectionTag(tag));
        }
    }
    proof {
        assert(spec_decode_sections(input@, pos as int, type_list.deep_view()) == Ok::<
            Seq<SourceDataModel>,
            DecodeError,
        >(Seq::empty()));
        assert(items_view(ret@) + Seq::<SourceDataModel>::empty() =~= items_view(ret@));
    }
    Ok(ret)
}

/// Decodes a whole buffer in oneshot mode: the buffer becomes the payload
/// of a single item whose labels are the caller's candidates with empty
/// entries discarded, in their given order. Fails with `NoValidMimeType`
/// when no candidate survives the filter.
pub fn receive_data_oneshot(input: &[u8], mime_types: &[String]) -> (r: Result<
    Vec<SourceDataItem>,
    DecodeError,
>)
    ensures
        (match r {
            Ok(items) => spec_decode_oneshot(input@, mime_types.deep_view()) == Ok::<
                Seq<SourceDataModel>,
                DecodeError,
            >(items_view(items@)) && items@.len() == 1 && forall|j: int|
                0 <= j < items@.len() ==> item_well_formed(#[trigger] items@[j]@),
            Err(e) => spec_decode_oneshot(input@, mime_types.deep_view()) == Err::<
                Seq<SourceDataModel>,
                DecodeError,
            >(e),
        }),
{
    let content = slice_to_vec(input);
    let mut kept: Vec<String> = Vec::new();
    let mut i: usize = 0;
    proof {
        assert(kept.deep_view() =~= spec_filter_labels(mime_types.deep_view().take(0)));
    }
    while i < mime_types.len()
        invariant
            i <= mime_types@.len(),
            kept.deep_view() == spec_filter_labels(mime_types.deep_view().take(i as int)),
        decreases mime_types@.len() - i,
    {
        let ghost dv = mime_types.deep_view();
        let ghost prefix = dv.take(i as int);
        let ghost kept_before = kept.deep_view();
        let label = &mime_types[i];
        if !label.as_str().is_empty() {
            kept.push(label.clone());
            proof {
                assert(kept.deep_view() =~= kept_before.push(dv[i as int]));
            }
        }
        i = i + 1;
        proof {
            reveal(Seq::filter);
            assert(dv.take(i as int).drop_last() =~= prefix);
            assert(dv.take(i as int).last() == dv[i - 1]);
        }
    }
    proof {
        assert(mime_types.deep_view().take(mime_types@.len() as int) =~= mime_types.deep_view());
    }
    if kept.len() == 0 {
        proof {
            assert(spec_filter_labels(mime_types.deep_view()).len() == 0);
        }
        return Err(DecodeError::NoValidMimeType);
    }
    let item = SourceDataItem { mime_type: kept, content };
    let mut items: Vec<SourceDataItem> = Vec::new();
    items.push(item);
    proof {
        assert(items_view(items@) =~= seq![
            SourceDataModel {
                mime_type: spec_filter_labels(mime_types.deep_view()),
                content: input@,
            },
        ]);
    }
    Ok(items)
}

} // verus!
