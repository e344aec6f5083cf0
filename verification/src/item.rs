//! The decoded unit: one content payload together with its MIME-type labels.

use vstd::prelude::*;

verus! {

/// One decoded data item: an ordered, non-empty list of MIME-type labels and
/// one binary payload. Duplicated labels are kept; a zero-length payload is
/// valid. Built atomically when a content section has been fully parsed
/// (bulk mode) or at the single terminal step of oneshot decoding, and never
/// mutated afterwards.
#[derive(Debug)]
pub struct SourceDataItem {
    /// The labels, in declaration order; decoders only produce items with at
    /// least one label.
    pub mime_type: Vec<String>,
    /// The payload bytes, handed to the caller unchanged.
    pub content: Vec<u8>,
}

/// The mathematical shape of a data item: the label character sequences in
/// order, and the payload bytes.
pub ghost struct SourceDataModel {
    pub mime_type: Seq<Seq<char>>,
    pub content: Seq<u8>,
}

impl View for SourceDataItem {
    type V = SourceDataModel;

    open spec fn view(&self) -> SourceDataModel {
        SourceDataModel { mime_type: self.mime_type.deep_view(), content: self.content@ }
    }
}

/// A data item is well formed when it carries at least one label.
pub open spec fn item_well_formed(m: SourceDataModel) -> bool {
    m.mime_type.len() >= 1
}

/// The models of a sequence of items, in order.
pub open spec fn items_view(items: Seq<SourceDataItem>) -> Seq<SourceDataModel> {
    items.map_values(|it: SourceDataItem| it@)
}

} // verus!
