//! The ratio of one tenant, as it is read from JSON text.

use vstd::prelude::*;

verus! {

/// One entry of a tenant's ratio: an endpoint, and what the JSON value
/// beside it gives when it is asked for a number.
pub struct RatioEntry {
    /// The endpoint's name.
    pub api: String,
    /// The value, where it is an integer from zero to `u64::MAX`.
    pub unsigned: Option<u64>,
    /// Whether the value is a floating-point number: one written with a
    /// fraction or an exponent, or an integer too large for 64 bits.
    pub float: bool,
    /// The bits of the value as a double-precision number, where it is a
    /// number of any kind.
    pub float_bits: Option<u64>,
}

/// What a ratio entry holds, with the name as a sequence of characters.
pub struct RatioEntryView {
    pub api: Seq<char>,
    pub unsigned: Option<u64>,
    pub float: bool,
    pub float_bits: Option<u64>,
}

impl View for RatioEntry {
    type V = RatioEntryView;

    open spec fn view(&self) -> RatioEntryView {
        RatioEntryView {
            api: self.api@,
            unsigned: self.unsigned,
            float: self.float,
            float_bits: self.float_bits,
        }
    }
}

/// The views of the entries of a vector, in its order.
pub open spec fn entry_views(entries: Seq<RatioEntry>) -> Seq<RatioEntryView> {
    Seq::new(entries.len(), |i: int| entries[i]@)
}

/// A ratio text after parsing.
pub enum RatioDocument {
    /// The text is not JSON.
    Malformed,
    /// The text is JSON and not an object.
    NotObject,
    /// The text is a JSON object with these entries.
    Object(Vec<RatioEntry>),
}

/// What a parsed ratio text holds.
pub enum RatioDocumentView {
    Malformed,
    NotObject,
    Object(Seq<RatioEntryView>),
}

impl View for RatioDocument {
    type V = RatioDocumentView;

    open spec fn view(&self) -> RatioDocumentView {
        match self {
            RatioDocument::Malformed => RatioDocumentView::Malformed,
            RatioDocument::NotObject => RatioDocumentView::NotObject,
            RatioDocument::Object(entries) => RatioDocumentView::Object(entry_views(entries@)),
        }
    }
}

/// The document that the JSON parser reads from a text.
pub uninterp spec fn ratio_document(text: Seq<char>) -> RatioDocumentView;

/// Parses a ratio text with `serde_json::from_str` into a
/// `serde_json::Value`. Of an object it hands out each entry in the order
/// of `Map::iter`, with the results of `Value::as_u64`, `Value::is_f64` and
/// `Value::as_f64` on the entry's value.
///
/// Not proved, but taken from the parser: that the same text gives the same
/// document. Nothing else is claimed of what a text parses to.
#[verifier::external_body]
pub(crate) fn parse_ratio(text: &str) -> (document: RatioDocument)
    ensures
        document@ == ratio_document(text@),
{
    match serde_json::from_str::<serde_json::Value>(text) {
        Ok(serde_json::Value::Object(object)) => RatioDocument::Object(
            object.iter().map(|(api, value)| RatioEntry {
                api: api.clone(),
                unsigned: value.as_u64(),
                float: value.is_f64(),
                float_bits: value.as_f64().map(|number| number.to_bits()),
            }).collect(),
        ),
        Ok(_) => RatioDocument::NotObject,
        Err(_) => RatioDocument::Malformed,
    }
}

} // verus!
