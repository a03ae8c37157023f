//! BSON documents, as the document store takes them.
//!
//! The documents themselves are built by the `bson` crate. What the crate is
//! taken to do is stated here, over a plain model of a document's entries;
//! nothing in this file is proved.

use vstd::prelude::*;

verus! {

#[verifier::external_type_specification]
#[verifier::external_body]
pub struct ExDocument(bson::Document);

/// What one entry of a document holds.
pub enum FieldModel {
    /// A string.
    Text(Seq<char>),
    /// A 32-bit integer.
    Int32(int),
    /// An embedded document, by its entries.
    Nested(Seq<(Seq<char>, FieldModel)>),
}

/// The entries of a document, in the order in which it keeps them.
pub uninterp spec fn document_entries(d: bson::Document) -> Seq<(Seq<char>, FieldModel)>;

/// A value on its way into a document.
pub enum Field {
    /// A string.
    Text(String),
    /// A 32-bit integer.
    Int32(i32),
    /// An embedded document.
    Nested(bson::Document),
}

impl Field {
    /// The entry value that this field becomes.
    pub open spec fn model(self) -> FieldModel {
        match self {
            Field::Text(s) => FieldModel::Text(s@),
            Field::Int32(i) => FieldModel::Int32(i as int),
            Field::Nested(d) => FieldModel::Nested(document_entries(d)),
        }
    }
}

/// Whether some entry of `entries` has the key `key`.
pub open spec fn has_key(entries: Seq<(Seq<char>, FieldModel)>, key: Seq<char>) -> bool {
    exists|i: int| 0 <= i < entries.len() && (#[trigger] entries[i]).0 == key
}

/// `bson::Document::new`: the document that it returns has no entries.
#[verifier::external_body]
pub(crate) fn empty_document() -> (d: bson::Document)
    ensures
        document_entries(d) == Seq::<(Seq<char>, FieldModel)>::empty(),
{
    bson::Document::new()
}

/// `bson::Document::insert`, for a key that the document does not hold yet:
/// the new entry goes behind all the others, which stay as they are. (For a
/// key that it holds the crate replaces the value in place; nothing is
/// claimed of that case.)
#[verifier::external_body]
pub(crate) fn insert_field(d: &mut bson::Document, key: &str, value: Field)
    ensures
        !has_key(document_entries(*old(d)), key@) ==> document_entries(*final(d))
            == document_entries(*old(d)).push((key@, value.model())),
{
    match value {
        Field::Text(s) => d.insert(key, s),
        Field::Int32(i) => d.insert(key, i),
        Field::Nested(n) => d.insert(key, n),
    };
}

} // verus!
