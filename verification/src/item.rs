//! The view entities exchanged between the note store and the selector, and
//! the request/response payloads of the HTTP surface.

use vstd::prelude::*;

verus! {

/// The kind of a selector entry. `Command` is reserved for future extension;
/// the store only ever produces `File` items.
#[derive(Clone, Copy, PartialEq, Eq, Structural, Debug)]
pub enum ItemType {
    File,
    Command,
}

/// One entry of the selector's list: a note name and its kind.
#[derive(Debug)]
pub struct Item {
    pub name: String,
    pub item_type: ItemType,
}

impl Item {
    /// A fresh copy of this item.
    pub fn duplicate(&self) -> (r: Item)
        ensures
            r.name@ == self.name@,
            r.item_type == self.item_type,
    {
        Item { name: self.name.clone(), item_type: self.item_type }
    }
}

/// Payload of a successful note listing.
#[derive(Debug)]
pub struct GetFilesResponse {
    pub files: Vec<Item>,
}

/// Payload of a successful note read.
#[derive(Debug)]
pub struct GetFileContentResponse {
    pub content: String,
}

/// Body of a note save request.
#[derive(Debug)]
pub struct SaveFileContentRequest {
    pub content: String,
}

} // verus!
