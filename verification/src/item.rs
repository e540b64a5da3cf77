//! The canonical content entity and the request shapes that mutate it.
//! Timestamps are naive stamps; all inspected text is bytes, while source
//! URLs are carried through as opaque strings.

use vstd::prelude::*;
use crate::time::NaiveStamp;

verus! {

/// Mathematical value of an `Item`.
pub struct ItemV {
    pub id: int,
    pub title: Seq<u8>,
    pub content: Option<Seq<u8>>,
    pub item_type: Seq<u8>,
    pub tags: Option<Seq<u8>>,
    pub source_type: Option<Seq<u8>>,
    pub source_url: Option<Seq<char>>,
    pub created_at: NaiveStamp,
    pub updated_at: NaiveStamp,
}

/// A canonical persisted content record: note, bookmark, or file entry.
#[derive(Debug)]
pub struct Item {
    pub id: i32,
    pub title: Vec<u8>,
    pub content: Option<Vec<u8>>,
    pub item_type: Vec<u8>,
    pub tags: Option<Vec<u8>>,
    pub source_type: Option<Vec<u8>>,
    pub source_url: Option<String>,
    pub created_at: NaiveStamp,
    pub updated_at: NaiveStamp,
}

impl View for Item {
    type V = ItemV;

    open spec fn view(&self) -> ItemV {
        ItemV {
            id: self.id as int,
            title: self.title@,
            content: match self.content {
                Some(c) => Some(c@),
                None => None,
            },
            item_type: self.item_type@,
            tags: match self.tags {
                Some(t) => Some(t@),
                None => None,
            },
            source_type: match self.source_type {
                Some(t) => Some(t@),
                None => None,
            },
            source_url: match self.source_url {
                Some(u) => Some(u@),
                None => None,
            },
            created_at: self.created_at,
            updated_at: self.updated_at,
        }
    }
}

impl Item {
    /// Both timestamps name real seconds and the record was never
    /// mutated before it was created.
    pub open spec fn wf(self) -> bool {
        self.created_at.wf() && self.updated_at.wf() && self.created_at.spec_epoch_seconds()
            <= self.updated_at.spec_epoch_seconds()
    }
}

/// Fields of a new item, as the caller supplies them; the store assigns
/// the identifier and the timestamps.
#[derive(Debug)]
pub struct CreateItemRequest {
    pub title: Vec<u8>,
    pub content: Option<Vec<u8>>,
    pub item_type: Vec<u8>,
    pub tags: Option<Vec<u8>>,
    pub source_type: Option<Vec<u8>>,
    pub source_url: Option<String>,
}

/// Replacement fields for an existing item; the creation timestamp is
/// preserved and the update timestamp refreshed by the store.
#[derive(Debug)]
pub struct UpdateItemRequest {
    pub id: i32,
    pub title: Vec<u8>,
    pub content: Option<Vec<u8>>,
    pub item_type: Vec<u8>,
    pub tags: Option<Vec<u8>>,
    pub source_type: Option<Vec<u8>>,
    pub source_url: Option<String>,
}

/// Copy of a byte string.
pub fn clone_bytes(v: &Vec<u8>) -> (r: Vec<u8>)
    ensures
        r@ == v@,
{
    let mut r: Vec<u8> = Vec::new();
    let mut i: usize = 0;
    while i < v.len()
        invariant
            i <= v.len(),
            r@ == v@.subrange(0, i as int),
        decreases v.len() - i,
    {
        r.push(v[i]);
        proof {
            assert(v@.subrange(0, i as int).push(v@[i as int]) =~= v@.subrange(0, i + 1));
        }
        i += 1;
    }
    proof {
        assert(v@.subrange(0, v@.len() as int) =~= v@);
    }
    r
}

/// Copy of an optional byte string.
pub fn clone_opt_bytes(v: &Option<Vec<u8>>) -> (r: Option<Vec<u8>>)
    ensures
        match v {
            Some(b) => r matches Some(rb) && rb@ == b@,
            None => r is None,
        },
{
    match v {
        Some(b) => Some(clone_bytes(b)),
        None => None,
    }
}

/// Copy of an optional string.
pub fn clone_opt_string(v: &Option<String>) -> (r: Option<String>)
    ensures
        match v {
            Some(s) => r matches Some(rs) && rs@ == s@,
            None => r is None,
        },
{
    match v {
        Some(s) => Some(s.clone()),
        None => None,
    }
}

impl Item {
    /// Field-for-field copy of this item.
    pub fn duplicate(&self) -> (r: Item)
        ensures
            r@ == self@,
    {
        let r = Item {
            id: self.id,
            title: clone_bytes(&self.title),
            content: clone_opt_bytes(&self.content),
            item_type: clone_bytes(&self.item_type),
            tags: clone_opt_bytes(&self.tags),
            source_type: clone_opt_bytes(&self.source_type),
            source_url: clone_opt_string(&self.source_url),
            created_at: self.created_at,
            updated_at: self.updated_at,
        };
        r
    }
}

} // verus!
