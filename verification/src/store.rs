//! The relational side of the dual write: an entity store over items with
//! auto-incrementing identifiers, kept ordered by update time (newest
//! first), and the syncing store that pairs every successful mutation
//! with the search-index write derived from it.

use vstd::prelude::*;
use crate::item::{Item, ItemV, CreateItemRequest, UpdateItemRequest};
use crate::search::{SearchDocument, DocV, TypesenseError, spec_doc_of};
use crate::bookmarks::BookmarkMetadata;
use crate::time::{NaiveStamp, timestamp};

verus! {

/// First item with the given identifier, scanning front to back.
pub open spec fn spec_find(s: Seq<Item>, id: int) -> Option<Item>
    decreases s.len(),
{
    if s.len() == 0 {
        None
    } else if s[0].id == id {
        Some(s[0])
    } else {
        spec_find(s.drop_first(), id)
    }
}

/// `spec_find` at the level of item values.
pub open spec fn find_view(s: Seq<Item>, id: int) -> Option<ItemV> {
    match spec_find(s, id) {
        Some(it) => Some(it@),
        None => None,
    }
}

/// A scan that meets the given identifier first at `k` finds `s[k]`.
pub proof fn lemma_spec_find_present(s: Seq<Item>, k: int, id: int)
    requires
        0 <= k < s.len(),
        s[k].id == id,
        forall|j: int| 0 <= j < k ==> s[j].id != id,
    ensures
        spec_find(s, id) == Some(s[k]),
    decreases s.len(),
{
    if k > 0 {
        lemma_spec_find_present(s.drop_first(), k - 1, id);
    }
}

/// A scan over items that all carry other identifiers finds nothing.
pub proof fn lemma_spec_find_absent(s: Seq<Item>, id: int)
    requires
        forall|j: int| 0 <= j < s.len() ==> s[j].id != id,
    ensures
        spec_find(s, id) is None,
    decreases s.len(),
{
    if s.len() > 0 {
        lemma_spec_find_absent(s.drop_first(), id);
    }
}

/// Inserting an item with a different identifier leaves a scan for `id`
/// unchanged.
pub proof fn lemma_spec_find_insert(s: Seq<Item>, k: int, v: Item, id: int)
    requires
        0 <= k <= s.len(),
        v.id != id,
    ensures
        spec_find(s.insert(k, v), id) == spec_find(s, id),
    decreases s.len(),
{
    let t = s.insert(k, v);
    if k == 0 {
        assert(t.drop_first() =~= s);
    } else {
        assert(t[0] == s[0]);
        assert(t.drop_first() =~= s.drop_first().insert(k - 1, v));
        if s[0].id != id {
            lemma_spec_find_insert(s.drop_first(), k - 1, v, id);
        }
    }
}

/// Removing an item with a different identifier leaves a scan for `id`
/// unchanged.
pub proof fn lemma_spec_find_remove(s: Seq<Item>, k: int, id: int)
    requires
        0 <= k < s.len(),
        s[k].id != id,
    ensures
        spec_find(s.remove(k), id) == spec_find(s, id),
    decreases s.len(),
{
    let t = s.remove(k);
    if k == 0 {
        assert(t =~= s.drop_first());
    } else {
        assert(t[0] == s[0]);
        assert(t.drop_first() =~= s.drop_first().remove(k - 1));
        if s[0].id != id {
            lemma_spec_find_remove(s.drop_first(), k - 1, id);
        }
    }
}

/// Items ordered by update time, newest first.
pub open spec fn sorted_desc(s: Seq<Item>) -> bool {
    forall|i: int, j: int| 0 <= i < j < s.len() ==> (#[trigger] s[i]).updated_at.spec_epoch_seconds()
        >= (#[trigger] s[j]).updated_at.spec_epoch_seconds()
}

/// The canonical item store: rows with unique identifiers assigned from
/// an auto-incrementing counter, every row well formed, retrieval ordered
/// by update time, newest first.
#[derive(Debug)]
pub struct ItemStore {
    pub items: Vec<Item>,
    pub next_id: i32,
}

impl ItemStore {
    /// Store invariant: identifiers are positive, unique, and below the
    /// counter; rows are well formed; rows sit newest-update first.
    pub open spec fn wf(self) -> bool {
        &&& 1 <= self.next_id
        &&& forall|i: int| 0 <= i < self.items@.len() ==> (#[trigger] self.items@[i]).wf() && 1
            <= self.items@[i].id < self.next_id
        &&& forall|i: int, j: int| 0 <= i < j < self.items@.len() ==> (#[trigger] self.items@[i]).id
            != (#[trigger] self.items@[j]).id
        &&& sorted_desc(self.items@)
    }

    /// An empty store; the first row will get identifier 1.
    pub fn new() -> (s: Self)
        ensures
            s.wf(),
            s.items@.len() == 0,
            s.next_id == 1,
    {
        ItemStore { items: Vec::new(), next_id: 1 }
    }

    /// The position a row with the given update time takes to keep the
    /// store ordered: after every row updated no earlier.
    fn slot_for(items: &Vec<Item>, updated: NaiveStamp) -> (k: usize)
        requires
            sorted_desc(items@),
            updated.wf(),
            forall|i: int| 0 <= i < items@.len() ==> (#[trigger] items@[i]).wf(),
        ensures
            k <= items@.len(),
            forall|j: int| 0 <= j < k ==> (#[trigger] items@[j]).updated_at.spec_epoch_seconds()
                >= updated.spec_epoch_seconds(),
            forall|j: int| k <= j < items@.len() ==> (
            #[trigger] items@[j]).updated_at.spec_epoch_seconds() < updated.spec_epoch_seconds()
                || j > k,
            k < items@.len() ==> items@[k as int].updated_at.spec_epoch_seconds()
                < updated.spec_epoch_seconds(),
    {
        let target = timestamp(updated);
        let mut k: usize = 0;
        while k < items.len() && timestamp(items[k].updated_at) >= target
            invariant
                k <= items@.len(),
                target == updated.spec_epoch_seconds(),
                sorted_desc(items@),
                updated.wf(),
                forall|i: int| 0 <= i < items@.len() ==> (#[trigger] items@[i]).wf(),
                forall|j: int| 0 <= j < k ==> (
                #[trigger] items@[j]).updated_at.spec_epoch_seconds()
                    >= updated.spec_epoch_seconds(),
            decreases items@.len() - k,
        {
            k += 1;
        }
        k
    }

    /// Inserts a new row built from the request: the store assigns the
    /// next identifier and stamps both timestamps with `now`. The fresh
    /// row is returned and retrievable by its identifier; every other
    /// row's retrieval is untouched.
    pub fn insert(&mut self, req: CreateItemRequest, now: NaiveStamp) -> (r: Item)
        requires
            old(self).wf(),
            now.wf(),
            old(self).next_id < i32::MAX,
        ensures
            final(self).wf(),
            final(self).next_id == old(self).next_id + 1,
            final(self).items@.len() == old(self).items@.len() + 1,
            r.wf(),
            r@ == (ItemV {
                id: old(self).next_id as int,
                title: req.title@,
                content: match req.content {
                    Some(c) => Some(c@),
                    None => None,
                },
                item_type: req.item_type@,
                tags: match req.tags {
                    Some(t) => Some(t@),
                    None => None,
                },
                source_type: match req.source_type {
                    Some(t) => Some(t@),
                    None => None,
                },
                source_url: match req.source_url {
                    Some(u) => Some(u@),
                    None => None,
                },
                created_at: now,
                updated_at: now,
            }),
            find_view(final(self).items@, r.id as int) == Some(r@),
            forall|id2: int| id2 != r.id as int ==> find_view(final(self).items@, id2)
                == find_view(old(self).items@, id2),
    {
        let item = Item {
            id: self.next_id,
            title: req.title,
            content: req.content,
            item_type: req.item_type,
            tags: req.tags,
            source_type: req.source_type,
            source_url: req.source_url,
            created_at: now,
            updated_at: now,
        };
        let returned = item.duplicate();
        let k = Self::slot_for(&self.items, now);
        let ghost olds = self.items@;
        self.items.insert(k, item);
        self.next_id = self.next_id + 1;
        proof {
            let news = self.items@;
            assert forall|i: int| 0 <= i < news.len() implies (#[trigger] news[i]).wf() && 1
                <= news[i].id < self.next_id by {
                if i < k {
                    assert(news[i] == olds[i]);
                } else if i == k {
                } else {
                    assert(news[i] == olds[i - 1]);
                }
            }
            assert forall|i: int, j: int| 0 <= i < j < news.len() implies (
            #[trigger] news[i]).id != (#[trigger] news[j]).id by {
                if i != k && j != k {
                    let i0 = if i < k {
                        i
                    } else {
                        i - 1
                    };
                    let j0 = if j < k {
                        j
                    } else {
                        j - 1
                    };
                    assert(news[i] == olds[i0] && news[j] == olds[j0]);
                }
            }
            assert forall|i: int, j: int| 0 <= i < j < news.len() implies (
            #[trigger] news[i]).updated_at.spec_epoch_seconds() >= (
            #[trigger] news[j]).updated_at.spec_epoch_seconds() by {
                if i != k && j != k {
                    let i0 = if i < k {
                        i
                    } else {
                        i - 1
                    };
                    let j0 = if j < k {
                        j
                    } else {
                        j - 1
                    };
                    assert(news[i] == olds[i0] && news[j] == olds[j0]);
                }
            }
            assert forall|j: int| 0 <= j < olds.len() implies (#[trigger] olds[j]).id
                != item.id by {}
            lemma_spec_find_insert_new_item(olds, k as int, item);
            assert forall|id2: int| id2 != item.id as int implies find_view(news, id2)
                == find_view(olds, id2) by {
                lemma_spec_find_insert(olds, k as int, item, id2);
            }
        }
        returned
    }

    /// Index of the first row carrying the given identifier.
    fn item_position(items: &Vec<Item>, id: i32) -> (r: Option<usize>)
        ensures
            match r {
                Some(k) => k < items@.len() && items@[k as int].id == id && forall|j: int|
                    0 <= j < k ==> (#[trigger] items@[j]).id != id,
                None => forall|j: int| 0 <= j < items@.len() ==> (#[trigger] items@[j]).id != id,
            },
    {
        let mut i: usize = 0;
        while i < items.len()
            invariant
                i <= items@.len(),
                forall|j: int| 0 <= j < i ==> (#[trigger] items@[j]).id != id,
            decreases items@.len() - i,
        {
            if items[i].id == id {
                return Some(i);
            }
            i += 1;
        }
        None
    }

    /// The row with the given identifier, if any.
    pub fn find_by_id(&self, id: i32) -> (r: Option<&Item>)
        ensures
            match r {
                Some(it) => spec_find(self.items@, id as int) == Some(*it),
                None => spec_find(self.items@, id as int) is None,
            },
    {
        let mut i: usize = 0;
        while i < self.items.len()
            invariant
                i <= self.items@.len(),
                forall|j: int| 0 <= j < i ==> (#[trigger] self.items@[j]).id != id,
            decreases self.items@.len() - i,
        {
            if self.items[i].id == id {
                proof {
                    lemma_spec_find_present(self.items@, i as int, id as int);
                }
                return Some(&self.items[i]);
            }
            i += 1;
        }
        proof {
            lemma_spec_find_absent(self.items@, id as int);
        }
        None
    }

    /// All rows, ordered by update time, newest first (the order the
    /// store maintains as its invariant).
    pub fn find_all(&self) -> (r: &Vec<Item>)
        requires
            self.wf(),
        ensures
            r@ == self.items@,
            sorted_desc(r@),
    {
        &self.items
    }

    /// Removes the row with the given identifier if one exists; removal
    /// of an absent identifier is a success that changes nothing. Either
    /// way the identifier is unretrievable afterwards and every other
    /// row is untouched.
    pub fn delete(&mut self, id: i32)
        requires
            old(self).wf(),
        ensures
            final(self).wf(),
            final(self).next_id == old(self).next_id,
            find_view(final(self).items@, id as int) is None,
            forall|id2: int| id2 != id as int ==> find_view(final(self).items@, id2)
                == find_view(old(self).items@, id2),
    {
        match Self::item_position(&self.items, id) {
            Some(i) => {
                let ghost olds = self.items@;
                self.items.remove(i);
                proof {
                    let news = self.items@;
                    assert forall|x: int| 0 <= x < news.len() implies (#[trigger] news[x]).id
                        != id as int by {
                        if x < i {
                            assert(news[x] == olds[x]);
                        } else {
                            assert(news[x] == olds[x + 1]);
                        }
                    }
                    lemma_spec_find_absent(news, id as int);
                    assert forall|id2: int| id2 != id as int implies find_view(news, id2)
                        == find_view(olds, id2) by {
                        lemma_spec_find_remove(olds, i as int, id2);
                    }
                    assert forall|x: int| 0 <= x < news.len() implies (#[trigger] news[x]).wf()
                        && 1 <= news[x].id < self.next_id by {
                        if x < i {
                            assert(news[x] == olds[x]);
                        } else {
                            assert(news[x] == olds[x + 1]);
                        }
                    }
                    assert forall|x: int, y: int| 0 <= x < y < news.len() implies (
                    #[trigger] news[x]).id != (#[trigger] news[y]).id by {
                        let x0 = if x < i {
                            x
                        } else {
                            x + 1
                        };
                        let y0 = if y < i {
                            y
                        } else {
                            y + 1
                        };
                        assert(news[x] == olds[x0] && news[y] == olds[y0]);
                    }
                    assert forall|x: int, y: int| 0 <= x < y < news.len() implies (
                    #[trigger] news[x]).updated_at.spec_epoch_seconds() >= (
                    #[trigger] news[y]).updated_at.spec_epoch_seconds() by {
                        let x0 = if x < i {
                            x
                        } else {
                            x + 1
                        };
                        let y0 = if y < i {
                            y
                        } else {
                            y + 1
                        };
                        assert(news[x] == olds[x0] && news[y] == olds[y0]);
                    }
                }
            },
            None => {
                proof {
                    lemma_spec_find_absent(self.items@, id as int);
                }
            },
        }
    }

    /// Replaces the row with the request's identifier: its fields are
    /// taken from the request, its creation timestamp is preserved, and
    /// its update timestamp refreshed to `now` (never moving before the
    /// creation time). Fails with `ItemNotFound`, changing nothing, when
    /// no such row exists.
    #[verifier::rlimit(100)]
    pub fn update(&mut self, req: UpdateItemRequest, now: NaiveStamp) -> (r: Result<
        Item,
        StoreError,
    >)
        requires
            old(self).wf(),
            now.wf(),
        ensures
            final(self).wf(),
            final(self).next_id == old(self).next_id,
            match r {
                Ok(item) => {
                    &&& item.wf()
                    &&& spec_find(old(self).items@, req.id as int) matches Some(prev) && {
                        &&& item@ == (ItemV {
                            id: req.id as int,
                            title: req.title@,
                            content: match req.content {
                                Some(c) => Some(c@),
                                None => None,
                            },
                            item_type: req.item_type@,
                            tags: match req.tags {
                                Some(t) => Some(t@),
                                None => None,
                            },
                            source_type: match req.source_type {
                                Some(t) => Some(t@),
                                None => None,
                            },
                            source_url: match req.source_url {
                                Some(u) => Some(u@),
                                None => None,
                            },
                            created_at: prev.created_at,
                            updated_at: item.updated_at,
                        })
                        &&& item.updated_at.spec_epoch_seconds() == (if now.spec_epoch_seconds()
                            >= prev.created_at.spec_epoch_seconds() {
                            now.spec_epoch_seconds()
                        } else {
                            prev.created_at.spec_epoch_seconds()
                        })
                    }
                    &&& find_view(final(self).items@, req.id as int) == Some(item@)
                    &&& forall|id2: int| id2 != req.id as int ==> find_view(
                        final(self).items@,
                        id2,
                    ) == find_view(old(self).items@, id2)
                },
                Err(e) => e == StoreError::ItemNotFound && spec_find(
                    old(self).items@,
                    req.id as int,
                ) is None && final(self).items@ == old(self).items@,
            },
    {
        let i = match Self::item_position(&self.items, req.id) {
            Some(i) => i,
            None => {
                proof {
                    lemma_spec_find_absent(self.items@, req.id as int);
                }
                return Err(StoreError::ItemNotFound);
            },
        };
        let ghost olds = self.items@;
        proof {
            lemma_spec_find_present(olds, i as int, req.id as int);
            assert(olds[i as int].wf());
        }
        let created_at = self.items[i].created_at;
        let updated_at = if timestamp(now) >= timestamp(created_at) {
            now
        } else {
            created_at
        };
        let item = Item {
            id: req.id,
            title: req.title,
            content: req.content,
            item_type: req.item_type,
            tags: req.tags,
            source_type: req.source_type,
            source_url: req.source_url,
            created_at,
            updated_at,
        };
        let returned = item.duplicate();
        self.items.remove(i);
        let ghost mids = self.items@;
        proof {
            assert forall|x: int| 0 <= x < mids.len() implies (#[trigger] mids[x]).id
                != req.id as int by {
                if x < i {
                    assert(mids[x] == olds[x]);
                } else {
                    assert(mids[x] == olds[x + 1]);
                }
            }
            assert forall|x: int| 0 <= x < mids.len() implies (#[trigger] mids[x]).wf() && 1
                <= mids[x].id < self.next_id by {
                if x < i {
                    assert(mids[x] == olds[x]);
                } else {
                    assert(mids[x] == olds[x + 1]);
                }
            }
            assert forall|x: int, y: int| 0 <= x < y < mids.len() implies (
            #[trigger] mids[x]).id != (#[trigger] mids[y]).id by {
                let x0 = if x < i {
                    x
                } else {
                    x + 1
                };
                let y0 = if y < i {
                    y
                } else {
                    y + 1
                };
                assert(mids[x] == olds[x0] && mids[y] == olds[y0]);
            }
            assert forall|x: int, y: int| 0 <= x < y < mids.len() implies (
            #[trigger] mids[x]).updated_at.spec_epoch_seconds() >= (
            #[trigger] mids[y]).updated_at.spec_epoch_seconds() by {
                let x0 = if x < i {
                    x
                } else {
                    x + 1
                };
                let y0 = if y < i {
                    y
                } else {
                    y + 1
                };
                assert(mids[x] == olds[x0] && mids[y] == olds[y0]);
            }
        }
        let k = Self::slot_for(&self.items, updated_at);
        self.items.insert(k, item);
        proof {
            let news = self.items@;
            assert forall|x: int| 0 <= x < news.len() implies (#[trigger] news[x]).wf() && 1
                <= news[x].id < self.next_id by {
                if x < k {
                    assert(news[x] == mids[x]);
                } else if x == k {
                } else {
                    assert(news[x] == mids[x - 1]);
                }
            }
            assert forall|x: int, y: int| 0 <= x < y < news.len() implies (
            #[trigger] news[x]).id != (#[trigger] news[y]).id by {
                if x != k && y != k {
                    let x0 = if x < k {
                        x
                    } else {
                        x - 1
                    };
                    let y0 = if y < k {
                        y
                    } else {
                        y - 1
                    };
                    assert(news[x] == mids[x0] && news[y] == mids[y0]);
                }
            }
            assert forall|x: int, y: int| 0 <= x < y < news.len() implies (
            #[trigger] news[x]).updated_at.spec_epoch_seconds() >= (
            #[trigger] news[y]).updated_at.spec_epoch_seconds() by {
                if x != k && y != k {
                    let x0 = if x < k {
                        x
                    } else {
                        x - 1
                    };
                    let y0 = if y < k {
                        y
                    } else {
                        y - 1
                    };
                    assert(news[x] == mids[x0] && news[y] == mids[y0]);
                }
            }
            lemma_spec_find_insert_new_item(mids, k as int, item);
            assert forall|id2: int| id2 != req.id as int implies find_view(news, id2)
                == find_view(olds, id2) by {
                lemma_spec_find_insert(mids, k as int, item, id2);
                lemma_spec_find_remove(olds, i as int, id2);
            }
        }
        Ok(returned)
    }
}

/// Inserting an item whose identifier no existing row carries makes it
/// the one the scan finds.
pub proof fn lemma_spec_find_insert_new_item(s: Seq<Item>, k: int, v: Item)
    requires
        0 <= k <= s.len(),
        forall|j: int| 0 <= j < s.len() ==> (#[trigger] s[j]).id != v.id,
    ensures
        spec_find(s.insert(k, v), v.id as int) == Some(v),
    decreases s.len(),
{
    let t = s.insert(k, v);
    if k == 0 {
        assert(t[0] == v);
    } else {
        assert(t[0] == s[0]);
        assert(t.drop_first() =~= s.drop_first().insert(k - 1, v));
        lemma_spec_find_insert_new_item(s.drop_first(), k - 1, v);
    }
}

/// A mutation's failure at the store: the identifier named no row.
#[derive(PartialEq, Eq, Structural, Clone, Copy, Debug)]
pub enum StoreError {
    ItemNotFound,
}

/// One acknowledged document in the search index, keyed by item
/// identifier.
#[derive(Debug)]
pub struct IndexEntry {
    pub id: i32,
    pub doc: SearchDocument,
}

/// First document acknowledged under the given identifier.
pub open spec fn find_doc(s: Seq<IndexEntry>, id: int) -> Option<DocV>
    decreases s.len(),
{
    if s.len() == 0 {
        None
    } else if s[0].id == id {
        Some(s[0].doc@)
    } else {
        find_doc(s.drop_first(), id)
    }
}

/// A scan over entries that all carry other identifiers finds nothing.
pub proof fn lemma_find_doc_absent(s: Seq<IndexEntry>, id: int)
    requires
        forall|j: int| 0 <= j < s.len() ==> (#[trigger] s[j]).id != id,
    ensures
        find_doc(s, id) is None,
    decreases s.len(),
{
    if s.len() > 0 {
        lemma_find_doc_absent(s.drop_first(), id);
    }
}

/// Appending an entry under a different identifier leaves a scan for
/// `id` unchanged.
pub proof fn lemma_find_doc_push(s: Seq<IndexEntry>, e: IndexEntry, id: int)
    requires
        e.id != id,
    ensures
        find_doc(s.push(e), id) == find_doc(s, id),
    decreases s.len(),
{
    if s.len() == 0 {
        assert(s.push(e)[0] == e);
        assert(s.push(e).drop_first() =~= s);
    } else {
        assert(s.push(e)[0] == s[0]);
        assert(s.push(e).drop_first() =~= s.drop_first().push(e));
        lemma_find_doc_push(s.drop_first(), e, id);
    }
}

/// Appending an entry whose identifier no existing entry carries makes
/// its document the one the scan finds.
pub proof fn lemma_find_doc_push_new(s: Seq<IndexEntry>, e: IndexEntry)
    requires
        forall|j: int| 0 <= j < s.len() ==> (#[trigger] s[j]).id != e.id,
    ensures
        find_doc(s.push(e), e.id as int) == Some(e.doc@),
    decreases s.len(),
{
    if s.len() == 0 {
        assert(s.push(e)[0] == e);
    } else {
        assert(s.push(e)[0] == s[0]);
        assert(s.push(e).drop_first() =~= s.drop_first().push(e));
        lemma_find_doc_push_new(s.drop_first(), e);
    }
}

/// Removing an entry under a different identifier leaves a scan for
/// `id` unchanged.
pub proof fn lemma_find_doc_remove(s: Seq<IndexEntry>, k: int, id: int)
    requires
        0 <= k < s.len(),
        s[k].id != id,
    ensures
        find_doc(s.remove(k), id) == find_doc(s, id),
    decreases s.len(),
{
    let t = s.remove(k);
    if k == 0 {
        assert(t =~= s.drop_first());
    } else {
        assert(t[0] == s[0]);
        assert(t.drop_first() =~= s.drop_first().remove(k - 1));
        if s[0].id != id {
            lemma_find_doc_remove(s.drop_first(), k - 1, id);
        }
    }
}

/// The library's record of the search index: whether the collection is
/// known to exist, and the documents whose writes the engine has
/// acknowledged. Rebuildable, derived state — never authoritative.
#[derive(Debug)]
pub struct IndexState {
    pub collection_ready: bool,
    pub entries: Vec<IndexEntry>,
}

impl IndexState {
    /// At most one acknowledged document per identifier.
    pub open spec fn wf(self) -> bool {
        forall|i: int, j: int| 0 <= i < j < self.entries@.len() ==> (
        #[trigger] self.entries@[i]).id != (#[trigger] self.entries@[j]).id
    }

    /// An index nothing has been written to.
    pub fn new() -> (s: Self)
        ensures
            s.wf(),
            !s.collection_ready,
            s.entries@.len() == 0,
    {
        IndexState { collection_ready: false, entries: Vec::new() }
    }

    /// Marks the collection present (created, found present, or lost a
    /// creation race — all equivalent outcomes of `ensure_collection`).
    pub fn mark_collection_ready(&mut self)
        requires
            old(self).wf(),
        ensures
            final(self).wf(),
            final(self).collection_ready,
            final(self).entries@ == old(self).entries@,
    {
        self.collection_ready = true;
    }

    /// Index of the first entry carrying the given identifier.
    fn position_of(entries: &Vec<IndexEntry>, id: i32) -> (r: Option<usize>)
        ensures
            match r {
                Some(k) => k < entries@.len() && entries@[k as int].id == id && forall|j: int|
                    0 <= j < k ==> (#[trigger] entries@[j]).id != id,
                None => forall|j: int| 0 <= j < entries@.len() ==> (#[trigger] entries@[j]).id
                    != id,
            },
    {
        let mut i: usize = 0;
        while i < entries.len()
            invariant
                i <= entries@.len(),
                forall|j: int| 0 <= j < i ==> (#[trigger] entries@[j]).id != id,
            decreases entries@.len() - i,
        {
            if entries[i].id == id {
                return Some(i);
            }
            i += 1;
        }
        None
    }

    /// Folds an acknowledged upsert in: the document now acknowledged
    /// under `id` is exactly `doc`, every other identifier untouched.
    /// An upsert implies the collection existed.
    #[verifier::rlimit(60)]
    pub fn apply_upsert(&mut self, id: i32, doc: SearchDocument)
        requires
            old(self).wf(),
        ensures
            final(self).wf(),
            final(self).collection_ready,
            find_doc(final(self).entries@, id as int) == Some(doc@),
            forall|id2: int| id2 != id as int ==> find_doc(final(self).entries@, id2)
                == find_doc(old(self).entries@, id2),
    {
        self.collection_ready = true;
        let ghost olds = self.entries@;
        if let Some(k) = Self::position_of(&self.entries, id) {
            self.entries.remove(k);
            proof {
                let mids = self.entries@;
                assert forall|x: int| 0 <= x < mids.len() implies (#[trigger] mids[x]).id
                    != id as int by {
                    if x < k {
                        assert(mids[x] == olds[x]);
                    } else {
                        assert(mids[x] == olds[x + 1]);
                    }
                }
                assert forall|x: int, y: int| 0 <= x < y < mids.len() implies (
                #[trigger] mids[x]).id != (#[trigger] mids[y]).id by {
                    let x0 = if x < k {
                        x
                    } else {
                        x + 1
                    };
                    let y0 = if y < k {
                        y
                    } else {
                        y + 1
                    };
                    assert(mids[x] == olds[x0] && mids[y] == olds[y0]);
                }
                assert forall|id2: int| id2 != id as int implies find_doc(mids, id2) == find_doc(
                    olds,
                    id2,
                ) by {
                    lemma_find_doc_remove(olds, k as int, id2);
                }
            }
        }
        let ghost mids = self.entries@;
        let entry = IndexEntry { id, doc };
        self.entries.push(entry);
        proof {
            lemma_find_doc_push_new(mids, entry);
            assert forall|id2: int| id2 != id as int implies find_doc(self.entries@, id2)
                == find_doc(olds, id2) by {
                lemma_find_doc_push(mids, entry, id2);
            }
            let news = self.entries@;
            assert forall|x: int, y: int| 0 <= x < y < news.len() implies (
            #[trigger] news[x]).id != (#[trigger] news[y]).id by {
                if y < news.len() - 1 {
                    assert(news[x] == mids[x] && news[y] == mids[y]);
                } else {
                    assert(news[y] == entry);
                    if x < news.len() - 1 {
                        assert(news[x] == mids[x]);
                    }
                }
            }
        }
    }

    /// Folds an acknowledged deletion in: no document is acknowledged
    /// under `id` afterwards, every other identifier untouched.
    pub fn apply_delete(&mut self, id: i32)
        requires
            old(self).wf(),
        ensures
            final(self).wf(),
            final(self).collection_ready == old(self).collection_ready,
            find_doc(final(self).entries@, id as int) is None,
            forall|id2: int| id2 != id as int ==> find_doc(final(self).entries@, id2)
                == find_doc(old(self).entries@, id2),
    {
        let ghost olds = self.entries@;
        let mut i: usize = 0;
        while i < self.entries.len()
            invariant
                i <= self.entries@.len(),
                old(self).wf(),
                olds == old(self).entries@,
                self.entries@ == olds,
                self.collection_ready == old(self).collection_ready,
                forall|j: int| 0 <= j < i ==> (#[trigger] self.entries@[j]).id != id,
            decreases self.entries@.len() - i,
        {
            if self.entries[i].id == id {
                self.entries.remove(i);
                proof {
                    let news = self.entries@;
                    assert forall|x: int| 0 <= x < news.len() implies (#[trigger] news[x]).id
                        != id as int by {
                        if x < i {
                            assert(news[x] == olds[x]);
                        } else {
                            assert(news[x] == olds[x + 1]);
                        }
                    }
                    lemma_find_doc_absent(news, id as int);
                    assert forall|id2: int| id2 != id as int implies find_doc(news, id2)
                        == find_doc(olds, id2) by {
                        lemma_find_doc_remove(olds, i as int, id2);
                    }
                    assert forall|x: int, y: int| 0 <= x < y < news.len() implies (
                    #[trigger] news[x]).id != (#[trigger] news[y]).id by {
                        let x0 = if x < i {
                            x
                        } else {
                            x + 1
                        };
                        let y0 = if y < i {
                            y
                        } else {
                            y + 1
                        };
                        assert(news[x] == olds[x0] && news[y] == olds[y0]);
                    }
                }
                return ;
            }
            i += 1;
        }
        proof {
            lemma_find_doc_absent(self.entries@, id as int);
        }
    }
}

/// What a successful item creation leaves behind: the new well-formed row
/// retrievable by its fresh identifier, its projected document in hand,
/// the counter advanced, every other row and the whole index untouched.
pub open spec fn spec_create_post(
    pre: SyncingStore,
    post: SyncingStore,
    item: Item,
    doc: SearchDocument,
) -> bool {
    &&& post.wf()
    &&& item.wf()
    &&& item.id == pre.store.next_id
    &&& post.store.next_id == pre.store.next_id + 1
    &&& find_view(post.store.items@, item.id as int) == Some(item@)
    &&& doc@ == spec_doc_of(item@)
    &&& forall|id2: int|
        id2 != item.id as int ==> find_view(post.store.items@, id2) == find_view(
            pre.store.items@,
            id2,
        )
    &&& post.index.collection_ready == pre.index.collection_ready
    &&& post.index.entries@ == pre.index.entries@
}

/// What recording an index write's outcome leaves behind: the relational
/// rows are never touched; a delivered write acknowledges exactly the
/// given document under the given identifier, an undelivered one changes
/// nothing and passes the failure through.
pub open spec fn spec_sync_post(
    pre: SyncingStore,
    post: SyncingStore,
    id: i32,
    doc: SearchDocument,
    outcome: Result<(), TypesenseError>,
    r: Result<(), TypesenseError>,
) -> bool {
    &&& post.wf()
    &&& post.store.items@ == pre.store.items@
    &&& post.store.next_id == pre.store.next_id
    &&& r == outcome
    &&& match outcome {
        Ok(_) => {
            &&& post.index.collection_ready
            &&& find_doc(post.index.entries@, id as int) == Some(doc@)
            &&& forall|id2: int|
                id2 != id as int ==> find_doc(post.index.entries@, id2) == find_doc(
                    pre.index.entries@,
                    id2,
                )
        },
        Err(_) => {
            &&& post.index.collection_ready == pre.index.collection_ready
            &&& post.index.entries@ == pre.index.entries@
        },
    }
}

/// The composition root of the dual write: item mutations go to the
/// relational store first (the single source of truth), and each
/// successful mutation yields the index write the driver must attempt,
/// whose outcome is folded back in. Index unavailability fails the
/// operation as reported to the caller but never the primary write.
#[derive(Debug)]
pub struct SyncingStore {
    pub store: ItemStore,
    pub index: IndexState,
}

impl SyncingStore {
    /// Both halves hold their invariants.
    pub open spec fn wf(self) -> bool {
        self.store.wf() && self.index.wf()
    }

    /// An empty store over an empty index.
    pub fn new() -> (s: Self)
        ensures
            s.wf(),
            s.store.items@.len() == 0,
            s.store.next_id == 1,
            s.index.entries@.len() == 0,
    {
        SyncingStore { store: ItemStore::new(), index: IndexState::new() }
    }

    /// Creates an item: the store assigns the identifier and timestamps,
    /// and the projected search document to be upserted is returned with
    /// the fresh row.
    pub fn create_item(&mut self, req: CreateItemRequest, now: NaiveStamp) -> (r: (
        Item,
        SearchDocument,
    ))
        requires
            old(self).wf(),
            now.wf(),
            old(self).store.next_id < i32::MAX,
        ensures
            spec_create_post(*old(self), *final(self), r.0, r.1),
            r.0@ == (ItemV {
                id: old(self).store.next_id as int,
                title: req.title@,
                content: match req.content {
                    Some(c) => Some(c@),
                    None => None,
                },
                item_type: req.item_type@,
                tags: match req.tags {
                    Some(t) => Some(t@),
                    None => None,
                },
                source_type: match req.source_type {
                    Some(t) => Some(t@),
                    None => None,
                },
                source_url: match req.source_url {
                    Some(u) => Some(u@),
                    None => None,
                },
                created_at: now,
                updated_at: now,
            }),
    {
        let item = self.store.insert(req, now);
        let doc = crate::search::document_for_item(&item);
        (item, doc)
    }

    /// Creates a bookmark item from fetched metadata: the title and
    /// description map onto title and content, the item type and source
    /// type are fixed to `bookmark`, and the source URL records where it
    /// came from; then the creation path is the same.
    pub fn create_bookmark(&mut self, metadata: BookmarkMetadata, now: NaiveStamp) -> (r: (
        Item,
        SearchDocument,
    ))
        requires
            old(self).wf(),
            now.wf(),
            old(self).store.next_id < i32::MAX,
        ensures
            spec_create_post(*old(self), *final(self), r.0, r.1),
            r.0@.title == metadata.title@,
            r.0@.content == match metadata.description {
                Some(d) => Some(d@),
                None => None::<Seq<u8>>,
            },
            r.0@.item_type == bookmark_type_bytes(),
            r.0@.tags is None,
            r.0@.source_type == Some(bookmark_type_bytes()),
            r.0@.source_url == Some(metadata.url@),
            r.0@.created_at == now && r.0@.updated_at == now,
    {
        let item_type = bookmark_type_vec();
        let source_type = bookmark_type_vec();
        let req = CreateItemRequest {
            title: metadata.title,
            content: metadata.description,
            item_type,
            tags: None,
            source_type: Some(source_type),
            source_url: Some(metadata.url),
        };
        self.create_item(req, now)
    }

    /// All rows, newest update first.
    pub fn get_all_items(&self) -> (r: &Vec<Item>)
        requires
            self.wf(),
        ensures
            r@ == self.store.items@,
            sorted_desc(r@),
    {
        self.store.find_all()
    }

    /// The row with the given identifier, if any.
    pub fn get_item_by_id(&self, id: i32) -> (r: Option<&Item>)
        ensures
            match r {
                Some(it) => spec_find(self.store.items@, id as int) == Some(*it),
                None => spec_find(self.store.items@, id as int) is None,
            },
    {
        self.store.find_by_id(id)
    }

    /// Replaces a row and returns it with the document to be upserted;
    /// fails with `ItemNotFound`, changing nothing, when the identifier
    /// names no row.
    pub fn update_item(&mut self, req: UpdateItemRequest, now: NaiveStamp) -> (r: Result<
        (Item, SearchDocument),
        StoreError,
    >)
        requires
            old(self).wf(),
            now.wf(),
        ensures
            final(self).wf(),
            final(self).index.collection_ready == old(self).index.collection_ready,
            final(self).index.entries@ == old(self).index.entries@,
            final(self).store.next_id == old(self).store.next_id,
            match r {
                Ok(pair) => {
                    &&& pair.0.wf()
                    &&& spec_find(old(self).store.items@, req.id as int) matches Some(prev) && {
                        &&& pair.0@ == (ItemV {
                            id: req.id as int,
                            title: req.title@,
                            content: match req.content {
                                Some(c) => Some(c@),
                                None => None,
                            },
                            item_type: req.item_type@,
                            tags: match req.tags {
                                Some(t) => Some(t@),
                                None => None,
                            },
                            source_type: match req.source_type {
                                Some(t) => Some(t@),
                                None => None,
                            },
                            source_url: match req.source_url {
                                Some(u) => Some(u@),
                                None => None,
                            },
                            created_at: prev.created_at,
                            updated_at: pair.0.updated_at,
                        })
                        &&& pair.0.updated_at.spec_epoch_seconds() == (if now.spec_epoch_seconds()
                            >= prev.created_at.spec_epoch_seconds() {
                            now.spec_epoch_seconds()
                        } else {
                            prev.created_at.spec_epoch_seconds()
                        })
                    }
                    &&& find_view(final(self).store.items@, req.id as int) == Some(pair.0@)
                    &&& pair.1@ == spec_doc_of(pair.0@)
                    &&& forall|id2: int|
                        id2 != req.id as int ==> find_view(final(self).store.items@, id2)
                            == find_view(old(self).store.items@, id2)
                },
                Err(e) => e == StoreError::ItemNotFound && spec_find(
                    old(self).store.items@,
                    req.id as int,
                ) is None && final(self).store.items@ == old(self).store.items@,
            },
    {
        match self.store.update(req, now) {
            Ok(item) => {
                let doc = crate::search::document_for_item(&item);
                Ok((item, doc))
            },
            Err(e) => Err(e),
        }
    }

    /// Removes a row; removing an absent identifier succeeds and changes
    /// nothing. The index deletion for the same identifier is the
    /// driver's next step.
    pub fn delete_item(&mut self, id: i32)
        requires
            old(self).wf(),
        ensures
            final(self).wf(),
            final(self).index.collection_ready == old(self).index.collection_ready,
            final(self).index.entries@ == old(self).index.entries@,
            final(self).store.next_id == old(self).store.next_id,
            find_view(final(self).store.items@, id as int) is None,
            forall|id2: int|
                id2 != id as int ==> find_view(final(self).store.items@, id2) == find_view(
                    old(self).store.items@,
                    id2,
                ),
    {
        self.store.delete(id);
    }

    /// Folds the outcome of the index upsert for a mutation back in: a
    /// delivered write acknowledges the document, an undelivered one
    /// changes nothing, and either way the relational rows stay as they
    /// are — the failure is only passed through to the caller.
    pub fn record_upsert(
        &mut self,
        id: i32,
        doc: SearchDocument,
        outcome: Result<(), TypesenseError>,
    ) -> (r: Result<(), TypesenseError>)
        requires
            old(self).wf(),
        ensures
            spec_sync_post(*old(self), *final(self), id, doc, outcome, r),
    {
        match outcome {
            Ok(u) => {
                self.index.apply_upsert(id, doc);
                Ok(u)
            },
            Err(e) => Err(e),
        }
    }

    /// Folds the outcome of the index deletion for a removed identifier
    /// back in; as with upserts, the relational rows are never touched.
    pub fn record_delete(&mut self, id: i32, outcome: Result<(), TypesenseError>) -> (r: Result<
        (),
        TypesenseError,
    >)
        requires
            old(self).wf(),
        ensures
            final(self).wf(),
            final(self).store.items@ == old(self).store.items@,
            final(self).store.next_id == old(self).store.next_id,
            r == outcome,
            outcome is Ok ==> find_doc(final(self).index.entries@, id as int) is None
                && forall|id2: int|
                id2 != id as int ==> find_doc(final(self).index.entries@, id2) == find_doc(
                    old(self).index.entries@,
                    id2,
                ),
            outcome is Err ==> final(self).index.entries@ == old(self).index.entries@,
    {
        match outcome {
            Ok(u) => {
                self.index.apply_delete(id);
                Ok(u)
            },
            Err(e) => Err(e),
        }
    }
}

/// The bytes of `bookmark`.
pub open spec fn bookmark_type_bytes() -> Seq<u8> {
    seq![98u8, 111u8, 111u8, 107u8, 109u8, 97u8, 114u8, 107u8]
}

/// The byte string `bookmark`.
pub fn bookmark_type_vec() -> (v: Vec<u8>)
    ensures
        v@ == bookmark_type_bytes(),
{
    let v = vec![98u8, 111u8, 111u8, 107u8, 109u8, 97u8, 114u8, 107u8];
    proof {
        assert(v@ =~= bookmark_type_bytes());
    }
    v
}

/// Dual-write consistency for creation: once `create_item` has
/// succeeded, the row is retrievable from the store by its identifier.
/// A delivered index write then makes the projected document retrievable
/// from the index under the same identifier; an undelivered one reports
/// the failure while the stored row stays untouched and retrievable —
/// the primary store never loses data because the index was down.
pub proof fn lemma_create_then_sync(
    s0: SyncingStore,
    s1: SyncingStore,
    s2: SyncingStore,
    item: Item,
    doc: SearchDocument,
    outcome: Result<(), TypesenseError>,
    r: Result<(), TypesenseError>,
)
    requires
        spec_create_post(s0, s1, item, doc),
        spec_sync_post(s1, s2, item.id, doc, outcome, r),
    ensures
        find_view(s2.store.items@, item.id as int) == Some(item@),
        doc@ == spec_doc_of(item@),
        outcome is Ok ==> r is Ok && find_doc(s2.index.entries@, item.id as int) == Some(doc@),
        outcome is Err ==> r is Err && s2.index.entries@ == s0.index.entries@,
{
    assert(s2.store.items@ == s1.store.items@);
}


} // verus!
