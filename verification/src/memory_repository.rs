//! The in-memory translation store: a primary index from identifier to
//! record, a secondary index from content hash to identifier, and a list of
//! identifiers in arrival order that fixes how searches walk the store.

use crate::model::{now_rfc3339, TranslationContent, TranslationItem};
use crate::repository::{
    contains_seq, lemma_matching_items_properties, matches_query, matching_items,
    TranslationRepository, TranslationRepositoryError,
};
use std::collections::HashMap;
use vstd::pervasive::unreached;
use vstd::prelude::*;
use vstd::string::StrSliceExecFns;

verus! {

broadcast use vstd::std_specs::hash::group_hash_axioms;

/// The one storage backend of this crate. The primary map owns the records;
/// the secondary map holds identifiers only; `id_order` lists the keys of
/// the primary map, oldest first, so that a search can walk them in a fixed
/// order.
pub struct MemoryRepository {
    items: HashMap<u128, TranslationItem>,
    content_set: HashMap<u64, u128>,
    id_order: Vec<u128>,
}

impl MemoryRepository {
    pub fn new() -> (r: MemoryRepository)
        ensures
            r.wf(),
            r.primary_index() == Map::<u128, TranslationItem>::empty(),
            r.dedup_index() == Map::<u64, u128>::empty(),
            r.insertion_order() == Seq::<u128>::empty(),
    {
        let items: HashMap<u128, TranslationItem> = HashMap::new();
        let content_set: HashMap<u64, u128> = HashMap::new();
        let repo: MemoryRepository = MemoryRepository { items, content_set, id_order: Vec::new() };
        repo
    }
}

impl TranslationRepository for MemoryRepository {
    closed spec fn wf(&self) -> bool {
        &&& self.id_order@.no_duplicates()
        &&& forall|i: int|
            0 <= i < self.id_order@.len() ==> self.items@.contains_key(#[trigger] self.id_order@[i])
        &&& forall|id: u128| #[trigger]
            self.items@.contains_key(id) ==> self.id_order@.contains(id)
    }

    closed spec fn primary_index(&self) -> Map<u128, TranslationItem> {
        self.items@
    }

    closed spec fn dedup_index(&self) -> Map<u64, u128> {
        self.content_set@
    }

    closed spec fn insertion_order(&self) -> Seq<u128> {
        self.id_order@
    }

    fn add_translation(&mut self, content_item: TranslationContent, user: String) -> (r: Result<
        TranslationItem,
        TranslationRepositoryError,
    >) {
        let item = TranslationItem::new(&content_item, user.as_str());
        let item_hash = item.get_content_hash();

        if self.content_set.contains_key(&item_hash) {
            return Err(TranslationRepositoryError::ContentAlreadyPresent);
        }

        let ghost old_order = self.id_order@;
        let ghost old_items = self.items@;
        if !self.items.contains_key(&item.id) {
            proof {
                if old_order.contains(item.id) {
                    let j = choose|j: int|
                        0 <= j < old_order.len() && old_order[j] == item.id;
                    assert(old_items.contains_key(old_order[j]));
                }
            }
            self.id_order.push(item.id);
            proof {
                assert forall|p: int, q: int|
                    0 <= p < self.id_order@.len() && 0 <= q < self.id_order@.len() && p != q
                        implies self.id_order@[p] != self.id_order@[q] by {
                    if p < old_order.len() && q < old_order.len() {
                        assert(old_order[p] != old_order[q]);
                    }
                }
            }
        }
        self.content_set.insert(item_hash, item.id);
        let stored = item.clone();
        self.items.insert(item.id, stored);
        proof {
            assert forall|id: u128| #[trigger]
                self.items@.contains_key(id) implies self.id_order@.contains(id) by {
                if id == item.id && !old_items.contains_key(item.id) {
                    assert(self.id_order@ == old_order.push(item.id));
                    assert(self.id_order@[old_order.len() as int] == item.id);
                } else {
                    assert(old_items.contains_key(id));
                    assert(old_order.contains(id));
                    let k = choose|k: int| 0 <= k < old_order.len() && old_order[k] == id;
                    assert(self.id_order@[k] == id);
                }
            }
        }
        Ok(item)
    }

    fn update_translation(&mut self, id: u128, content_item: TranslationContent, user: String) -> (
        r: Result<TranslationItem, TranslationRepositoryError>
    ) {
        match self.items.get(&id) {
            Some(existing) => {
                let updated = TranslationItem {
                    id,
                    translation: content_item,
                    created_by: existing.created_by.clone(),
                    created_at: existing.created_at.clone(),
                    updated_by: user,
                    updated_at: now_rfc3339(),
                };
                let copy = updated.clone();
                let ghost old_items = self.items@;
                self.items.insert(id, updated);
                proof {
                    assert forall|k: u128| #[trigger]
                        self.items@.contains_key(k) implies self.id_order@.contains(k) by {
                        if k != id {
                            assert(old_items.contains_key(k));
                        }
                    }
                }
                Ok(copy)
            },
            None => Err(TranslationRepositoryError::ItemIdNotPresent),
        }
    }

    fn get_translation_by_id(&self, id: &u128) -> (r: Option<TranslationItem>) {
        match self.items.get(id) {
            Some(item) => Some(item.clone()),
            None => None,
        }
    }

    fn get_translations_by_partial_content(&self, content_to_search: TranslationContent) -> (r:
        Option<Vec<TranslationItem>>) {
        let mut result: Vec<TranslationItem> = Vec::new();
        let mut i: usize = 0;
        while i < self.id_order.len()
            invariant
                self.wf(),
                i <= self.id_order@.len(),
                result@ == matching_items(
                    self.items@,
                    self.id_order@.take(i as int),
                    content_to_search,
                ),
            decreases self.id_order@.len() - i,
        {
            let id = self.id_order[i];
            let ghost prefix = self.id_order@.take(i as int);
            match self.items.get(&id) {
                Some(item) => {
                    if matches_search(item, &content_to_search) {
                        result.push(item.clone());
                    }
                },
                None => {
                    return unreached();
                },
            }
            proof {
                assert(self.id_order@.take(i + 1).drop_last() =~= prefix);
                assert(self.id_order@.take(i + 1).last() == self.id_order@[i as int]);
            }
            i += 1;
        }
        proof {
            assert(self.id_order@.take(self.id_order@.len() as int) =~= self.id_order@);
            lemma_matching_items_properties(self.items@, self.id_order@, content_to_search);
            assert forall|id: u128|
                #[trigger] self.items@.contains_key(id) && matches_query(
                    self.items@[id],
                    content_to_search,
                ) implies result@.contains(self.items@[id]) by {
                assert(self.id_order@.contains(id));
            }
        }
        if result.len() > 0 {
            return Some(result);
        }
        proof {
            assert forall|id: u128| #[trigger]
                self.items@.contains_key(id) implies !matches_query(
                self.items@[id],
                content_to_search,
            ) by {
                if matches_query(self.items@[id], content_to_search) {
                    assert(result@.contains(self.items@[id]));
                }
            }
        }
        None
    }

    fn get_translation_by_exact_match(&self, content_item: TranslationContent) -> (r: Option<
        TranslationItem,
    >) {
        let content_hash = content_item.get_content_hash();
        match self.content_set.get(&content_hash) {
            Some(id) => match self.items.get(id) {
                Some(item) => Some(item.clone()),
                None => None,
            },
            None => None,
        }
    }

    fn remove_translation(&mut self, id: u128) -> (r: Result<
        TranslationItem,
        TranslationRepositoryError,
    >) {
        let ghost old_items = self.items@;
        let ghost old_order = self.id_order@;
        if !self.items.contains_key(&id) {
            return Err(TranslationRepositoryError::ItemIdNotPresent);
        }
        match self.items.remove(&id) {
            Some(item) => {
                let item_hash = item.get_content_hash();
                self.content_set.remove(&item_hash);
                proof {
                    assert(old_order.contains(id));
                }
                let j = find_index(&self.id_order, id);
                self.id_order.remove(j);
                proof {
                    old_order.remove_ensures(j as int);
                    old_order.index_of_first_ensures(id);
                    match old_order.index_of_first(id) {
                        Some(idx) => {
                            if idx < j {
                                assert(old_order[idx] != id);
                            } else if idx > j {
                                assert(old_order[j as int] != id);
                            }
                            assert(idx == j);
                        },
                        None => {
                            assert(false);
                        },
                    }
                    assert(self.id_order@ == old_order.remove_value(id));
                    assert forall|p: int, q: int|
                        0 <= p < self.id_order@.len() && 0 <= q < self.id_order@.len() && p != q
                            implies self.id_order@[p] != self.id_order@[q] by {
                        let p0: int = if p < j { p } else { p + 1 };
                        let q0: int = if q < j { q } else { q + 1 };
                        assert(old_order.remove(j as int)[p] == old_order[p0]);
                        assert(old_order.remove(j as int)[q] == old_order[q0]);
                        assert(old_order[p0] != old_order[q0]);
                    }
                    assert forall|i: int|
                        0 <= i < self.id_order@.len() implies self.items@.contains_key(
                        #[trigger] self.id_order@[i],
                    ) by {
                        let i0: int = if i < j { i } else { i + 1 };
                        assert(old_order.remove(j as int)[i] == old_order[i0]);
                        assert(old_items.contains_key(old_order[i0]));
                        assert(old_order[i0] != id);
                    }
                    assert forall|k: u128| #[trigger]
                        self.items@.contains_key(k) implies self.id_order@.contains(k) by {
                        assert(old_items.contains_key(k));
                        assert(old_order.contains(k));
                        assert(k != id);
                        let m = choose|m: int| 0 <= m < old_order.len() && old_order[m] == k;
                        if m < j {
                            assert(old_order.remove(j as int)[m] == old_order[m]);
                            assert(self.id_order@[m] == k);
                        } else {
                            assert(m > j);
                            assert(old_order.remove(j as int)[m - 1] == old_order[m]);
                            assert(self.id_order@[m - 1] == k);
                        }
                    }
                }
                Ok(item)
            },
            None => unreached(),
        }
    }
}

/// Whether the record satisfies the partial-content query. A query with an
/// empty language matches nothing; see [`matches_query`].
fn matches_search(item: &TranslationItem, query: &TranslationContent) -> (r: bool)
    ensures
        r == matches_query(*item, *query),
{
    contains_substring(item.translation.content.as_str(), query.content.as_str())
        && item.translation.context == query.context && !query.lang.as_str().is_empty()
        && item.translation.lang == query.lang
}

/// The position of the first occurrence of `id` in `ids`.
fn find_index(ids: &Vec<u128>, id: u128) -> (r: usize)
    requires
        ids@.contains(id),
    ensures
        r < ids@.len(),
        ids@[r as int] == id,
        forall|k: int| 0 <= k < r ==> ids@[k] != id,
{
    let mut i: usize = 0;
    while i < ids.len()
        invariant
            i <= ids@.len(),
            ids@.contains(id),
            forall|k: int| 0 <= k < i ==> ids@[k] != id,
        decreases ids@.len() - i,
    {
        if ids[i] == id {
            return i;
        }
        i += 1;
    }
    proof {
        let j = choose|j: int| 0 <= j < ids@.len() && ids@[j] == id;
        assert(false);
    }
    unreached()
}

/// Whether `hay` holds `needle` as a contiguous substring of characters,
/// the check a partial-content search runs on each record.
fn contains_substring(hay: &str, needle: &str) -> (r: bool)
    ensures
        r == contains_seq(hay@, needle@),
{
    let hay_len = hay.unicode_len();
    let needle_len = needle.unicode_len();
    if needle_len > hay_len {
        return false;
    }
    let mut i: usize = 0;
    while i <= hay_len - needle_len
        invariant
            needle_len <= hay_len,
            hay_len == hay@.len(),
            needle_len == needle@.len(),
            i <= hay_len - needle_len + 1,
            forall|k: int|
                0 <= k < i ==> #[trigger] hay@.subrange(k, k + needle@.len()) != needle@,
        decreases hay_len - needle_len - i + 1,
    {
        if match_at(hay, needle, i, needle_len) {
            return true;
        }
        proof {
            if needle@.len() == 0 {
                assert(hay@.subrange(i as int, i as int) =~= needle@);
            }
        }
        i += 1;
    }
    false
}

/// Whether the characters of `hay` starting at `at` spell out `needle`.
fn match_at(hay: &str, needle: &str, at: usize, needle_len: usize) -> (r: bool)
    requires
        needle_len == needle@.len(),
        at + needle_len <= hay@.len(),
        hay@.len() <= usize::MAX,
    ensures
        r == (hay@.subrange(at as int, at + needle_len) == needle@),
{
    let mut j: usize = 0;
    while j < needle_len
        invariant
            needle_len == needle@.len(),
            at + needle_len <= hay@.len(),
            hay@.len() <= usize::MAX,
            j <= needle_len,
            forall|k: int| 0 <= k < j ==> hay@[at + k] == needle@[k],
        decreases needle_len - j,
    {
        if hay.get_char(at + j) != needle.get_char(j) {
            proof {
                assert(hay@.subrange(at as int, at + needle_len)[j as int] == hay@[at + j]);
            }
            return false;
        }
        j += 1;
    }
    proof {
        assert(hay@.subrange(at as int, at + needle_len) =~= needle@);
    }
    true
}

} // verus!
