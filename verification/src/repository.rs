//! The capability contract every translation store must honor: add, look up
//! by identifier, look up by exact content, search by partial content,
//! update, and remove, together with the errors the mutating operations
//! report.

use crate::model::{TranslationContent, TranslationItem};
use vstd::prelude::*;

verus! {

/// The two failures a translation store can report: `add` refuses content
/// whose canonical string is already present, and `update` / `remove` refuse
/// an identifier that is not in the store.
#[derive(Debug, PartialEq, Eq, Structural)]
pub enum TranslationRepositoryError {
    ContentAlreadyPresent,
    ItemIdNotPresent,
}

/// Whether `hay` holds `needle` as a contiguous substring.
pub open spec fn contains_seq(hay: Seq<char>, needle: Seq<char>) -> bool {
    exists|i: int|
        0 <= i && i + needle.len() <= hay.len() && #[trigger] hay.subrange(i, i + needle.len())
            == needle
}

/// Whether a stored record satisfies a partial-content query: the record's
/// content holds the query's content as a substring, the contexts are equal,
/// and the languages are equal. An empty query language makes every record
/// fail this test — it is not a wildcard. That asymmetry is deliberate: it
/// reproduces the store's specified behavior, surprising as it looks.
pub open spec fn matches_query(item: TranslationItem, query: TranslationContent) -> bool {
    &&& contains_seq(item.translation.content@, query.content@)
    &&& item.translation.context@ == query.context@
    &&& query.lang@.len() > 0
    &&& item.translation.lang@ == query.lang@
}

/// The records among `items` that satisfy `query`, in the order their
/// identifiers stand in `order`.
pub open spec fn matching_items(
    items: Map<u128, TranslationItem>,
    order: Seq<u128>,
    query: TranslationContent,
) -> Seq<TranslationItem>
    decreases order.len(),
{
    if order.len() == 0 {
        Seq::empty()
    } else {
        let prefix = matching_items(items, order.drop_last(), query);
        if items.contains_key(order.last()) && matches_query(items[order.last()], query) {
            prefix.push(items[order.last()])
        } else {
            prefix
        }
    }
}

/// A store of translation records with two indexes: a primary index from
/// record identifier to record, and a secondary index from content hash to
/// identifier, which enforces that no two records share a canonical content
/// string. `insertion_order` lists the identifiers of the primary index in
/// the order the records arrived; it fixes the order in which searches
/// report their results, which callers should treat as unspecified.
///
/// One behavior is inherited deliberately: `update_translation` replaces a
/// record's content but leaves the secondary index untouched, so after an
/// update the record's entry there still carries the hash of the content it
/// had when it was added. Every contract below states this as it is.
pub trait TranslationRepository: Sized {
    /// The store's internal bookkeeping is in shape; established by the
    /// constructor of each implementation and preserved by every operation.
    spec fn wf(&self) -> bool;

    /// The primary index: record identifier to record.
    spec fn primary_index(&self) -> Map<u128, TranslationItem>;

    /// The secondary index: content hash to record identifier.
    spec fn dedup_index(&self) -> Map<u64, u128>;

    /// The identifiers of the primary index, oldest first.
    spec fn insertion_order(&self) -> Seq<u128>;

    /// Adds a record for `content_item`. Fails with `ContentAlreadyPresent`,
    /// mutating nothing, exactly when the secondary index already holds the
    /// content's hash. On success a fresh record is inserted into both
    /// indexes and a copy of it is returned; its identifier is newly drawn,
    /// so in the astronomically unlikely event that the draw repeats an
    /// identifier already present, the insert overwrites that record.
    fn add_translation(&mut self, content_item: TranslationContent, user: String) -> (r: Result<
        TranslationItem,
        TranslationRepositoryError,
    >)
        requires
            old(self).wf(),
        ensures
            final(self).wf(),
            r is Err <==> old(self).dedup_index().contains_key(content_item.content_hash()),
            match r {
                Err(e) => {
                    &&& e == TranslationRepositoryError::ContentAlreadyPresent
                    &&& *final(self) == *old(self)
                },
                Ok(item) => {
                    &&& item.translation == content_item
                    &&& item.created_by@ == user@
                    &&& item.updated_by@ == user@
                    &&& item.created_at == item.updated_at
                    &&& final(self).primary_index() == old(self).primary_index().insert(
                        item.id,
                        item,
                    )
                    &&& final(self).dedup_index() == old(self).dedup_index().insert(
                        content_item.content_hash(),
                        item.id,
                    )
                    &&& final(self).insertion_order() == if old(self).primary_index().contains_key(
                        item.id,
                    ) {
                        old(self).insertion_order()
                    } else {
                        old(self).insertion_order().push(item.id)
                    }
                    &&& !old(self).primary_index().contains_key(item.id)
                        ==> final(self).primary_index().len() == old(self).primary_index().len()
                        + 1
                },
            },
    ;

    /// Replaces the content of the record at `id` wholesale and stamps its
    /// update audit fields from `user` and the clock; identifier, creator
    /// and creation stamp stay as they were. Fails with `ItemIdNotPresent`,
    /// mutating nothing, exactly when `id` is not in the primary index. The
    /// secondary index is left as it was — it is not re-keyed to the new
    /// content.
    fn update_translation(&mut self, id: u128, content_item: TranslationContent, user: String) -> (
        r: Result<TranslationItem, TranslationRepositoryError>
    )
        requires
            old(self).wf(),
        ensures
            final(self).wf(),
            r is Err <==> !old(self).primary_index().contains_key(id),
            match r {
                Err(e) => {
                    &&& e == TranslationRepositoryError::ItemIdNotPresent
                    &&& *final(self) == *old(self)
                },
                Ok(item) => {
                    &&& item.id == id
                    &&& item.translation == content_item
                    &&& item.created_by == old(self).primary_index()[id].created_by
                    &&& item.created_at == old(self).primary_index()[id].created_at
                    &&& item.updated_by == user
                    &&& final(self).primary_index() == old(self).primary_index().insert(id, item)
                    &&& final(self).dedup_index() == old(self).dedup_index()
                    &&& final(self).insertion_order() == old(self).insertion_order()
                },
            },
    ;

    /// Looks `id` up in the primary index and returns a copy of the record
    /// there, or `None` when the index does not hold `id`. Never mutates.
    fn get_translation_by_id(&self, id: &u128) -> (r: Option<TranslationItem>)
        ensures
            match r {
                Some(item) => {
                    &&& self.primary_index().contains_key(*id)
                    &&& item == self.primary_index()[*id]
                },
                None => !self.primary_index().contains_key(*id),
            },
    ;

    /// Returns copies of every record that satisfies `content_to_search`
    /// (see [`matches_query`]), in insertion order, or `None` when no record
    /// does. Never mutates.
    fn get_translations_by_partial_content(&self, content_to_search: TranslationContent) -> (r:
        Option<Vec<TranslationItem>>)
        requires
            self.wf(),
        ensures
            match r {
                Some(v) => {
                    &&& v@ == matching_items(
                        self.primary_index(),
                        self.insertion_order(),
                        content_to_search,
                    )
                    &&& v@.len() > 0
                    &&& forall|i: int|
                        0 <= i < v@.len() ==> matches_query(#[trigger] v@[i], content_to_search)
                    &&& forall|id: u128|
                        #[trigger] self.primary_index().contains_key(id) && matches_query(
                            self.primary_index()[id],
                            content_to_search,
                        ) ==> v@.contains(self.primary_index()[id])
                },
                None => forall|id: u128|
                    #[trigger] self.primary_index().contains_key(id) ==> !matches_query(
                        self.primary_index()[id],
                        content_to_search,
                    ),
            },
    ;

    /// Resolves the query content's hash through the secondary index and
    /// then the primary index, and returns a copy of the record found there.
    /// Returns `None` when either lookup misses: a secondary-index entry
    /// whose identifier is gone resolves to `None` rather than failing.
    /// Never mutates.
    fn get_translation_by_exact_match(&self, content_item: TranslationContent) -> (r: Option<
        TranslationItem,
    >)
        ensures
            match r {
                Some(item) => {
                    &&& self.dedup_index().contains_key(content_item.content_hash())
                    &&& self.primary_index().contains_key(
                        self.dedup_index()[content_item.content_hash()],
                    )
                    &&& item == self.primary_index()[self.dedup_index()[content_item.content_hash()]]
                },
                None => !self.dedup_index().contains_key(content_item.content_hash())
                    || !self.primary_index().contains_key(
                    self.dedup_index()[content_item.content_hash()],
                ),
            },
    ;

    /// Removes the record at `id` from the primary index, removes the entry
    /// of that record's content hash from the secondary index, and returns
    /// the removed record. Fails with `ItemIdNotPresent`, mutating nothing,
    /// exactly when `id` is not in the primary index.
    fn remove_translation(&mut self, id: u128) -> (r: Result<
        TranslationItem,
        TranslationRepositoryError,
    >)
        requires
            old(self).wf(),
        ensures
            final(self).wf(),
            r is Err <==> !old(self).primary_index().contains_key(id),
            match r {
                Err(e) => {
                    &&& e == TranslationRepositoryError::ItemIdNotPresent
                    &&& *final(self) == *old(self)
                },
                Ok(item) => {
                    &&& item == old(self).primary_index()[id]
                    &&& final(self).primary_index() == old(self).primary_index().remove(id)
                    &&& final(self).dedup_index() == old(self).dedup_index().remove(
                        item.content_hash(),
                    )
                    &&& final(self).insertion_order() == old(self).insertion_order().remove_value(
                        id,
                    )
                },
            },
    ;
}

/// What a partial-content search gathers, element by element: every record
/// in `matching_items(items, order, query)` satisfies the query and is
/// stored in `items`, and the stored record of every identifier in `order`
/// that satisfies the query appears in it.
pub proof fn lemma_matching_items_properties(
    items: Map<u128, TranslationItem>,
    order: Seq<u128>,
    query: TranslationContent,
)
    ensures
        forall|i: int|
            0 <= i < matching_items(items, order, query).len() ==> matches_query(
                #[trigger] matching_items(items, order, query)[i],
                query,
            ),
        forall|i: int|
            #![trigger matching_items(items, order, query)[i]]
            0 <= i < matching_items(items, order, query).len() ==> exists|id: u128|
                #[trigger] items.contains_key(id) && items[id] == matching_items(
                    items,
                    order,
                    query,
                )[i],
        forall|id: u128|
            #[trigger] order.contains(id) && items.contains_key(id) && matches_query(
                items[id],
                query,
            ) ==> matching_items(items, order, query).contains(items[id]),
    decreases order.len(),
{
    if order.len() > 0 {
        lemma_matching_items_properties(items, order.drop_last(), query);
        let result = matching_items(items, order, query);
        let prefix = matching_items(items, order.drop_last(), query);
        assert forall|id: u128|
            #[trigger] order.contains(id) && items.contains_key(id) && matches_query(
                items[id],
                query,
            ) implies result.contains(items[id]) by {
            let k = choose|k: int| 0 <= k < order.len() && order[k] == id;
            if k == order.len() - 1 {
                assert(result.last() == items[id]);
            } else {
                assert(order.drop_last()[k] == id);
                assert(order.drop_last().contains(id));
                let m = choose|m: int| 0 <= m < prefix.len() && prefix[m] == items[id];
                assert(result[m] == items[id]);
            }
        }
    }
}

/// Dedup uniqueness: once the secondary index holds the hash of a content
/// value, it holds the hash of every content value with the same canonical
/// string. By the contract of `add_translation`, adding any of them then
/// fails with `ContentAlreadyPresent` — and after an `add` of `c1` succeeds,
/// its hash stands in the secondary index, so this applies.
pub proof fn lemma_dedup_uniqueness<R: TranslationRepository>(
    repo: &R,
    c1: TranslationContent,
    c2: TranslationContent,
)
    requires
        repo.dedup_index().contains_key(c1.content_hash()),
        c1.complete_content() == c2.complete_content(),
    ensures
        repo.dedup_index().contains_key(c2.content_hash()),
{
    crate::model::lemma_content_hash_deterministic(c1, c2);
}

/// Identity stability: a record just added is exactly what a lookup of its
/// identifier yields. When `add_translation` returns `Ok(item)` its contract
/// gives the primary index of the new state as the old one with `item` at
/// `item.id`; that index maps `item.id` to `item` itself, which is what
/// `get_translation_by_id` then promises to return a copy of.
pub proof fn lemma_identity_stability<R: TranslationRepository>(
    before: &R,
    after: &R,
    item: TranslationItem,
)
    requires
        after.primary_index() == before.primary_index().insert(item.id, item),
    ensures
        after.primary_index().contains_key(item.id),
        after.primary_index()[item.id] == item,
{
}

/// Remove frees the content slot: when `remove_translation` hands back a
/// record, its contract gives the new secondary index as the old one without
/// that record's content hash, so the hash of any content value with the
/// same canonical string is absent too, and by the contract of
/// `add_translation` an add of such content succeeds again.
pub proof fn lemma_remove_then_add<R: TranslationRepository>(
    after: &R,
    before: &R,
    removed: TranslationItem,
    c: TranslationContent,
)
    requires
        after.dedup_index() == before.dedup_index().remove(removed.content_hash()),
        c.complete_content() == removed.translation.complete_content(),
    ensures
        !after.dedup_index().contains_key(c.content_hash()),
{
    crate::model::lemma_content_hash_deterministic(c, removed.translation);
}

} // verus!
