//! The translation data model: the immutable content identity, the stored
//! record that wraps it, and the canonical string and hash that identify a
//! content value.

use std::collections::hash_map::DefaultHasher;
use std::hash::Hasher;
use vstd::prelude::*;
use vstd::std_specs::hash::DefaultHasherAdditionalSpecFns;
use vstd::string::StringExecFns;

verus! {

/// The immutable identity of a translation: what it says (`content`), the
/// language it is in (`lang`), and the grouping key it applies under
/// (`context`). Exact bytes matter: no normalization is performed.
pub struct TranslationContent {
    pub content: String,
    pub lang: String,
    pub context: String,
}

impl TranslationContent {
    /// The canonical string of this content, `[<context> - <lang>]: <content>`.
    /// Two contents are the same identity exactly when these strings are equal.
    pub open spec fn complete_content(&self) -> Seq<char> {
        "["@ + self.context@ + " - "@ + self.lang@ + "]: "@ + self.content@
    }

    /// The hash of the canonical string: the key of the deduplication index.
    /// A function of the canonical string alone, so equal identities always
    /// hash alike.
    pub open spec fn content_hash(&self) -> u64 {
        DefaultHasher::spec_finish(
            Seq::<Seq<u8>>::empty().push(vstd::utf8::encode_utf8(self.complete_content())),
        )
    }

    pub fn new(content: &str, context: &str, lang: &str) -> (r: TranslationContent)
        ensures
            r.content@ == content@,
            r.context@ == context@,
            r.lang@ == lang@,
    {
        TranslationContent {
            content: content.to_owned(),
            context: context.to_owned(),
            lang: lang.to_owned(),
        }
    }

    pub fn get_complete_content(&self) -> (r: String)
        ensures
            r@ == self.complete_content(),
    {
        let mut s = String::from_str("[");
        s.append(self.context.as_str());
        s.append(" - ");
        s.append(self.lang.as_str());
        s.append("]: ");
        s.append(self.content.as_str());
        s
    }

    pub fn get_content_hash(&self) -> (r: u64)
        ensures
            r == self.content_hash(),
    {
        let cc = self.get_complete_content();
        let mut hasher = DefaultHasher::new();
        hasher.write(cc.as_str().as_bytes());
        hasher.finish()
    }
}

impl Clone for TranslationContent {
    fn clone(&self) -> (r: Self)
        ensures
            r == *self,
    {
        TranslationContent {
            content: self.content.clone(),
            lang: self.lang.clone(),
            context: self.context.clone(),
        }
    }
}

/// A stored translation record: a content identity plus the audit trail the
/// store keeps for it. The identifier is the 128-bit value of a version-4
/// UUID drawn when the record is created, and never changes afterwards.
pub struct TranslationItem {
    pub id: u128,
    pub translation: TranslationContent,
    pub created_by: String,
    pub created_at: String,
    pub updated_by: String,
    pub updated_at: String,
}

impl TranslationItem {
    /// A record hashes as its content does.
    pub open spec fn content_hash(&self) -> u64 {
        self.translation.content_hash()
    }

    /// A fresh record for `content_item`: a newly drawn identifier, all four
    /// audit fields stamped from `user` and the clock, creation and update
    /// stamps equal.
    pub fn new(content_item: &TranslationContent, user: &str) -> (r: TranslationItem)
        ensures
            r.translation == *content_item,
            r.created_by@ == user@,
            r.updated_by@ == user@,
            r.created_at == r.updated_at,
    {
        let current_date = now_rfc3339();
        TranslationItem {
            id: fresh_item_id(),
            translation: content_item.clone(),
            created_by: user.to_owned(),
            created_at: current_date.clone(),
            updated_by: user.to_owned(),
            updated_at: current_date,
        }
    }

    pub fn get_content_hash(&self) -> (r: u64)
        ensures
            r == self.content_hash(),
    {
        self.translation.get_content_hash()
    }

    /// The record's display form: its content's canonical string.
    pub fn display_string(&self) -> (r: String)
        ensures
            r@ == self.translation.complete_content(),
    {
        self.translation.get_complete_content()
    }
}

impl Clone for TranslationItem {
    fn clone(&self) -> (r: Self)
        ensures
            r == *self,
    {
        TranslationItem {
            id: self.id,
            translation: self.translation.clone(),
            created_by: self.created_by.clone(),
            created_at: self.created_at.clone(),
            updated_by: self.updated_by.clone(),
            updated_at: self.updated_at.clone(),
        }
    }
}

/// Hash determinism: the content hash is a function of the canonical string
/// alone. Two content values whose canonical strings are equal always carry
/// equal hashes — in particular, repeated calls of `get_content_hash` on one
/// value agree. (That hashes of distinct canonical strings differ is only
/// probable, never guaranteed, so no claim is made of it here.)
pub proof fn lemma_content_hash_deterministic(c1: TranslationContent, c2: TranslationContent)
    requires
        c1.complete_content() == c2.complete_content(),
    ensures
        c1.content_hash() == c2.content_hash(),
{
}

pub fn get_content_item(content: &str, context: &str, lang: &str) -> (r: TranslationContent)
    ensures
        r.content@ == content@,
        r.context@ == context@,
        r.lang@ == lang@,
{
    TranslationContent::new(content, context, lang)
}

pub fn get_basic_testable_content_item() -> (r: TranslationContent)
    ensures
        r.content@ == "test"@,
        r.context@ == "test"@,
        r.lang@ == "it"@,
{
    get_content_item("test", "test", "it")
}

pub fn get_basic_testable_item() -> (r: TranslationItem)
    ensures
        r.translation.content@ == "test"@,
        r.translation.context@ == "test"@,
        r.translation.lang@ == "it"@,
        r.created_by@ == "user@mail.com"@,
        r.updated_by@ == "user@mail.com"@,
        r.created_at == r.updated_at,
{
    let content = get_basic_testable_content_item();
    let user = get_user();
    TranslationItem::new(&content, user.as_str())
}

pub fn get_user() -> (r: String)
    ensures
        r@ == "user@mail.com"@,
{
    String::from_str("user@mail.com")
}

/// Relies on uuid::Uuid::new_v4, via Uuid::as_u128: a randomly generated
/// version-4 UUID as its 128-bit value. Nothing is assumed of the result:
/// it depends on the machine's source of randomness.
#[verifier::external_body]
pub(crate) fn fresh_item_id() -> u128 {
    uuid::Uuid::new_v4().as_u128()
}

/// Relies on chrono::Utc::now and chrono::DateTime::to_rfc3339: the current
/// wall-clock time rendered as an RFC 3339 string. Nothing is assumed of the
/// result: it depends on the clock.
#[verifier::external_body]
pub(crate) fn now_rfc3339() -> String {
    chrono::Utc::now().to_rfc3339()
}

} // verus!
