//! Small facts and events, to try things out with.

use crate::binary64::Binary64;
use crate::engine::ingest::DEFAULT_IMPORTANCE_BITS;
use crate::json::{json_empty_object, json_from_text, json_insert};
use crate::time::{utc_now, Timestamp};
use crate::types::events::{EventType, NewEvent};
use crate::types::facts::{FactType, NewFact, ROOT_SCOPE_ID};
use vstd::prelude::*;
use vstd::string::StringSliceAdditionalSpecFns;

verus! {

/// The fact has the content, vector and type given, and nothing else of note.
pub open spec fn is_plain_fact(
    fact: NewFact,
    content: Seq<char>,
    embedding: Vec<u32>,
    fact_type: FactType,
) -> bool {
    &&& fact.content@ == content
    &&& fact.embedding == embedding
    &&& fact.fact_type == fact_type
    &&& fact.t_expired is None
    &&& fact.t_valid is None
    &&& fact.t_invalid is None
    &&& fact.source_event_id is None
    &&& fact.scope_id == 1
    &&& fact.base_importance == (Binary64 { bits: DEFAULT_IMPORTANCE_BITS })
    &&& fact.access_count == 0
    &&& crate::json::is_empty_object(fact.metadata)
    &&& !fact.is_pinned
}

/// A fact with the given type, created and last accessed at the given times, and
/// with the given content hash.
pub fn plain_fact(
    content: &str,
    content_hash: String,
    embedding: Vec<u32>,
    fact_type: FactType,
    t_created: Timestamp,
    last_accessed: Timestamp,
) -> (r: NewFact)
    ensures
        is_plain_fact(r, content@, embedding, fact_type),
        r.content_hash == content_hash,
        r.t_created == t_created,
        r.last_accessed == last_accessed,
{
    NewFact {
        content: content.to_owned(),
        content_hash,
        embedding,
        fact_type,
        t_created,
        t_expired: None,
        t_valid: None,
        t_invalid: None,
        source_event_id: None,
        scope_id: ROOT_SCOPE_ID,
        base_importance: Binary64 { bits: DEFAULT_IMPORTANCE_BITS },
        access_count: 0,
        last_accessed,
        metadata: json_empty_object(),
        is_pinned: false,
    }
}

/// An episodic fact of the current time, without a content hash.
pub fn new_fact(content: &str, embedding: Vec<u32>) -> (r: NewFact)
    ensures
        is_plain_fact(r, content@, embedding, FactType::Episodic),
        r.content_hash@.len() == 0,
        r.t_created.valid(),
        r.last_accessed.valid(),
{
    new_fact_with_type(content, embedding, FactType::Episodic)
}

/// A fact of the current time with a type of choice, without a content hash.
pub fn new_fact_with_type(content: &str, embedding: Vec<u32>, fact_type: FactType) -> (r: NewFact)
    ensures
        is_plain_fact(r, content@, embedding, fact_type),
        r.content_hash@.len() == 0,
        r.t_created.valid(),
        r.last_accessed.valid(),
{
    plain_fact(content, String::new(), embedding, fact_type, utc_now(), utc_now())
}

/// The BLAKE3 hash of bytes, in lower-case hexadecimal.
pub uninterp spec fn blake3_hex(data: Seq<u8>) -> Seq<char>;

/// `blake3::hash` and its `to_hex`: the hash of the bytes as 64 lower-case
/// hexadecimal digits, which are ASCII.
#[verifier::external_body]
fn hash_hex(data: &[u8]) -> (r: String)
    ensures
        r@ == blake3_hex(data@),
        r@.len() == 64,
        vstd::utf8::is_ascii_chars(r@),
{
    blake3::hash(data).to_hex().to_string()
}

/// The first 32 digits of the content's BLAKE3 hash.
pub fn content_hash_of(hex: &str) -> (r: String)
    requires
        hex@.len() >= 32,
        vstd::utf8::is_ascii_chars(hex@),
    ensures
        r@ == hex@.take(32),
{
    assert(hex@.take(32) =~= hex@.subrange(0, 32));
    hex.substring_ascii(0, 32).to_owned()
}

/// A semantic fact of the current time, with the first 32 digits of its
/// content's BLAKE3 hash.
pub fn new_fact_hashed(content: &str, embedding: Vec<u32>) -> (r: NewFact)
    ensures
        is_plain_fact(r, content@, embedding, FactType::Semantic),
        r.content_hash@ == blake3_hex(content.spec_bytes()).take(32),
        r.t_created.valid(),
        r.last_accessed.valid(),
{
    let hex = hash_hex(content.as_bytes());
    let content_hash = content_hash_of(hex.as_str());
    plain_fact(content, content_hash, embedding, FactType::Semantic, utc_now(), utc_now())
}

/// An interaction event of the current time, with a small payload.
pub fn new_event(source: &str, session_id: Option<&str>) -> (r: NewEvent)
    ensures
        r.timestamp.valid(),
        r.event_type == EventType::Interaction,
        crate::json::json_members(r.payload) matches Some(members) && members.dom() == Set::<
            Seq<char>,
        >::empty().insert("key"@) && crate::json::json_string(members["key"@]) == Some("value"@),
        r.source@ == source@,
        match (r.session_id, session_id) {
            (Some(a), Some(b)) => a@ == b@,
            (None, None) => true,
            _ => false,
        },
        r.scope_id == 1,
        r.origin_node_id@ == "local"@,
        r.sequence_id == 0,
        r.created_at is None,
{
    let mut payload = json_empty_object();
    json_insert(&mut payload, "key", json_from_text("value".to_owned()));
    proof {
        let members = crate::json::json_members(payload)->0;
        assert(members.dom() =~= Set::<Seq<char>>::empty().insert("key"@));
    }
    NewEvent {
        timestamp: utc_now(),
        event_type: EventType::Interaction,
        payload,
        source: source.to_owned(),
        session_id: match session_id {
            Some(id) => Some(id.to_owned()),
            None => None,
        },
        scope_id: ROOT_SCOPE_ID,
        origin_node_id: "local".to_owned(),
        sequence_id: 0,
        created_at: None,
    }
}

/// A plain fact has just the content, vector, hash, type and times that it was asked
/// for; a fresh one is episodic and has no hash, and a hashed one is semantic and has
/// the first half of its content's hash.
pub proof fn plain_facts_are_what_was_asked(
    content: &str,
    content_hash: String,
    embedding: Vec<u32>,
    fact_type: FactType,
    t_created: Timestamp,
    last_accessed: Timestamp,
    plain: NewFact,
    fresh: NewFact,
    typed: NewFact,
    hashed: NewFact,
)
    requires
        call_ensures(
            plain_fact,
            (content, content_hash, embedding, fact_type, t_created, last_accessed),
            plain,
        ),
        call_ensures(new_fact, (content, embedding), fresh),
        call_ensures(new_fact_with_type, (content, embedding, fact_type), typed),
        call_ensures(new_fact_hashed, (content, embedding), hashed),
    ensures
        plain.content@ == content@ && fresh.content@ == content@ && typed.content@ == content@
            && hashed.content@ == content@,
        plain.embedding@ == embedding@ && fresh.embedding@ == embedding@ && typed.embedding@
            == embedding@ && hashed.embedding@ == embedding@,
        plain.fact_type == fact_type && typed.fact_type == fact_type && fresh.fact_type
            == FactType::Episodic && hashed.fact_type == FactType::Semantic,
        plain.t_created == t_created && plain.last_accessed == last_accessed,
        plain.content_hash == content_hash && fresh.content_hash@.len() == 0
            && typed.content_hash@.len() == 0 && hashed.content_hash@ == blake3_hex(
            content.spec_bytes(),
        ).take(32),
        !plain.is_pinned && !fresh.is_pinned && !typed.is_pinned && !hashed.is_pinned,
        plain.t_expired is None && fresh.t_expired is None && typed.t_expired is None
            && hashed.t_expired is None,
        plain.scope_id == 1 && fresh.scope_id == 1 && typed.scope_id == 1 && hashed.scope_id == 1,
{
}

} // verus!
