//! Bounds on what a caller may store.
//!
//! Event payloads, fact metadata and fact content are free-form and stored as
//! they come. Every path that takes them from a caller checks them here.

use crate::error::{ConflictError, MemoryError};
use crate::json::serialized_len;
use crate::types::facts::NewFact;
use vstd::prelude::*;
use vstd::string::StringSliceAdditionalSpecFns;

verus! {

/// The largest number of bytes in a fact's content, and in the serialization of
/// a fact's metadata or an event's payload.
pub const MAX_PAYLOAD_BYTES: usize = 1_048_576;

/// The number of bytes of a text.
pub open spec fn byte_len(text: Seq<char>) -> nat {
    vstd::utf8::encode_utf8(text).len()
}

/// The document is small enough to be stored.
pub open spec fn json_fits(value: serde_json::Value) -> bool {
    crate::json::json_encoding(value).len() <= MAX_PAYLOAD_BYTES
}

/// The text is small enough to be stored.
pub open spec fn text_fits(text: Seq<char>) -> bool {
    byte_len(text) <= MAX_PAYLOAD_BYTES
}

/// The error says that the document, called `kind`, is too large. The size it
/// gives is over the limit, and no more than the true size.
pub open spec fn says_json_too_large(
    e: MemoryError,
    value: serde_json::Value,
    kind: Seq<char>,
) -> bool {
    e matches MemoryError::Conflict(ConflictError::PayloadTooLarge { kind: k, size, limit }) && k@
        == kind && limit == MAX_PAYLOAD_BYTES && MAX_PAYLOAD_BYTES < size
        <= crate::json::json_encoding(value).len()
}

/// The error says that the text, called `kind`, is too large, and how large.
pub open spec fn says_text_too_large(e: MemoryError, text: Seq<char>, kind: Seq<char>) -> bool {
    e matches MemoryError::Conflict(ConflictError::PayloadTooLarge { kind: k, size, limit }) && k@
        == kind && limit == MAX_PAYLOAD_BYTES && size == byte_len(text)
}

/// Refuses a document whose serialization is too large. Counting stops once the
/// limit is passed.
pub fn check_json_size(value: &serde_json::Value, kind: &'static str) -> (r: Result<
    (),
    MemoryError,
>)
    ensures
        r is Ok <==> json_fits(*value),
        r matches Err(e) ==> says_json_too_large(e, *value, kind@),
{
    match serialized_len(value, MAX_PAYLOAD_BYTES) {
        Ok(_) => Ok(()),
        Err(size) => Err(
            MemoryError::Conflict(
                ConflictError::PayloadTooLarge { kind, size, limit: MAX_PAYLOAD_BYTES },
            ),
        ),
    }
}

/// Refuses a text that is too large.
pub fn check_str_size(s: &str, kind: &'static str) -> (r: Result<(), MemoryError>)
    ensures
        r is Ok <==> text_fits(s@),
        r matches Err(e) ==> says_text_too_large(e, s@, kind@),
{
    let size: usize = s.as_bytes().len();
    if size > MAX_PAYLOAD_BYTES {
        return Err(
            MemoryError::Conflict(
                ConflictError::PayloadTooLarge { kind, size, limit: MAX_PAYLOAD_BYTES },
            ),
        );
    }
    Ok(())
}

/// Refuses a fact whose content, or else whose metadata, is too large.
pub fn check_new_fact(fact: &NewFact) -> (r: Result<(), MemoryError>)
    ensures
        r is Ok <==> text_fits(fact.content@) && json_fits(fact.metadata),
        r matches Err(e) ==> if !text_fits(fact.content@) {
            says_text_too_large(e, fact.content@, "fact content"@)
        } else {
            says_json_too_large(e, fact.metadata, "fact metadata"@)
        },
{
    check_str_size(fact.content.as_str(), "fact content")?;
    check_json_size(&fact.metadata, "fact metadata")?;
    Ok(())
}

/// A mebibyte may be stored and no byte more, of a text as of the encoding of a
/// document. The error names what is too large, gives the limit, and a size above
/// it; of a text, its own.
pub proof fn mebibyte_is_the_limit(
    s: &str,
    value: &serde_json::Value,
    kind: &'static str,
    text: Result<(), MemoryError>,
    json: Result<(), MemoryError>,
)
    requires
        call_ensures(check_str_size, (s, kind), text),
        call_ensures(check_json_size, (value, kind), json),
    ensures
        text is Ok <==> vstd::utf8::encode_utf8(s@).len() <= 1024 * 1024,
        json is Ok <==> crate::json::json_encoding(*value).len() <= 1024 * 1024,
        text is Err ==> (text->Err_0 matches MemoryError::Conflict(
            ConflictError::PayloadTooLarge { kind: k, size, limit },
        ) && k@ == kind@ && size == vstd::utf8::encode_utf8(s@).len() && limit == 1024 * 1024),
        json is Err ==> (json->Err_0 matches MemoryError::Conflict(
            ConflictError::PayloadTooLarge { kind: k, size, limit },
        ) && k@ == kind@ && limit < size <= crate::json::json_encoding(*value).len() && limit == 1024
            * 1024),
{
}

/// A fact may be stored when its content and its metadata may; too large a content is
/// told first.
pub proof fn fact_is_as_large_as_its_parts(fact: &NewFact, r: Result<(), MemoryError>)
    requires
        call_ensures(check_new_fact, (fact,), r),
    ensures
        r is Ok <==> vstd::utf8::encode_utf8(fact.content@).len() <= 1024 * 1024
            && crate::json::json_encoding(fact.metadata).len() <= 1024 * 1024,
        vstd::utf8::encode_utf8(fact.content@).len() > 1024 * 1024 ==> (
        r matches Err(MemoryError::Conflict(ConflictError::PayloadTooLarge { kind, .. })) && kind@
            == "fact content"@),
        vstd::utf8::encode_utf8(fact.content@).len() <= 1024 * 1024 && r is Err ==> (
        r->Err_0 matches MemoryError::Conflict(ConflictError::PayloadTooLarge { kind, .. }) && kind@
            == "fact metadata"@),
{
}

} // verus!
