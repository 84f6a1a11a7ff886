//! JSON documents, held as `serde_json` values.
//!
//! A [`serde_json::Value`] is opaque to the proofs. Its contents have three
//! names: [`json_encoding`] is its compact serialization, [`json_members`] are
//! the members of an object, and [`json_string`] is the text of a string.

use vstd::prelude::*;

verus! {

/// A JSON document. Its contents are read through the functions below.
#[verifier::external_type_specification]
#[verifier::external_body]
pub struct ExValue(serde_json::Value);

/// The failure of a write.
#[verifier::external_type_specification]
#[verifier::external_body]
pub struct ExIoError(std::io::Error);

/// The compact serialization of the document.
pub uninterp spec fn json_encoding(value: serde_json::Value) -> Seq<u8>;

/// The members of an object, by name; `None` for any other document.
pub uninterp spec fn json_members(value: serde_json::Value) -> Option<
    Map<Seq<char>, serde_json::Value>,
>;

/// The text of a string document; `None` for any other document.
pub uninterp spec fn json_string(value: serde_json::Value) -> Option<Seq<char>>;

/// The integer of a number document that holds one; `None` for any other.
pub uninterp spec fn json_integer(value: serde_json::Value) -> Option<int>;

/// The document is an object.
pub open spec fn is_object(value: serde_json::Value) -> bool {
    json_members(value) is Some
}

/// The document is `{}`.
pub open spec fn is_empty_object(value: serde_json::Value) -> bool {
    json_members(value) == Some(Map::<Seq<char>, serde_json::Value>::empty())
}

/// The text of the string member `name`; `None` when the document is no object,
/// has no such member, or the member is no string.
pub open spec fn member_text(value: serde_json::Value, name: Seq<char>) -> Option<Seq<char>> {
    match json_members(value) {
        Some(members) => if members.contains_key(name) {
            json_string(members[name])
        } else {
            None
        },
        None => None,
    }
}

/// A writer that keeps no bytes, only their number, and fails once that number
/// passes the limit.
pub struct CountingSink {
    pub count: usize,
    pub limit: usize,
}

/// Makes the error of a full [`CountingSink`] with `std::io::Error::other`.
#[verifier::external_body]
fn over_limit() -> std::io::Error {
    std::io::Error::other("payload exceeds limit")
}

impl std::io::Write for CountingSink {
    fn write(&mut self, buf: &[u8]) -> (r: std::io::Result<usize>)
        ensures
            final(self).limit == old(self).limit,
            final(self).count == (if old(self).count + buf@.len() <= usize::MAX {
                old(self).count + buf@.len()
            } else {
                usize::MAX as int
            }),
            final(self).count <= old(self).limit <==> r is Ok,
            r matches Ok(n) ==> n == buf@.len(),
    {
        self.count = self.count.saturating_add(buf.len());
        if self.count > self.limit {
            return Err(over_limit());
        }
        Ok(buf.len())
    }

    fn flush(&mut self) -> (r: std::io::Result<()>)
        ensures
            r is Ok,
            *final(self) == *old(self),
    {
        Ok(())
    }
}

/// What a counter shows of a length: the length, as far as the counter reaches.
pub open spec fn counted(len: nat) -> nat {
    if len <= usize::MAX {
        len
    } else {
        usize::MAX as nat
    }
}

/// `serde_json::to_writer` into an empty counting sink. The call feeds the sink
/// the document's serialization piece by piece and stops at the first piece
/// that the sink refuses; a document has no other way to fail to serialize.
#[verifier::external_body]
fn write_counted(value: &serde_json::Value, sink: &mut CountingSink) -> (fits: bool)
    requires
        old(sink).count == 0,
    ensures
        fits <==> counted(json_encoding(*value).len()) <= old(sink).limit,
        fits ==> final(sink).count == counted(json_encoding(*value).len()),
        !fits ==> old(sink).limit < final(sink).count <= counted(json_encoding(*value).len()),
{
    serde_json::to_writer(sink, value).is_ok()
}

/// The length of the document's serialization, or, once that provably exceeds
/// `limit`, the number of bytes counted so far.
///
/// Nothing is buffered, and serialization stops as soon as the limit is passed.
pub fn serialized_len(value: &serde_json::Value, limit: usize) -> (r: Result<usize, usize>)
    ensures
        match r {
            Ok(n) => n == counted(json_encoding(*value).len()) && n <= limit,
            Err(n) => limit < n <= counted(json_encoding(*value).len()),
        },
{
    let mut sink = CountingSink { count: 0, limit };
    if write_counted(value, &mut sink) {
        Ok(sink.count)
    } else {
        Err(sink.count)
    }
}

/// `serde_json::Value::get` with a member name: the member of that name when
/// the document is an object that has it, else nothing.
#[verifier::external_body]
pub(crate) fn json_get<'a>(value: &'a serde_json::Value, name: &str) -> (r: Option<
    &'a serde_json::Value,
>)
    ensures
        match r {
            Some(member) => json_members(*value) matches Some(members) && members.contains_key(
                name@,
            ) && members[name@] == *member,
            None => json_members(*value) matches Some(members) ==> !members.contains_key(name@),
        },
{
    value.get(name)
}

/// `serde_json::Value::as_str`: the text of a string document, else nothing.
#[verifier::external_body]
pub(crate) fn json_as_str<'a>(value: &'a serde_json::Value) -> (r: Option<&'a str>)
    ensures
        match r {
            Some(text) => json_string(*value) == Some(text@),
            None => json_string(*value) is None,
        },
{
    value.as_str()
}

/// `serde_json::Value::is_object`.
#[verifier::external_body]
pub(crate) fn json_is_object(value: &serde_json::Value) -> (r: bool)
    ensures
        r == is_object(*value),
{
    value.is_object()
}

/// The empty object, `serde_json::Map::new` as a document.
#[verifier::external_body]
pub(crate) fn json_empty_object() -> (r: serde_json::Value)
    ensures
        is_empty_object(r),
{
    serde_json::Value::Object(serde_json::Map::new())
}

/// A string document, `serde_json::Value::String`.
#[verifier::external_body]
pub(crate) fn json_from_text(text: String) -> (r: serde_json::Value)
    ensures
        json_string(r) == Some(text@),
{
    serde_json::Value::String(text)
}

/// A number document, `serde_json::Value::from` of an integer.
#[verifier::external_body]
pub(crate) fn json_from_integer(n: i64) -> (r: serde_json::Value)
    ensures
        json_integer(r) == Some(n as int),
{
    serde_json::Value::from(n)
}

/// `serde_json::Map::insert` on the map of an object: the member `name` now is
/// `member`, whether or not there was one before; the others stay.
#[verifier::external_body]
pub(crate) fn json_insert(value: &mut serde_json::Value, name: &str, member: serde_json::Value)
    requires
        is_object(*old(value)),
    ensures
        json_members(*final(value)) == Some(json_members(*old(value))->0.insert(name@, member)),
{
    value.as_object_mut().unwrap().insert(name.to_owned(), member);
}

/// `serde_json::Value::clone`: a document equal to the given one.
pub assume_specification[ <serde_json::Value as Clone>::clone ](value: &serde_json::Value) -> (r:
    serde_json::Value)
    ensures
        r == *value,
;

/// The text of the string member `name`, if the document has one.
pub fn member_str<'a>(value: &'a serde_json::Value, name: &str) -> (r: Option<&'a str>)
    ensures
        match r {
            Some(text) => member_text(*value, name@) == Some(text@),
            None => member_text(*value, name@) is None,
        },
{
    match json_get(value, name) {
        Some(member) => json_as_str(member),
        None => None,
    }
}

/// The length of a document's encoding is found as long as it is within the limit;
/// beyond it, some number above the limit and no more than the length.
pub proof fn length_is_found_within_the_limit(
    value: &serde_json::Value,
    limit: usize,
    r: Result<usize, usize>,
)
    requires
        call_ensures(serialized_len, (value, limit), r),
    ensures
        json_encoding(*value).len() <= limit ==> r == Ok::<usize, usize>(
            json_encoding(*value).len() as usize,
        ),
        json_encoding(*value).len() > limit && limit < usize::MAX ==> r is Err,
        r matches Err(n) ==> limit < n <= json_encoding(*value).len(),
{
}

/// The text of a member is found just when the document is an object that has the
/// member, and the member is a string.
pub proof fn member_text_is_that_of_a_string(
    value: &serde_json::Value,
    name: &str,
    r: Option<&str>,
)
    requires
        call_ensures(member_str, (value, name), r),
    ensures
        json_members(*value) is None ==> r is None,
        json_members(*value) matches Some(members) && !members.contains_key(name@) ==> r is None,
        json_members(*value) matches Some(members) && members.contains_key(name@) ==> {
            &&& r is Some <==> json_string(json_members(*value)->0[name@]) is Some
            &&& r matches Some(text) ==> json_string(json_members(*value)->0[name@]) == Some(text@)
        },
{
}

} // verus!
