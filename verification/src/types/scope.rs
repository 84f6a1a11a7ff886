//! Scopes: the tree of places that facts belong to.

use crate::text::chars_of;
use vstd::prelude::*;
use vstd::string::StringSliceAdditionalSpecFns;

verus! {

/// A node in the scope tree.
#[derive(Debug, Clone, PartialEq, Eq)]
pub struct ScopeNode {
    pub id: i64,
    pub parent_id: Option<i64>,
    pub label: String,
    pub depth: i64,
}

impl ScopeNode {
    /// A copy of the scope.
    pub fn copied(&self) -> (r: ScopeNode)
        ensures
            r == *self,
    {
        ScopeNode {
            id: self.id,
            parent_id: self.parent_id,
            label: self.label.clone(),
            depth: self.depth,
        }
    }
}

/// Which scopes a query looks at, by path.
#[derive(Debug, Clone, PartialEq, Eq)]
pub enum ScopeQuery {
    /// This scope only.
    Exact(String),
    /// This scope and everything below it.
    Subtree(String),
    /// This scope and everything above it, up to the root.
    Ancestors(String),
    /// Everything above this scope, the scope, and everything below it.
    Inherited(String),
}

/// The largest number of bytes in one segment of a scope path.
pub const MAX_SEGMENT_LEN: usize = 256;

/// The segment is a usable label: not empty, without `/`, and not too long.
pub open spec fn valid_segment(segment: Seq<char>) -> bool {
    &&& segment.len() > 0
    &&& !segment.contains('/')
    &&& crate::limits::byte_len(segment) <= MAX_SEGMENT_LEN
}

/// Checks that a segment of a scope path is a usable label.
pub fn validate_segment(segment: &str) -> (r: Result<(), &'static str>)
    ensures
        r is Ok <==> valid_segment(segment@),
        r matches Err(reason) ==> reason@ == (if segment@.len() == 0 {
            "scope label must not be empty"@
        } else if segment@.contains('/') {
            "scope label must not contain '/'"@
        } else {
            "scope label must be at most 256 bytes"@
        }),
{
    let chars = chars_of(segment);
    if chars.is_empty() {
        return Err("scope label must not be empty");
    }
    let mut i: usize = 0;
    while i < chars.len()
        invariant
            chars@ == segment@,
            chars@.len() > 0,
            i <= chars@.len(),
            forall|j: int| 0 <= j < i ==> chars@[j] != '/',
        decreases chars@.len() - i,
    {
        if chars[i] == '/' {
            return Err("scope label must not contain '/'");
        }
        i = i + 1;
    }
    if segment.as_bytes().len() > MAX_SEGMENT_LEN {
        return Err("scope label must be at most 256 bytes");
    }
    Ok(())
}

/// A label is usable just when it is not empty, has no slash in it, and has no more
/// than 256 bytes; the reason names the first of these that fails.
pub proof fn label_is_refused_for_a_reason(segment: &str, r: Result<(), &'static str>)
    requires
        call_ensures(validate_segment, (segment,), r),
    ensures
        r is Ok <==> segment@.len() > 0 && !segment@.contains('/') && vstd::utf8::encode_utf8(
            segment@,
        ).len() <= 256,
        r is Ok == valid_segment(segment@),
        segment@.len() == 0 ==> (r matches Err(reason) && reason@
            == "scope label must not be empty"@),
        segment@.contains('/') ==> (r matches Err(reason) && reason@
            == "scope label must not contain '/'"@),
        segment@.len() > 0 && !segment@.contains('/') && r is Err ==> (r matches Err(reason)
            && reason@ == "scope label must be at most 256 bytes"@),
{
    if segment@.contains('/') {
        assert(segment@.len() > 0);
    }
}

} // verus!
