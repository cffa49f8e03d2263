//! Byte-level substring search.

use vstd::prelude::*;

verus! {

/// `pattern` lies in `body` at offset `at`.
pub open spec fn occurs_at(body: Seq<u8>, pattern: Seq<u8>, at: int) -> bool {
    &&& 0 <= at
    &&& at + pattern.len() <= body.len()
    &&& body.subrange(at, at + pattern.len()) == pattern
}

/// `pattern` lies somewhere in `body`. The empty pattern lies in every body.
pub open spec fn occurs(body: Seq<u8>, pattern: Seq<u8>) -> bool {
    exists|at: int| occurs_at(body, pattern, at)
}

/// An occurrence is a window of the body that equals the pattern byte for
/// byte: nothing is decoded, so neither the body nor the pattern needs to be
/// text, and an occurrence may begin or end inside a character.
pub proof fn lemma_occurrence_is_bytewise(body: Seq<u8>, pattern: Seq<u8>, at: int)
    ensures
        occurs_at(body, pattern, at) <==> {
            &&& 0 <= at
            &&& at + pattern.len() <= body.len()
            &&& forall|offset: int| 0 <= offset < pattern.len() ==> body[at + offset] == pattern[offset]
        },
{
    if 0 <= at && at + pattern.len() <= body.len() {
        let window = body.subrange(at, at + pattern.len());
        if forall|offset: int| 0 <= offset < pattern.len() ==> body[at + offset] == pattern[offset] {
            assert(window =~= pattern);
        }
        if window == pattern {
            assert forall|offset: int| 0 <= offset < pattern.len() implies body[at + offset]
                == pattern[offset] by {
                assert(window[offset] == body[at + offset]);
            }
        }
    }
}

/// Calls `memchr::memmem::find`, which returns the offset of the first
/// occurrence of the needle in the haystack, or `None` where there is none.
/// The contract claims exactly that: the offset returned is an occurrence,
/// no smaller offset is one, and `None` means that no offset is one. For the
/// empty needle the outside function answers `Some(0)`, which the same
/// statement covers. Not proved: it rests on the outside crate.
#[verifier::external_body]
fn first_occurrence(body: &[u8], pattern: &[u8]) -> (found: Option<usize>)
    ensures
        match found {
            Some(at) => {
                &&& occurs_at(body@, pattern@, at as int)
                &&& forall|earlier: int| 0 <= earlier < at ==> !occurs_at(body@, pattern@, earlier)
            },
            None => forall|at: int| !occurs_at(body@, pattern@, at),
        },
{
    memchr::memmem::find(body, pattern)
}

/// Whether `pattern` occurs in `body`, compared byte by byte: no decoding,
/// no normalisation.
pub fn pattern_matches(body: &[u8], pattern: &[u8]) -> (matched: bool)
    ensures
        matched == occurs(body@, pattern@),
{
    first_occurrence(body, pattern).is_some()
}

} // verus!
