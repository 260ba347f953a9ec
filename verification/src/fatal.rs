//! Fatal error detection for query execution.
//!
//! Some failures mean that nothing the engine answers can be trusted
//! (network failures, authentication failures); others are normal outcomes
//! of an operation (a resource that is not found) that retry and state
//! checks handle.
use vstd::prelude::*;
use crate::text::{chars_of, contains, contains_chars};

verus! {

/// Error patterns that mark a fatal, non-retryable failure, in the order in
/// which they are tried.
pub open spec fn fatal_patterns() -> Seq<Seq<char>> {
    seq![
        "dial tcp:"@,
        "Client.Timeout exceeded"@,
        "connection refused"@,
        "no such host"@,
        "request canceled while waiting for connection"@,
        "request canceled (Client.Timeout"@,
        "tls: handshake"@,
        "certificate"@,
        "network is unreachable"@,
        "connection reset by peer"@,
        "broken pipe"@,
        "EOF"@,
        "http response status code: 401"@,
        "http response status code: 403"@,
    ]
}

/// Patterns that make an error non-fatal even where a fatal pattern matches.
pub open spec fn non_fatal_overrides() -> Seq<Seq<char>> {
    seq![
        "http response status code: 404"@,
        "ResourceNotFoundException"@,
        "was not found"@,
    ]
}

/// The first index at or after `i` of a pattern of `pats` that `msg` contains.
pub open spec fn first_contained(msg: Seq<char>, pats: Seq<Seq<char>>, i: int) -> Option<int>
    decreases pats.len() - i,
{
    if i < 0 || i >= pats.len() {
        None
    } else if contains(msg, pats[i]) {
        Some(i)
    } else {
        first_contained(msg, pats, i + 1)
    }
}

/// The reason for which `msg` is fatal: the first fatal pattern it contains,
/// unless it contains a non-fatal override.
pub open spec fn fatal_reason(msg: Seq<char>) -> Option<Seq<char>> {
    if exists|j: int| 0 <= j < non_fatal_overrides().len() && contains(msg, #[trigger] non_fatal_overrides()[j]) {
        None
    } else {
        match first_contained(msg, fatal_patterns(), 0) {
            Some(j) => Some(fatal_patterns()[j]),
            None => None,
        }
    }
}

fn fatal_pattern(i: usize) -> (p: &'static str)
    requires
        i < 14,
    ensures
        p@ == fatal_patterns()[i as int],
{
    if i == 0 { "dial tcp:" }
    else if i == 1 { "Client.Timeout exceeded" }
    else if i == 2 { "connection refused" }
    else if i == 3 { "no such host" }
    else if i == 4 { "request canceled while waiting for connection" }
    else if i == 5 { "request canceled (Client.Timeout" }
    else if i == 6 { "tls: handshake" }
    else if i == 7 { "certificate" }
    else if i == 8 { "network is unreachable" }
    else if i == 9 { "connection reset by peer" }
    else if i == 10 { "broken pipe" }
    else if i == 11 { "EOF" }
    else if i == 12 { "http response status code: 401" }
    else { "http response status code: 403" }
}

fn non_fatal_override(i: usize) -> (p: &'static str)
    requires
        i < 3,
    ensures
        p@ == non_fatal_overrides()[i as int],
{
    if i == 0 { "http response status code: 404" }
    else if i == 1 { "ResourceNotFoundException" }
    else { "was not found" }
}

/// Check whether an error message marks a fatal, non-retryable failure.
///
/// Returns the fatal pattern that matched, or `None` where the error is an
/// ordinary one that retries or state checks handle.
pub fn check_fatal_error(error_msg: &str) -> (r: Option<&'static str>)
    ensures
        match r {
            Some(p) => fatal_reason(error_msg@) == Some(p@),
            None => fatal_reason(error_msg@) is None,
        },
{
    let msg = chars_of(error_msg);
    let mut i: usize = 0;
    while i < 3
        invariant
            i <= 3,
            msg@ == error_msg@,
            forall|j: int| 0 <= j < i ==> !contains(msg@, #[trigger] non_fatal_overrides()[j]),
        decreases 3 - i,
    {
        let p = chars_of(non_fatal_override(i));
        if contains_chars(msg.as_slice(), p.as_slice()) {
            assert(contains(msg@, non_fatal_overrides()[i as int]));
            return None;
        }
        i = i + 1;
    }
    assert(!exists|j: int| 0 <= j < non_fatal_overrides().len() && contains(msg@, #[trigger] non_fatal_overrides()[j]));
    let mut k: usize = 0;
    while k < 14
        invariant
            k <= 14,
            msg@ == error_msg@,
            first_contained(msg@, fatal_patterns(), 0) == first_contained(msg@, fatal_patterns(), k as int),
            !exists|j: int| 0 <= j < non_fatal_overrides().len() && contains(msg@, #[trigger] non_fatal_overrides()[j]),
        decreases 14 - k,
    {
        let pat = fatal_pattern(k);
        let p = chars_of(pat);
        if contains_chars(msg.as_slice(), p.as_slice()) {
            assert(fatal_patterns().len() == 14);
            assert(first_contained(msg@, fatal_patterns(), k as int) == Some(k as int));
            return Some(pat);
        }
        k = k + 1;
    }
    assert(fatal_patterns().len() == 14);
    None
}

/// An error that names a missing resource is never fatal, whatever else it
/// holds: the overrides win over every fatal pattern.
pub proof fn law_not_found_is_never_fatal(msg: Seq<char>, j: int)
    requires
        0 <= j < non_fatal_overrides().len(),
        contains(msg, non_fatal_overrides()[j]),
    ensures
        fatal_reason(msg) is None,
{
}

/// An error is fatal only for a fatal pattern that it contains.
pub proof fn law_fatal_reason_is_contained(msg: Seq<char>)
    ensures
        fatal_reason(msg) matches Some(p) ==> contains(msg, p)
            && exists|j: int| 0 <= j < fatal_patterns().len() && fatal_patterns()[j] == p,
{
    if fatal_reason(msg) is Some {
        lemma_first_contained(msg, fatal_patterns(), 0);
    }
}

pub proof fn lemma_first_contained(msg: Seq<char>, pats: Seq<Seq<char>>, i: int)
    ensures
        first_contained(msg, pats, i) matches Some(j) ==> i <= j < pats.len() && contains(msg, pats[j]),
    decreases pats.len() - i,
{
    if 0 <= i < pats.len() && !contains(msg, pats[i]) {
        lemma_first_contained(msg, pats, i + 1);
    }
}

} // verus!
