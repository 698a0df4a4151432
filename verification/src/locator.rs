//! The pattern locator: find the unique occurrence of a sentinel byte
//! pattern inside a compiled byte buffer.
//!
//! A placeholder's pattern must occur exactly once in the buffer it marks.
//! Zero occurrences mean the template and the configuration disagree; two or
//! more mean two fields were accidentally given the same sentinel. Both are
//! reported loudly, never papered over.

use vstd::prelude::*;

use crate::error::Error;

verus! {

/// A named sentinel byte pattern marking a substitutable region of
/// compiled bytecode.
pub struct Placeholder {
    pub name: String,
    pub pattern: Vec<u8>,
}

/// A half-open byte range; `excluded_end - start` equals the width of the
/// pattern that was located.
#[derive(Clone, Copy, PartialEq, Eq, Structural, Debug)]
pub struct ByteRange {
    pub start: usize,
    pub excluded_end: usize,
}

/// The pattern occurs in the buffer starting at position `i`.
pub open spec fn matches_at(buffer: Seq<u8>, pattern: Seq<u8>, i: int) -> bool {
    &&& 0 <= i
    &&& i + pattern.len() <= buffer.len()
    &&& buffer.subrange(i, i + pattern.len() as int) == pattern
}

/// How many positions below `n` the pattern occurs at.
pub open spec fn count_matches_up_to(buffer: Seq<u8>, pattern: Seq<u8>, n: int) -> nat
    decreases n,
{
    if n <= 0 {
        0
    } else {
        count_matches_up_to(buffer, pattern, n - 1) + (if matches_at(buffer, pattern, n - 1) {
            1nat
        } else {
            0nat
        })
    }
}

/// How many times the pattern occurs in the buffer.
pub open spec fn count_matches(buffer: Seq<u8>, pattern: Seq<u8>) -> nat {
    count_matches_up_to(buffer, pattern, buffer.len() - pattern.len() + 1)
}

/// Some position the pattern occurs at, when one exists.
pub open spec fn match_index(buffer: Seq<u8>, pattern: Seq<u8>) -> int {
    choose|i: int| matches_at(buffer, pattern, i)
}

/// A match position lies below the count's upper scan bound.
proof fn lemma_match_below_bound(buffer: Seq<u8>, pattern: Seq<u8>, i: int)
    requires
        matches_at(buffer, pattern, i),
    ensures
        i < buffer.len() - pattern.len() + 1,
{
}

/// A match below `n` contributes at least one to the count up to `n`.
proof fn lemma_count_at_least_one(buffer: Seq<u8>, pattern: Seq<u8>, i: int, n: int)
    requires
        matches_at(buffer, pattern, i),
        i < n,
    ensures
        count_matches_up_to(buffer, pattern, n) >= 1,
    decreases n,
{
    if n - 1 != i {
        lemma_count_at_least_one(buffer, pattern, i, n - 1);
    }
}

/// The count up to `n` grows with `n`.
proof fn lemma_count_mono(buffer: Seq<u8>, pattern: Seq<u8>, m: int, n: int)
    requires
        m <= n,
    ensures
        count_matches_up_to(buffer, pattern, m) <= count_matches_up_to(buffer, pattern, n),
    decreases n - m,
{
    if m < n {
        lemma_count_mono(buffer, pattern, m, n - 1);
    }
}

/// With no match anywhere, every count is zero.
proof fn lemma_count_none(buffer: Seq<u8>, pattern: Seq<u8>, n: int)
    requires
        forall|i: int| !matches_at(buffer, pattern, i),
    ensures
        count_matches_up_to(buffer, pattern, n) == 0,
    decreases n,
{
    if n > 0 {
        lemma_count_none(buffer, pattern, n - 1);
    }
}

/// With a single match position `i`, the count up to `n` is one past `i`
/// and zero before it.
proof fn lemma_count_unique(buffer: Seq<u8>, pattern: Seq<u8>, i: int, n: int)
    requires
        matches_at(buffer, pattern, i),
        forall|j: int| matches_at(buffer, pattern, j) ==> j == i,
    ensures
        count_matches_up_to(buffer, pattern, n) == if i < n {
            1nat
        } else {
            0nat
        },
    decreases n,
{
    if n > 0 {
        lemma_count_unique(buffer, pattern, i, n - 1);
    }
}

/// A pattern with a single match position occurs exactly once.
pub proof fn lemma_unique_count(buffer: Seq<u8>, pattern: Seq<u8>, i: int)
    requires
        matches_at(buffer, pattern, i),
        forall|j: int| matches_at(buffer, pattern, j) ==> j == i,
    ensures
        count_matches(buffer, pattern) == 1,
{
    lemma_match_below_bound(buffer, pattern, i);
    lemma_count_unique(buffer, pattern, i, buffer.len() - pattern.len() + 1);
}

/// Two distinct match positions push the occurrence count to two or more.
pub proof fn lemma_two_matches_count(buffer: Seq<u8>, pattern: Seq<u8>, i: int, j: int)
    requires
        matches_at(buffer, pattern, i),
        matches_at(buffer, pattern, j),
        i < j,
    ensures
        count_matches(buffer, pattern) >= 2,
{
    lemma_count_at_least_one(buffer, pattern, i, j);
    assert(count_matches_up_to(buffer, pattern, j + 1) >= 2);
    lemma_match_below_bound(buffer, pattern, j);
    lemma_count_mono(buffer, pattern, j + 1, buffer.len() - pattern.len() + 1);
}

/// A positive occurrence count names at least one match position.
pub proof fn lemma_count_pos_exists(buffer: Seq<u8>, pattern: Seq<u8>)
    requires
        count_matches(buffer, pattern) >= 1,
    ensures
        exists|i: int| matches_at(buffer, pattern, i),
{
    if forall|i: int| !matches_at(buffer, pattern, i) {
        lemma_count_none(buffer, pattern, buffer.len() - pattern.len() + 1);
    }
}

/// What `locate` reports on failure: not found exactly when the pattern
/// occurs nowhere, ambiguous (with the occurrence count) exactly when it
/// occurs more than once.
pub open spec fn locate_err(name: Seq<char>, pattern: Seq<u8>, buffer: Seq<u8>, e: Error) -> bool {
    if count_matches(buffer, pattern) == 0 {
        e matches Error::PlaceholderNotFound { name: n } && n@ == name
    } else {
        &&& count_matches(buffer, pattern) >= 2
        &&& e matches Error::AmbiguousPlaceholder { name: n, occurrences } && n@ == name
            && occurrences == count_matches(buffer, pattern)
    }
}

/// The full contract of `locate`: on success the returned range starts at
/// the buffer's only match position and spans the pattern's width; on
/// failure the error says which way the invariant broke.
pub open spec fn locate_post(
    name: Seq<char>,
    pattern: Seq<u8>,
    buffer: Seq<u8>,
    r: Result<ByteRange, Error>,
) -> bool {
    match r {
        Ok(range) => {
            &&& matches_at(buffer, pattern, range.start as int)
            &&& range.excluded_end == range.start + pattern.len()
            &&& forall|j: int| matches_at(buffer, pattern, j) ==> j == range.start
        },
        Err(e) => locate_err(name, pattern, buffer, e),
    }
}

/// Whether the pattern occurs in the buffer starting at position `i`.
fn pattern_matches_at(buffer: &[u8], pattern: &[u8], i: usize) -> (b: bool)
    requires
        i + pattern@.len() <= buffer@.len(),
    ensures
        b == matches_at(buffer@, pattern@, i as int),
{
    let plen = pattern.len();
    let blen = buffer.len();
    let mut k: usize = 0;
    while k < plen
        invariant
            plen == pattern@.len(),
            blen == buffer@.len(),
            i + plen <= blen,
            k <= plen,
            forall|t: int| 0 <= t < k ==> buffer@[i + t] == pattern@[t],
        decreases plen - k,
    {
        if buffer[i + k] != pattern[k] {
            proof {
                let sub = buffer@.subrange(i as int, i + plen as int);
                assert(sub[k as int] == buffer@[i + k]);
                assert(sub[k as int] != pattern@[k as int]);
            }
            return false;
        }
        k = k + 1;
    }
    proof {
        assert(buffer@.subrange(i as int, i + plen as int) =~= pattern@);
    }
    true
}

/// Find the unique occurrence of the placeholder's pattern in the buffer.
///
/// Scans left to right; zero occurrences fail with not found, two or more
/// fail with ambiguous. The result depends on the buffer and pattern alone.
pub fn locate(placeholder: &Placeholder, buffer: &[u8]) -> (r: Result<ByteRange, Error>)
    requires
        placeholder.pattern@.len() >= 1,
    ensures
        locate_post(placeholder.name@, placeholder.pattern@, buffer@, r),
{
    let plen = placeholder.pattern.len();
    let blen = buffer.len();
    let ghost pat = placeholder.pattern@;
    let mut count: usize = 0;
    let mut first: usize = 0;
    let mut found = false;
    if plen <= blen {
        let n = blen - plen + 1;
        let mut i: usize = 0;
        while i < n
            invariant
                pat == placeholder.pattern@,
                plen == pat.len(),
                blen == buffer@.len(),
                1 <= plen <= blen,
                n == blen - plen + 1,
                i <= n,
                count == count_matches_up_to(buffer@, pat, i as int),
                count <= i,
                found <==> count >= 1,
                found ==> matches_at(buffer@, pat, first as int),
            decreases n - i,
        {
            if pattern_matches_at(buffer, placeholder.pattern.as_slice(), i) {
                if !found {
                    first = i;
                    found = true;
                }
                count = count + 1;
            }
            i = i + 1;
        }
    }
    proof {
        if plen > blen {
            assert(count_matches(buffer@, pat) == 0);
            assert(forall|j: int| !matches_at(buffer@, pat, j));
        } else {
            assert(count == count_matches(buffer@, pat));
        }
    }
    if count == 0 {
        proof {
            if exists|j: int| matches_at(buffer@, pat, j) {
                let j = choose|j: int| matches_at(buffer@, pat, j);
                lemma_match_below_bound(buffer@, pat, j);
                lemma_count_at_least_one(buffer@, pat, j, buffer@.len() - pat.len() + 1);
            }
        }
        Err(Error::PlaceholderNotFound { name: placeholder.name.clone() })
    } else if count == 1 {
        proof {
            assert forall|j: int| matches_at(buffer@, pat, j) implies j == first as int by {
                if j != first as int {
                    if j < first as int {
                        lemma_two_matches_count(buffer@, pat, j, first as int);
                    } else {
                        lemma_two_matches_count(buffer@, pat, first as int, j);
                    }
                }
            }
        }
        Ok(ByteRange { start: first, excluded_end: first + plen })
    } else {
        Err(
            Error::AmbiguousPlaceholder {
                name: placeholder.name.clone(),
                occurrences: count,
            },
        )
    }
}

/// What `locate` is allowed to answer is a function of the name, pattern
/// and buffer alone: any two answers that meet its contract agree, up to
/// the text carried inside an error.
pub open spec fn same_locate_outcome(r1: Result<ByteRange, Error>, r2: Result<ByteRange, Error>) -> bool {
    match (r1, r2) {
        (Ok(a), Ok(b)) => a == b,
        (Err(e1), Err(e2)) => match (e1, e2) {
            (
                Error::PlaceholderNotFound { name: a },
                Error::PlaceholderNotFound { name: b },
            ) => a@ == b@,
            (
                Error::AmbiguousPlaceholder { name: a, occurrences: oa },
                Error::AmbiguousPlaceholder { name: b, occurrences: ob },
            ) => a@ == b@ && oa == ob,
            _ => false,
        },
        _ => false,
    }
}

/// A pattern that occurs nowhere in the buffer is reported as not found,
/// under the placeholder's own name.
pub proof fn lemma_locate_absent(
    name: Seq<char>,
    pattern: Seq<u8>,
    buffer: Seq<u8>,
    r: Result<ByteRange, Error>,
)
    requires
        locate_post(name, pattern, buffer, r),
        forall|i: int| !matches_at(buffer, pattern, i),
    ensures
        r matches Err(e) && e matches Error::PlaceholderNotFound { name: n } && n@ == name,
{
    lemma_count_none(buffer, pattern, buffer.len() - pattern.len() + 1);
}

/// A pattern with exactly one occurrence is located there: the reported
/// range starts at that occurrence, spans the pattern's width, and slicing
/// the buffer with it gives back the pattern itself.
pub proof fn lemma_locate_unique(
    name: Seq<char>,
    pattern: Seq<u8>,
    buffer: Seq<u8>,
    r: Result<ByteRange, Error>,
    i: int,
)
    requires
        locate_post(name, pattern, buffer, r),
        matches_at(buffer, pattern, i),
        forall|j: int| matches_at(buffer, pattern, j) ==> j == i,
    ensures
        r matches Ok(range) && {
            &&& range.start == i
            &&& range.excluded_end == i + pattern.len()
            &&& buffer.subrange(range.start as int, range.excluded_end as int) == pattern
        },
{
    lemma_unique_count(buffer, pattern, i);
}

/// A pattern with two distinct occurrences is never silently resolved: the
/// answer is the ambiguity error, counting at least both occurrences.
pub proof fn lemma_locate_ambiguous(
    name: Seq<char>,
    pattern: Seq<u8>,
    buffer: Seq<u8>,
    r: Result<ByteRange, Error>,
    i: int,
    j: int,
)
    requires
        locate_post(name, pattern, buffer, r),
        matches_at(buffer, pattern, i),
        matches_at(buffer, pattern, j),
        i != j,
    ensures
        r matches Err(e) && e matches Error::AmbiguousPlaceholder { name: n, occurrences } && {
            &&& n@ == name
            &&& occurrences >= 2
        },
{
    if i < j {
        lemma_two_matches_count(buffer, pattern, i, j);
    } else {
        lemma_two_matches_count(buffer, pattern, j, i);
    }
    if r is Ok {
        let range = r->Ok_0;
        assert(i == range.start as int && j == range.start as int);
    }
}

/// Locating is deterministic: any two results that meet the locator's
/// contract on the same inputs agree.
pub proof fn lemma_locate_deterministic(
    name: Seq<char>,
    pattern: Seq<u8>,
    buffer: Seq<u8>,
    r1: Result<ByteRange, Error>,
    r2: Result<ByteRange, Error>,
)
    requires
        locate_post(name, pattern, buffer, r1),
        locate_post(name, pattern, buffer, r2),
    ensures
        same_locate_outcome(r1, r2),
{
    let c = count_matches(buffer, pattern);
    if c >= 1 {
        lemma_count_pos_exists(buffer, pattern);
    }
    match (r1, r2) {
        (Ok(a), Ok(b)) => {
            assert(matches_at(buffer, pattern, b.start as int));
            assert(a.start == b.start);
        },
        (Ok(a), Err(e)) => {
            lemma_unique_count(buffer, pattern, a.start as int);
        },
        (Err(e), Ok(b)) => {
            lemma_unique_count(buffer, pattern, b.start as int);
        },
        (Err(e1), Err(e2)) => {},
    }
}

} // verus!
