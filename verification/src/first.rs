//! The first reported problem of a sequence of checks.

use vstd::prelude::*;

verus! {

/// The first issue of `s` from position `i` on.
pub open spec fn first_issue_from<T>(s: Seq<Option<T>>, i: int) -> Option<T>
    decreases s.len() - i,
{
    if i >= s.len() {
        None
    } else if s[i] is Some {
        s[i]
    } else {
        first_issue_from(s, i + 1)
    }
}

/// The issue at the first position of `s` that has one.
pub open spec fn first_issue<T>(s: Seq<Option<T>>) -> Option<T> {
    first_issue_from(s, 0)
}

proof fn lemma_first_issue_from<T>(s: Seq<Option<T>>, i: int, k: int)
    requires
        0 <= i <= k <= s.len(),
        forall|j: int| i <= j < k ==> (#[trigger] s[j]) is None,
    ensures
        k < s.len() && s[k] is Some ==> first_issue_from(s, i) == s[k],
        k == s.len() ==> first_issue_from(s, i) is None,
    decreases k - i,
{
    if i < k {
        lemma_first_issue_from(s, i + 1, k);
    }
}

/// Once every position before `k` is clean, the first issue is found at `k` or after it.
pub proof fn lemma_first_issue<T>(s: Seq<Option<T>>, k: int)
    requires
        0 <= k <= s.len(),
        forall|j: int| 0 <= j < k ==> (#[trigger] s[j]) is None,
    ensures
        k < s.len() && s[k] is Some ==> first_issue(s) == s[k],
        k == s.len() ==> first_issue(s) is None,
{
    lemma_first_issue_from(s, 0, k);
}

proof fn lemma_first_issue_from_none<T>(s: Seq<Option<T>>, i: int)
    requires
        0 <= i <= s.len(),
    ensures
        first_issue_from(s, i) is None <==> forall|j: int| i <= j < s.len() ==> (#[trigger] s[j]) is None,
    decreases s.len() - i,
{
    if i < s.len() {
        lemma_first_issue_from_none(s, i + 1);
    }
}

/// There is no first issue exactly when no position has an issue.
pub proof fn lemma_first_issue_none<T>(s: Seq<Option<T>>)
    ensures
        first_issue(s) is None <==> forall|j: int| 0 <= j < s.len() ==> (#[trigger] s[j]) is None,
{
    lemma_first_issue_from_none(s, 0);
}

/// The first of two possible issues.
pub open spec fn or_else<T>(a: Option<T>, b: Option<T>) -> Option<T> {
    if a is Some {
        a
    } else {
        b
    }
}

} // verus!
