//! Syntactic domain-name validation: dot-separated labels of 1 to 63 ASCII
//! letters, digits or hyphens, with no leading or trailing hyphen and at
//! least one label separator. Pure and deterministic; non-ASCII input is
//! rejected (internationalized names must already be in punycode form).

use vstd::prelude::*;
use crate::model::ClaimError;

verus! {

/// An ASCII letter or digit.
pub open spec fn is_alnum(c: char) -> bool {
    ('a' <= c && c <= 'z') || ('A' <= c && c <= 'Z') || ('0' <= c && c <= '9')
}

/// A character allowed inside a label.
pub open spec fn is_label_char(c: char) -> bool {
    is_alnum(c) || c == '-'
}

/// The character range `[i, j)` of `s` forms one valid label: 1 to 63
/// characters, all letters, digits or hyphens, alphanumeric at both ends.
pub open spec fn valid_label_range(s: Seq<char>, i: int, j: int) -> bool {
    &&& 0 <= i < j <= s.len()
    &&& j - i <= 63
    &&& (forall|k: int| i <= k < j ==> is_label_char(s[k]))
    &&& is_alnum(s[i])
    &&& is_alnum(s[j - 1])
}

/// `[i, j)` is a maximal dot-free run of `s`, bounded by dots or the ends.
pub open spec fn label_segment(s: Seq<char>, i: int, j: int) -> bool {
    &&& 0 <= i <= j <= s.len()
    &&& (i == 0 || s[i - 1] == '.')
    &&& (j == s.len() || s[j] == '.')
    &&& (forall|k: int| i <= k < j ==> s[k] != '.')
}

/// A syntactically valid domain name: non-empty, containing at least one
/// dot, and every maximal dot-free run is a valid label. Empty runs (from
/// leading, trailing or doubled dots) are never valid labels, so such
/// names are rejected.
pub open spec fn valid_domain(s: Seq<char>) -> bool {
    &&& s.len() > 0
    &&& exists|k: int| 0 <= k < s.len() && s[k] == '.'
    &&& forall|i: int, j: int| label_segment(s, i, j) ==> valid_label_range(s, i, j)
}

/// A maximal dot-free run ending at `b` and lying in a dot-free region
/// that starts at `start` must itself start at `start`.
proof fn lemma_segment_starts_at(s: Seq<char>, a: int, b: int, start: int)
    requires
        label_segment(s, a, b),
        0 <= start <= b,
        start == 0 || s[start - 1] == '.',
        forall|k: int| start <= k < b ==> s[k] != '.',
    ensures
        a == start,
{
    if a < start {
        assert(s[start - 1] == '.');
        assert(a <= start - 1 < b);
    } else if a > start {
        assert(s[a - 1] == '.');
        assert(start <= a - 1 < b);
    }
}

fn exec_is_alnum(c: char) -> (r: bool)
    ensures
        r == is_alnum(c),
{
    ('a' <= c && c <= 'z') || ('A' <= c && c <= 'Z') || ('0' <= c && c <= '9')
}

fn exec_is_label_char(c: char) -> (r: bool)
    ensures
        r == is_label_char(c),
{
    exec_is_alnum(c) || c == '-'
}

/// Checks that the character range `[i, j)` of `s` is a valid label.
fn check_label_range(s: &str, i: usize, j: usize) -> (r: bool)
    requires
        i <= j <= s@.len(),
    ensures
        r == valid_label_range(s@, i as int, j as int),
{
    if i >= j {
        return false;
    }
    if j - i > 63 {
        return false;
    }
    if !exec_is_alnum(s.get_char(i)) {
        return false;
    }
    if !exec_is_alnum(s.get_char(j - 1)) {
        return false;
    }
    let mut k: usize = i;
    while k < j
        invariant
            i <= k <= j <= s@.len(),
            i < j,
            j - i <= 63,
            is_alnum(s@[i as int]),
            is_alnum(s@[j - 1]),
            forall|m: int| i <= m < k ==> is_label_char(s@[m]),
        decreases j - k,
    {
        if !exec_is_label_char(s.get_char(k)) {
            return false;
        }
        k += 1;
    }
    true
}

/// Decides whether `s` is a syntactically valid domain name.
pub fn is_valid_domain(s: &str) -> (r: bool)
    ensures
        r == valid_domain(s@),
{
    let n = s.unicode_len();
    if n == 0 {
        return false;
    }
    let mut i: usize = 0;
    let mut start: usize = 0;
    while i < n
        invariant
            n == s@.len(),
            0 < n,
            0 <= start <= i <= n,
            start == 0 || s@[start - 1] == '.',
            forall|k: int| start <= k < i ==> s@[k] != '.',
            forall|a: int, b: int|
                label_segment(s@, a, b) && b < start ==> valid_label_range(s@, a, b),
        decreases n - i,
    {
        let c = s.get_char(i);
        if c == '.' {
            if !check_label_range(s, start, i) {
                proof {
                    assert(label_segment(s@, start as int, i as int));
                }
                return false;
            }
            proof {
                assert forall|a: int, b: int|
                    label_segment(s@, a, b) && b < i + 1 implies valid_label_range(
                    s@,
                    a,
                    b,
                ) by {
                    if b >= start {
                        assert(s@[b] == '.' || b == s@.len());
                        assert(b == i);
                        lemma_segment_starts_at(s@, a, b, start as int);
                    }
                }
            }
            start = i + 1;
        }
        i += 1;
    }
    if !check_label_range(s, start, n) {
        proof {
            assert(label_segment(s@, start as int, n as int));
        }
        return false;
    }
    if start == 0 {
        // no separator was seen anywhere in the name
        return false;
    }
    proof {
        assert(s@[start - 1] == '.');
        assert forall|a: int, b: int| label_segment(s@, a, b) implies valid_label_range(
            s@,
            a,
            b,
        ) by {
            if b >= start {
                if b < s@.len() {
                    assert(s@[b] == '.');
                    assert(false);
                }
                lemma_segment_starts_at(s@, a, b, start as int);
            }
        }
    }
    true
}

/// Validates a domain name, per the registry's syntactic rules.
pub fn validate(s: &str) -> (r: Result<(), ClaimError>)
    ensures
        r is Ok <==> valid_domain(s@),
        r is Err ==> r == Err::<(), ClaimError>(ClaimError::InvalidDomain),
{
    if is_valid_domain(s) {
        Ok(())
    } else {
        Err(ClaimError::InvalidDomain)
    }
}

} // verus!
