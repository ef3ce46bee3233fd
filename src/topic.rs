//! Hierarchical topics: `/`-separated segments, where a subscription pattern may
//! use `+` (one segment) and `#` (all remaining segments).

use vstd::prelude::*;
use crate::event::IndraEvent;

verus! {

/// True when `s` holds one of the wildcard characters `+` or `#`.
pub open spec fn has_wildcard(s: Seq<char>) -> bool {
    exists|i: int| 0 <= i < s.len() && (s[i] == '+' || s[i] == '#')
}

/// What is left of the pattern once the topic is used up is acceptable:
/// nothing, a single trailing `+` or `#`, or a trailing `#` segment (which
/// matches zero segments).
pub open spec fn tail_accepts(p: Seq<char>, k: int) -> bool {
    ||| k == p.len()
    ||| (k + 1 == p.len() && (p[k] == '+' || p[k] == '#'))
    ||| (k + 2 == p.len() && p[k] == '/' && p[k + 1] == '#')
}

/// The matcher's walk: `i` is the position in the topic `t`, `k` the cursor in
/// the pattern `p`, and `skip` is set while a `+` is consuming the rest of a
/// topic segment.
pub open spec fn walk(t: Seq<char>, p: Seq<char>, i: int, k: int, skip: bool) -> bool
    decreases t.len() - i,
{
    if i < 0 || i >= t.len() {
        tail_accepts(p, k)
    } else if skip {
        if t[i] == '/' {
            walk(t, p, i + 1, k + 1, false)
        } else {
            walk(t, p, i + 1, k, true)
        }
    } else if k < 0 || k >= p.len() {
        false
    } else if t[i] == p[k] {
        walk(t, p, i + 1, k + 1, false)
    } else if p[k] == '#' {
        true
    } else if p[k] == '+' {
        walk(t, p, i + 1, k + 1, true)
    } else {
        false
    }
}

/// A published topic matches a pattern when it holds no wildcard itself and the
/// walk over both succeeds.
pub open spec fn topic_matches(t: Seq<char>, p: Seq<char>) -> bool {
    !has_wildcard(t) && walk(t, p, 0, 0, false)
}

/// Some pattern of `subs` matches the topic.
pub open spec fn any_matches(t: Seq<char>, subs: Seq<Seq<char>>) -> bool {
    exists|j: int| 0 <= j < subs.len() && topic_matches(t, #[trigger] subs[j])
}

/// A topic is routed when one subscription matches it and no block does.
pub open spec fn route_accepts(
    t: Seq<char>,
    subs: Seq<Seq<char>>,
    blocks: Option<Seq<Seq<char>>>,
) -> bool {
    any_matches(t, subs) && match blocks {
        Some(b) => !any_matches(t, b),
        None => true,
    }
}

/// The part of `s` before its first `sep` (all of `s` when it has none).
pub open spec fn first_segment(s: Seq<char>, sep: char) -> Seq<char>
    decreases s.len(),
{
    if s.len() == 0 {
        s
    } else if s[0] == sep {
        Seq::empty()
    } else {
        seq![s[0]] + first_segment(s.drop_first(), sep)
    }
}

/// `first_segment` is the prefix before the first separator.
proof fn lemma_first_segment_prefix(s: Seq<char>, sep: char, i: int)
    requires
        0 <= i <= s.len(),
        forall|j: int| 0 <= j < i ==> s[j] != sep,
        i == s.len() || s[i] == sep,
    ensures
        first_segment(s, sep) == s.subrange(0, i),
    decreases i,
{
    if i == 0 {
        assert(s.subrange(0, 0) =~= Seq::<char>::empty());
    } else {
        let t = s.drop_first();
        assert forall|j: int| 0 <= j < i - 1 implies t[j] != sep by {
            assert(t[j] == s[j + 1]);
        }
        lemma_first_segment_prefix(t, sep, i - 1);
        assert(seq![s[0]] + t.subrange(0, i - 1) =~= s.subrange(0, i));
    }
}

/// `first_segment` is a prefix without the separator, followed by the
/// separator unless it is all of `s`.
pub proof fn lemma_first_segment_is_prefix(s: Seq<char>, sep: char)
    ensures
        first_segment(s, sep).len() <= s.len(),
        first_segment(s, sep) == s.subrange(0, first_segment(s, sep).len() as int),
        forall|j: int| 0 <= j < first_segment(s, sep).len() ==> s[j] != sep,
        first_segment(s, sep).len() < s.len() ==> s[first_segment(s, sep).len() as int] == sep,
    decreases s.len(),
{
    if s.len() > 0 && s[0] != sep {
        let t = s.drop_first();
        lemma_first_segment_is_prefix(t, sep);
        assert(seq![s[0]] + t.subrange(0, first_segment(t, sep).len() as int) =~= s.subrange(
            0,
            first_segment(s, sep).len() as int,
        ));
        assert forall|j: int| 0 <= j < first_segment(s, sep).len() implies s[j] != sep by {
            if j > 0 {
                assert(s[j] == t[j - 1]);
            }
        }
    } else if s.len() > 0 {
        assert(s.subrange(0, 0) =~= Seq::<char>::empty());
    } else {
        assert(s.subrange(0, 0) =~= s);
    }
}

/// The part of `s` before its first `sep`.
pub fn first_segment_of(s: &str, sep: char) -> (r: &str)
    ensures
        r@ == first_segment(s@, sep),
{
    let n = s.unicode_len();
    let mut i: usize = 0;
    while i < n
        invariant
            n == s@.len(),
            i <= n,
            forall|j: int| 0 <= j < i ==> s@[j] != sep,
        ensures
            i <= n,
            i == n || s@[i as int] == sep,
            forall|j: int| 0 <= j < i ==> s@[j] != sep,
        decreases n - i,
    {
        if s.get_char(i) == sep {
            break;
        }
        i = i + 1;
    }
    proof {
        lemma_first_segment_prefix(s@, sep, i as int);
    }
    s.substring_char(0, i)
}

/// A matching block vetoes a matching subscription.
pub proof fn lemma_block_vetoes(
    t: Seq<char>,
    subs: Seq<Seq<char>>,
    blocks: Seq<Seq<char>>,
    j: int,
)
    requires
        0 <= j < blocks.len(),
        topic_matches(t, blocks[j]),
    ensures
        !route_accepts(t, subs, Some(blocks)),
{
}

/// A topic that matches two subscriptions and no block is routed.
pub proof fn lemma_unblocked_subscriptions_route(
    t: Seq<char>,
    subs: Seq<Seq<char>>,
    blocks: Seq<Seq<char>>,
    i: int,
    j: int,
)
    requires
        0 <= i < subs.len(),
        0 <= j < subs.len(),
        i != j,
        topic_matches(t, subs[i]),
        topic_matches(t, subs[j]),
        forall|q: int| 0 <= q < blocks.len() ==> !topic_matches(t, #[trigger] blocks[q]),
    ensures
        route_accepts(t, subs, Some(blocks)),
{
}

/// A published topic that holds a wildcard matches no pattern.
pub proof fn lemma_wildcard_topic_never_matches(t: Seq<char>, p: Seq<char>)
    requires
        has_wildcard(t),
    ensures
        !topic_matches(t, p),
{
}

/// `s` begins with `p`.
pub open spec fn starts_with(s: Seq<char>, p: Seq<char>) -> bool {
    p.len() <= s.len() && s.subrange(0, p.len() as int) == p
}

/// Whether `s` begins with `p`.
pub fn has_prefix(s: &str, p: &str) -> (r: bool)
    ensures
        r == starts_with(s@, p@),
{
    let n = s.unicode_len();
    let m = p.unicode_len();
    if m > n {
        return false;
    }
    let mut i: usize = 0;
    while i < m
        invariant
            n == s@.len(),
            m == p@.len(),
            m <= n,
            i <= m,
            forall|j: int| 0 <= j < i ==> s@[j] == p@[j],
        decreases m - i,
    {
        if s.get_char(i) != p.get_char(i) {
            assert(s@.subrange(0, m as int)[i as int] != p@[i as int]);
            return false;
        }
        i = i + 1;
    }
    assert(s@.subrange(0, m as int) =~= p@);
    true
}

/// Character-wise equality of two strings.
pub fn str_equal(a: &str, b: &str) -> (r: bool)
    ensures
        r == (a@ == b@),
{
    let n = a.unicode_len();
    let m = b.unicode_len();
    if n != m {
        return false;
    }
    let mut i: usize = 0;
    while i < n
        invariant
            n == a@.len(),
            m == b@.len(),
            n == m,
            i <= n,
            forall|j: int| 0 <= j < i ==> a@[j] == b@[j],
        decreases n - i,
    {
        if a.get_char(i) != b.get_char(i) {
            return false;
        }
        i = i + 1;
    }
    assert(a@ =~= b@);
    true
}

/// Whether `s` holds `c`.
fn contains_char(s: &str, c: char) -> (r: bool)
    ensures
        r == exists|i: int| 0 <= i < s@.len() && s@[i] == c,
{
    let n = s.unicode_len();
    let mut i: usize = 0;
    while i < n
        invariant
            n == s@.len(),
            i <= n,
            forall|j: int| 0 <= j < i ==> s@[j] != c,
        decreases n - i,
    {
        if s.get_char(i) == c {
            return true;
        }
        i = i + 1;
    }
    false
}

/// The views of a sequence of strings.
pub open spec fn strings_view(v: Seq<String>) -> Seq<Seq<char>> {
    v.map_values(|s: String| s@)
}

/// Whether some pattern of `pats` matches the topic `t`.
pub fn any_match(t: &str, pats: &Vec<String>) -> (r: bool)
    ensures
        r == any_matches(t@, strings_view(pats@)),
{
    let ghost pv = strings_view(pats@);
    let mut j: usize = 0;
    while j < pats.len()
        invariant
            pv == strings_view(pats@),
            pv.len() == pats.len(),
            j <= pats.len(),
            forall|q: int| 0 <= q < j ==> !topic_matches(t@, #[trigger] pv[q]),
        decreases pats.len() - j,
    {
        if IndraEvent::mqcmp(t, pats[j].as_str()) {
            assert(topic_matches(t@, pv[j as int]));
            return true;
        }
        j = j + 1;
    }
    false
}

impl IndraEvent {
    /// Tests a published topic against a subscription pattern. A topic that holds
    /// a wildcard character never matches.
    pub fn mqcmp(pub_str: &str, sub: &str) -> (r: bool)
        ensures
            r == topic_matches(pub_str@, sub@),
            has_wildcard(pub_str@) ==> !r,
    {
        let ghost t = pub_str@;
        let ghost p = sub@;
        if contains_char(pub_str, '+') || contains_char(pub_str, '#') {
            return false;
        }
        assert(!has_wildcard(t));
        let n = pub_str.unicode_len();
        let m = sub.unicode_len();
        let mut k: usize = 0;
        let mut skip = false;
        let mut i: usize = 0;
        while i < n
            invariant
                n == t.len(),
                m == p.len(),
                t == pub_str@,
                !has_wildcard(t),
                p == sub@,
                i <= n,
                k <= i,
                walk(t, p, 0, 0, false) == walk(t, p, i as int, k as int, skip),
            decreases n - i,
        {
            let c = pub_str.get_char(i);
            if skip {
                if c == '/' {
                    k = k + 1;
                    skip = false;
                }
                i = i + 1;
                continue;
            }
            if k >= m {
                return false;
            }
            let s = sub.get_char(k);
            if c == s {
                k = k + 1;
                i = i + 1;
                continue;
            }
            if s == '#' {
                return true;
            }
            if s == '+' {
                skip = true;
                k = k + 1;
                i = i + 1;
                continue;
            }
            return false;
        }
        if k == m {
            return true;
        }
        if k < m && k + 1 == m {
            let s = sub.get_char(k);
            return s == '+' || s == '#';
        }
        if k < m && k + 2 == m {
            return sub.get_char(k) == '/' && sub.get_char(k + 1) == '#';
        }
        false
    }

    /// A topic is routed when it matches some entry of `subs` and, when `blocks` is
    /// given, none of its entries.
    pub fn check_route(
        ie_domain: &str,
        _name: &str,
        subs: &Vec<String>,
        blocks: Option<&Vec<String>>,
    ) -> (r: bool)
        ensures
            r == route_accepts(
                ie_domain@,
                strings_view(subs@),
                match blocks {
                    Some(b) => Some(strings_view(b@)),
                    None => None,
                },
            ),
    {
        if !any_match(ie_domain, subs) {
            return false;
        }
        match blocks {
            None => true,
            Some(b) => !any_match(ie_domain, b),
        }
    }
}

} // verus!
