//! Digest comparison: is the cached artifact still the one the remote side
//! advertises?

use vstd::prelude::*;

verus! {

/// Whether `c` carries the Unicode `White_Space` property.
pub open spec fn is_white_space(c: char) -> bool {
    let n = c as u32;
    ||| 0x09 <= n <= 0x0D
    ||| n == 0x20
    ||| n == 0x85
    ||| n == 0xA0
    ||| n == 0x1680
    ||| 0x2000 <= n <= 0x200A
    ||| n == 0x2028
    ||| n == 0x2029
    ||| n == 0x202F
    ||| n == 0x205F
    ||| n == 0x3000
}

/// Executable test for the `White_Space` property.
pub fn white_space(c: char) -> (b: bool)
    ensures
        b == is_white_space(c),
{
    let n: u32 = c as u32;
    (0x09 <= n && n <= 0x0D) || n == 0x20 || n == 0x85 || n == 0xA0 || n == 0x1680 || (0x2000 <= n
        && n <= 0x200A) || n == 0x2028 || n == 0x2029 || n == 0x202F || n == 0x205F || n == 0x3000
}

/// Index of the first character of `s`, at or after `from`, that is not white
/// space; `s.len()` when every character from `from` on is white space.
pub open spec fn first_kept(s: Seq<char>, from: int) -> int
    decreases s.len() - from,
{
    if 0 <= from < s.len() && is_white_space(s[from]) {
        first_kept(s, from + 1)
    } else {
        from
    }
}

/// One past the last character of `s`, before `to` and not before `floor`,
/// that is not white space; `floor` when every character between is white space.
pub open spec fn last_kept(s: Seq<char>, floor: int, to: int) -> int
    decreases to - floor,
{
    if floor < to <= s.len() && is_white_space(s[to - 1]) {
        last_kept(s, floor, to - 1)
    } else {
        to
    }
}

/// `s` without its leading and trailing white space.
pub open spec fn trimmed(s: Seq<char>) -> Seq<char> {
    let start = first_kept(s, 0);
    s.subrange(start, last_kept(s, start, s.len() as int))
}

/// Whether `lo..hi` is a window of `s` with white space only outside it and,
/// unless it is empty, a kept character at either end.
pub open spec fn is_trim_window(s: Seq<char>, lo: int, hi: int) -> bool {
    &&& 0 <= lo <= hi <= s.len()
    &&& forall|k: int| 0 <= k < lo ==> is_white_space(#[trigger] s[k])
    &&& forall|k: int| hi <= k < s.len() ==> is_white_space(#[trigger] s[k])
    &&& lo < hi ==> !is_white_space(s[lo]) && !is_white_space(s[hi - 1])
}

/// Whether every character of `s` is white space.
pub open spec fn all_white_space(s: Seq<char>) -> bool {
    forall|k: int| 0 <= k < s.len() ==> is_white_space(#[trigger] s[k])
}

/// The digest text that stands for the cached artifact: its digest where one
/// could be computed, the empty text where the file is missing or unreadable.
pub open spec fn local_text(local: Option<Seq<char>>) -> Seq<char> {
    match local {
        Some(digest) => digest,
        None => Seq::empty(),
    }
}

/// Whether the cached artifact and the remote digest text name different
/// contents: they do unless the two texts agree once surrounding white space
/// is dropped.
pub open spec fn digests_differ(local: Option<Seq<char>>, remote: Seq<char>) -> bool {
    trimmed(remote) != trimmed(local_text(local))
}

/// The characters of `s`, in order.
fn chars_of(s: &str) -> (v: Vec<char>)
    ensures
        v@ == s@,
{
    let mut v: Vec<char> = Vec::new();
    for c in it: s.chars()
        invariant
            it.seq() == s@,
            v@ == s@.take(it.index()),
    {
        v.push(c);
    }
    v
}

/// The bounds of `trimmed(v@)` within `v`.
fn trim_bounds(v: &Vec<char>) -> (r: (usize, usize))
    ensures
        r.0 == first_kept(v@, 0),
        r.1 == last_kept(v@, r.0 as int, v.len() as int),
        r.0 <= r.1 <= v.len(),
{
    let mut start: usize = 0;
    while start < v.len() && white_space(v[start])
        invariant
            start <= v.len(),
            first_kept(v@, 0) == first_kept(v@, start as int),
        decreases v.len() - start,
    {
        start += 1;
    }
    let mut end: usize = v.len();
    while end > start && white_space(v[end - 1])
        invariant
            start <= end <= v.len(),
            last_kept(v@, start as int, v.len() as int) == last_kept(v@, start as int, end as int),
        decreases end - start,
    {
        end -= 1;
    }
    (start, end)
}

/// Whether two windows of characters hold the same text.
fn same_text(
    a: &Vec<char>,
    a_bounds: (usize, usize),
    b: &Vec<char>,
    b_bounds: (usize, usize),
) -> (same: bool)
    requires
        a_bounds.0 <= a_bounds.1 <= a.len(),
        b_bounds.0 <= b_bounds.1 <= b.len(),
    ensures
        same == (a@.subrange(a_bounds.0 as int, a_bounds.1 as int) == b@.subrange(
            b_bounds.0 as int,
            b_bounds.1 as int,
        )),
{
    let ghost left = a@.subrange(a_bounds.0 as int, a_bounds.1 as int);
    let ghost right = b@.subrange(b_bounds.0 as int, b_bounds.1 as int);
    let n: usize = a_bounds.1 - a_bounds.0;
    if b_bounds.1 - b_bounds.0 != n {
        assert(left.len() != right.len());
        return false;
    }
    let mut k: usize = 0;
    while k < n
        invariant
            k <= n,
            n == a_bounds.1 - a_bounds.0,
            n == b_bounds.1 - b_bounds.0,
            a_bounds.1 <= a.len(),
            b_bounds.1 <= b.len(),
            left == a@.subrange(a_bounds.0 as int, a_bounds.1 as int),
            right == b@.subrange(b_bounds.0 as int, b_bounds.1 as int),
            forall|i: int| 0 <= i < k ==> left[i] == right[i],
        decreases n - k,
    {
        if a[a_bounds.0 + k] != b[b_bounds.0 + k] {
            assert(left[k as int] != right[k as int]);
            return false;
        }
        k += 1;
    }
    assert(left =~= right);
    true
}

/// Decides whether the cached artifact has to be fetched again.
///
/// `local_digest` is the content digest of the cached file, or `None` when the
/// file is missing or cannot be read; `remote_text` is the body that the digest
/// endpoint answered with. The answer is `true` unless the two agree once
/// surrounding white space is dropped, so a missing file is compared as the
/// empty text: it is different from every remote text that holds anything but
/// white space. A cached file whose digest is the remote text without its
/// surrounding white space is not different.
pub fn is_digest_different(local_digest: Option<&str>, remote_text: &str) -> (different: bool)
    ensures
        different == digests_differ(local_digest.deep_view(), remote_text@),
        local_digest matches Some(digest) && digest@ == trimmed(remote_text@) ==> !different,
        local_digest is None ==> different == (trimmed(remote_text@).len() > 0),
{
    let remote = chars_of(remote_text);
    let local = match local_digest {
        Some(d) => chars_of(d),
        None => Vec::new(),
    };
    let remote_bounds = trim_bounds(&remote);
    let local_bounds = trim_bounds(&local);
    proof {
        lemma_trimmed_is_stable(remote_text@);
        lemma_nothing_to_trim_in_nothing();
        if trimmed(remote_text@).len() == 0 {
            assert(trimmed(remote_text@) =~= Seq::<char>::empty());
        }
    }
    !same_text(&remote, remote_bounds, &local, local_bounds)
}

/// Trimming leaves nothing to trim: the result is empty or starts and ends
/// with a character that is not white space, and trimming it again changes
/// nothing.
pub proof fn lemma_trimmed_is_stable(s: Seq<char>)
    ensures
        trimmed(s).len() > 0 ==> !is_white_space(trimmed(s).first()) && !is_white_space(
            trimmed(s).last(),
        ),
        trimmed(trimmed(s)) == trimmed(s),
{
    let start = first_kept(s, 0);
    let end = last_kept(s, start, s.len() as int);
    lemma_first_kept(s, 0);
    lemma_last_kept(s, start, s.len() as int);
    let t = trimmed(s);
    if t.len() > 0 {
        assert(t.first() == s[start]);
        assert(t.last() == s[end - 1]);
        assert(first_kept(t, 0) == 0);
        assert(last_kept(t, 0, t.len() as int) == t.len());
        assert(t.subrange(0, t.len() as int) =~= t);
    } else {
        assert(first_kept(t, 0) == 0);
        assert(last_kept(t, 0, 0) == 0);
        assert(t.subrange(0, 0) =~= t);
    }
}

/// Where `first_kept` stops: within bounds, past white space only, and on a
/// character that is kept unless the text ran out.
proof fn lemma_first_kept(s: Seq<char>, from: int)
    requires
        0 <= from <= s.len(),
    ensures
        from <= first_kept(s, from) <= s.len(),
        forall|k: int| from <= k < first_kept(s, from) ==> is_white_space(s[k]),
        first_kept(s, from) < s.len() ==> !is_white_space(s[first_kept(s, from)]),
    decreases s.len() - from,
{
    if from < s.len() && is_white_space(s[from]) {
        lemma_first_kept(s, from + 1);
    }
}

/// Where `last_kept` stops: within bounds, before white space only, and just
/// after a character that is kept unless it reached the floor.
proof fn lemma_last_kept(s: Seq<char>, floor: int, to: int)
    requires
        0 <= floor <= to <= s.len(),
    ensures
        floor <= last_kept(s, floor, to) <= to,
        forall|k: int| last_kept(s, floor, to) <= k < to ==> is_white_space(s[k]),
        floor < last_kept(s, floor, to) ==> !is_white_space(s[last_kept(s, floor, to) - 1]),
    decreases to - floor,
{
    if floor < to && is_white_space(s[to - 1]) {
        lemma_last_kept(s, floor, to - 1);
    }
}

/// `trimmed` cuts the one window that has white space only outside it and
/// kept characters at its ends, and every such window holds the same text.
pub proof fn lemma_trimmed_is_the_trim_window(s: Seq<char>, lo: int, hi: int)
    ensures
        is_trim_window(s, first_kept(s, 0), last_kept(s, first_kept(s, 0), s.len() as int)),
        is_trim_window(s, lo, hi) ==> s.subrange(lo, hi) == trimmed(s),
{
    let start = first_kept(s, 0);
    let end = last_kept(s, start, s.len() as int);
    lemma_first_kept(s, 0);
    lemma_last_kept(s, start, s.len() as int);
    if start == end && start < s.len() {
        assert(is_white_space(s[start]));
    }
    if is_trim_window(s, lo, hi) {
        if lo < hi {
            assert(start == lo) by {
                if start < lo {
                    assert(is_white_space(s[start]));
                }
                if lo < start {
                    assert(is_white_space(s[lo]));
                }
            }
            assert(end == hi) by {
                if end < hi {
                    assert(is_white_space(s[hi - 1]));
                }
                if hi < end {
                    assert(is_white_space(s[end - 1]));
                }
            }
        } else {
            if start < s.len() {
                assert(is_white_space(s[start]));
            }
            assert(s.subrange(lo, hi) =~= s.subrange(start, end));
        }
    }
}

/// White space around a text does not show in what `trimmed` keeps of it.
pub proof fn lemma_surrounding_white_space_is_ignored(
    before: Seq<char>,
    s: Seq<char>,
    after: Seq<char>,
)
    requires
        all_white_space(before),
        all_white_space(after),
    ensures
        trimmed(before + s + after) == trimmed(s),
{
    let whole = before + s + after;
    let lo = first_kept(s, 0);
    let hi = last_kept(s, lo, s.len() as int);
    lemma_trimmed_is_the_trim_window(s, lo, hi);
    let shift = before.len() as int;
    assert forall|k: int| 0 <= k < whole.len() implies whole[k] == (if k < shift {
        before[k]
    } else if k < shift + s.len() {
        s[k - shift]
    } else {
        after[k - shift - s.len()]
    }) by {}
    assert(is_trim_window(whole, shift + lo, shift + hi)) by {
        assert forall|k: int| 0 <= k < shift + lo implies is_white_space(#[trigger] whole[k]) by {
            if k >= shift {
                assert(is_white_space(s[k - shift]));
            }
        }
        assert forall|k: int| shift + hi <= k < whole.len() implies is_white_space(
            #[trigger] whole[k],
        ) by {
            if k < shift + s.len() {
                assert(is_white_space(s[k - shift]));
            }
        }
    }
    lemma_trimmed_is_the_trim_window(whole, shift + lo, shift + hi);
    assert(whole.subrange(shift + lo, shift + hi) =~= s.subrange(lo, hi));
}

/// A cached artifact whose digest is the remote text without its surrounding
/// white space is never reported as different.
pub proof fn lemma_matching_digest_is_not_different(local: Seq<char>, remote: Seq<char>)
    requires
        local == trimmed(remote),
    ensures
        !digests_differ(Some(local), remote),
{
    lemma_trimmed_is_stable(remote);
}

/// A cached artifact is never reported as different from a remote text that
/// is its digest with white space around it.
pub proof fn lemma_padded_digest_is_not_different(
    local: Seq<char>,
    before: Seq<char>,
    after: Seq<char>,
)
    requires
        all_white_space(before),
        all_white_space(after),
    ensures
        !digests_differ(Some(local), before + local + after),
{
    lemma_surrounding_white_space_is_ignored(before, local, after);
}

/// A missing cached artifact is reported as different from every remote text
/// that holds anything but white space.
pub proof fn lemma_missing_local_is_different(remote: Seq<char>)
    requires
        trimmed(remote).len() > 0,
    ensures
        digests_differ(None, remote),
{
    lemma_nothing_to_trim_in_nothing();
}

/// The empty text stays empty when trimmed.
proof fn lemma_nothing_to_trim_in_nothing()
    ensures
        trimmed(Seq::<char>::empty()) == Seq::<char>::empty(),
{
    let none = Seq::<char>::empty();
    assert(first_kept(none, 0) == 0);
    assert(trimmed(none) =~= none);
}

} // verus!
