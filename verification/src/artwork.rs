//! The artwork URL upgrader.
//!
//! A thumbnail URL follows a fixed path convention: somewhere in it the
//! marker `/image/thumb/` is followed by `/`-separated segments whose
//! last element is the thumbnail size suffix.  The full-resolution URL
//! is obtained by dropping that last segment and prefixing the fixed
//! base `https://a1.mzstatic.com/us/r1000/0/`.  When the marker is
//! absent, or fewer than two segments follow it, no URL is derived.

use vstd::prelude::*;
use crate::chars::chars_to_string;
use crate::chars::str_to_chars;

verus! {

/// The path marker that precedes the interesting segments of a thumbnail URL.
pub open spec fn marker() -> Seq<char> {
    "/image/thumb/"@
}

/// The fixed base of every full-resolution artwork URL.
pub open spec fn full_res_base() -> Seq<char> {
    "https://a1.mzstatic.com/us/r1000/0/"@
}

/// The marker occurs in `s` starting at index `i`.
pub open spec fn marker_at(s: Seq<char>, i: int) -> bool {
    0 <= i && i + marker().len() <= s.len() && s.subrange(i, i + marker().len() as int)
        == marker()
}

/// Index of the first occurrence of the marker at or after `i`, or `-1`.
pub open spec fn marker_pos_from(s: Seq<char>, i: int) -> int
    decreases s.len() - i,
    when 0 <= i
    via marker_pos_from_decreases
{
    if i + marker().len() > s.len() {
        -1
    } else if marker_at(s, i) {
        i
    } else {
        marker_pos_from(s, i + 1)
    }
}

#[via_fn]
proof fn marker_pos_from_decreases(s: Seq<char>, i: int) {
    reveal_strlit("/image/thumb/");
}

/// Index of the first `/` in `s` at or after `i`, or `-1`.
pub open spec fn slash_pos_from(s: Seq<char>, i: int) -> int
    decreases s.len() - i,
    when 0 <= i
{
    if i >= s.len() {
        -1
    } else if s[i] == '/' {
        i
    } else {
        slash_pos_from(s, i + 1)
    }
}

proof fn lemma_slash_pos_from(s: Seq<char>, i: int)
    requires
        0 <= i <= s.len(),
    ensures
        ({
            let j = slash_pos_from(s, i);
            &&& j == -1 || (i <= j < s.len() && s[j] == '/')
            &&& j == -1 ==> forall|k: int| i <= k < s.len() ==> s[k] != '/'
            &&& j != -1 ==> forall|k: int| i <= k < j ==> s[k] != '/'
        }),
    decreases s.len() - i,
{
    if i < s.len() && s[i] != '/' {
        lemma_slash_pos_from(s, i + 1);
    }
}

/// The `/`-separated segments of `s`: always at least one segment, and
/// one more segment than there are `/` characters.
pub open spec fn split_slash(s: Seq<char>) -> Seq<Seq<char>>
    decreases s.len(),
    via split_slash_decreases
{
    let j = slash_pos_from(s, 0);
    if j < 0 {
        seq![s]
    } else {
        seq![s.take(j)] + split_slash(s.skip(j + 1))
    }
}

#[via_fn]
proof fn split_slash_decreases(s: Seq<char>) {
    lemma_slash_pos_from(s, 0);
}

/// The segments rejoined, with `/` between consecutive segments.
pub open spec fn join_slash(parts: Seq<Seq<char>>) -> Seq<char>
    decreases parts.len(),
{
    if parts.len() == 0 {
        Seq::empty()
    } else if parts.len() == 1 {
        parts[0]
    } else {
        parts[0] + seq!['/'] + join_slash(parts.drop_first())
    }
}

/// The full-resolution URL derived from a thumbnail URL `s`: the
/// segments after the first `/image/thumb/` marker, the last one
/// dropped, rejoined and prefixed with the fixed base.  `None` when the
/// marker is absent or fewer than two segments follow it.
pub open spec fn upgrade_spec(s: Seq<char>) -> Option<Seq<char>> {
    let p = marker_pos_from(s, 0);
    if p < 0 {
        None
    } else {
        let tail = s.skip(p + marker().len() as int);
        let parts = split_slash(tail);
        if parts.len() >= 2 {
            Some(full_res_base() + join_slash(parts.drop_last()))
        } else {
            None
        }
    }
}

proof fn lemma_split_no_slash(s: Seq<char>)
    requires
        forall|k: int| 0 <= k < s.len() ==> s[k] != '/',
    ensures
        split_slash(s).len() == 1,
        split_slash(s)[0] == s,
{
    lemma_slash_pos_from(s, 0);
}

proof fn lemma_split_join_drop_last(s: Seq<char>, j: int)
    requires
        0 <= j < s.len(),
        s[j] == '/',
        forall|k: int| j < k < s.len() ==> s[k] != '/',
    ensures
        split_slash(s).len() >= 2,
        join_slash(split_slash(s).drop_last()) == s.take(j),
    decreases s.len(),
{
    lemma_slash_pos_from(s, 0);
    let j0 = slash_pos_from(s, 0);
    assert(j0 != -1);
    let rest = s.skip(j0 + 1);
    let parts = split_slash(s);
    if j == j0 {
        assert(forall|k: int| 0 <= k < rest.len() ==> rest[k] == s[j0 + 1 + k] && rest[k] != '/');
        lemma_split_no_slash(rest);
        assert(split_slash(rest) =~= seq![rest]);
        assert(parts =~= seq![s.take(j0)] + seq![rest]);
        assert(parts.drop_last() =~= seq![s.take(j0)]);
        assert(join_slash(parts.drop_last()) == s.take(j0));
    } else {
        assert(j0 < j);
        let jr = j - j0 - 1;
        assert(rest[jr] == s[j]);
        assert(forall|k: int| jr < k < rest.len() ==> rest[k] == s[j0 + 1 + k] && rest[k] != '/');
        lemma_split_join_drop_last(rest, jr);
        let rparts = split_slash(rest);
        assert(parts == seq![s.take(j0)] + rparts);
        assert(parts.drop_last() =~= seq![s.take(j0)] + rparts.drop_last());
        assert(rparts.drop_last().len() >= 1);
        let dl = parts.drop_last();
        assert(dl.len() >= 2);
        assert(dl[0] == s.take(j0));
        assert(dl.drop_first() =~= rparts.drop_last());
        assert(join_slash(dl) == s.take(j0) + seq!['/'] + join_slash(rparts.drop_last()));
        assert(join_slash(rparts.drop_last()) == rest.take(jr));
        assert(s.take(j) =~= s.take(j0) + seq!['/'] + rest.take(jr));
    }
}

fn marker_match_at(v: &Vec<char>, i: usize, m: &Vec<char>) -> (r: bool)
    requires
        i + m@.len() <= v@.len(),
    ensures
        r == (v@.subrange(i as int, i as int + m@.len() as int) == m@),
{
    let n = v.len();
    let mut j: usize = 0;
    while j < m.len()
        invariant
            n == v@.len(),
            i + m@.len() <= v@.len(),
            j <= m@.len(),
            forall|k: int| 0 <= k < j ==> v@[i + k] == m@[k],
        decreases m@.len() - j,
    {
        if v[i + j] != m[j] {
            proof {
                assert(v@.subrange(i as int, i as int + m@.len() as int)[j as int] != m@[j as int]);
            }
            return false;
        }
        j = j + 1;
    }
    proof {
        assert(v@.subrange(i as int, i as int + m@.len() as int) =~= m@);
    }
    true
}

fn find_marker(v: &Vec<char>, m: &Vec<char>) -> (r: Option<usize>)
    requires
        m@ == marker(),
        m@.len() >= 1,
    ensures
        r matches Some(p) ==> marker_pos_from(v@, 0) == p && p + marker().len() <= v@.len(),
        r is None ==> marker_pos_from(v@, 0) == -1,
{
    if v.len() < m.len() {
        return None;
    }
    let mut i: usize = 0;
    while i <= v.len() - m.len()
        invariant
            m@ == marker(),
            m@.len() >= 1,
            m@.len() <= v@.len(),
            i <= v@.len(),
            marker_pos_from(v@, 0) == marker_pos_from(v@, i as int),
        decreases v@.len() - i,
    {
        if marker_match_at(v, i, m) {
            return Some(i);
        }
        i = i + 1;
    }
    None
}

/// Derive the full-resolution artwork URL from the thumbnail URL, when
/// the thumbnail follows the known path convention.
pub fn upgrade_artwork_url(url: &str) -> (r: Option<String>)
    ensures
        r is Some <==> upgrade_spec(url@) is Some,
        r matches Some(u) ==> u@ == upgrade_spec(url@)->0,
{
    let v = str_to_chars(url);
    let m = str_to_chars("/image/thumb/");
    proof {
        reveal_strlit("/image/thumb/");
    }
    let pos = match find_marker(&v, &m) {
        Some(p) => p,
        None => {
            return None;
        },
    };
    // scan backwards for the last '/' of the tail
    let mut e: usize = v.len();
    let t0 = pos + m.len();
    let ghost tail = v@.skip(t0 as int);
    while e > t0 && v[e - 1] != '/'
        invariant
            t0 <= e <= v@.len(),
            tail == v@.skip(t0 as int),
            forall|k: int| e <= k < v@.len() ==> v@[k] != '/',
        decreases e,
    {
        e = e - 1;
    }
    if e == t0 {
        // no '/' after the marker: a single segment at most
        proof {
            assert(forall|k: int| 0 <= k < tail.len() ==> tail[k] == v@[t0 + k] && tail[k] != '/');
            lemma_split_no_slash(tail);
            assert(upgrade_spec(url@) is None);
        }
        return None;
    }
    let a = e - 1;
    let ghost jt = a - t0 as int;
    proof {
        assert(v@[a as int] == '/');
        assert(tail[jt] == '/');
        assert(forall|k: int| jt < k < tail.len() ==> tail[k] == v@[t0 + k] && tail[k] != '/');
        lemma_split_join_drop_last(tail, jt);
        assert(tail.take(jt) =~= v@.subrange(t0 as int, a as int));
    }
    let mut out = str_to_chars("https://a1.mzstatic.com/us/r1000/0/");
    let ghost base_len = out@.len();
    let mut i: usize = t0;
    while i < a
        invariant
            t0 <= i <= a <= v@.len(),
            out@.len() == base_len + i - t0,
            out@ == full_res_base() + v@.subrange(t0 as int, i as int),
        decreases a - i,
    {
        out.push(v[i]);
        i = i + 1;
        proof {
            assert(out@ =~= full_res_base() + v@.subrange(t0 as int, i as int));
        }
    }
    proof {
        assert(out@ == full_res_base() + v@.subrange(t0 as int, a as int));
        assert(out@ == full_res_base() + tail.take(jt));
        assert(upgrade_spec(url@) == Some(out@));
    }
    Some(chars_to_string(out))
}

} // verus!
