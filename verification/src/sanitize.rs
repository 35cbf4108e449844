//! File-name sanitization for the per-artist/per-album directory tree.
//!
//! A name becomes a path segment by replacing every character that common
//! filesystems refuse with `'_'` and then trimming leading and trailing
//! whitespace.  The transform is proved idempotent, and its output is
//! proved free of the forbidden characters.

use vstd::prelude::*;
use crate::chars::chars_to_string;
use crate::chars::str_to_chars;

verus! {

/// A character that common filesystems refuse inside a file name.
pub open spec fn is_forbidden(c: char) -> bool {
    c == '/' || c == '\\' || c == ':' || c == '*' || c == '?' || c == '"' || c == '<' || c == '>'
        || c == '|'
}

/// Whether `char::is_whitespace` holds of `c`.
pub uninterp spec fn is_white(c: char) -> bool;

/// Relies on `char::is_whitespace`: true exactly of Unicode `White_Space`
/// characters, a function of the character alone.
#[verifier::external_body]
fn whitespace_char(c: char) -> (r: bool)
    ensures
        r == is_white(c),
{
    c.is_whitespace()
}

/// Every forbidden character replaced by `'_'`; all others unchanged.
pub open spec fn replace_forbidden(s: Seq<char>) -> Seq<char> {
    s.map_values(|c: char| if is_forbidden(c) { '_' } else { c })
}

/// The suffix of `s` that remains after removing leading whitespace.
pub open spec fn trim_start_spec(s: Seq<char>) -> Seq<char>
    decreases s.len(),
{
    if s.len() == 0 || !is_white(s[0]) {
        s
    } else {
        trim_start_spec(s.drop_first())
    }
}

/// The prefix of `s` that remains after removing trailing whitespace.
pub open spec fn trim_end_spec(s: Seq<char>) -> Seq<char>
    decreases s.len(),
{
    if s.len() == 0 || !is_white(s.last()) {
        s
    } else {
        trim_end_spec(s.drop_last())
    }
}

/// `s` with leading and trailing whitespace removed, as `str::trim` does.
pub open spec fn trim_spec(s: Seq<char>) -> Seq<char> {
    trim_end_spec(trim_start_spec(s))
}

/// The sanitized form of a name: forbidden characters replaced, then trimmed.
pub open spec fn sanitize_spec(s: Seq<char>) -> Seq<char> {
    trim_spec(replace_forbidden(s))
}

fn forbidden_char(c: char) -> (r: bool)
    ensures
        r == is_forbidden(c),
{
    c == '/' || c == '\\' || c == ':' || c == '*' || c == '?' || c == '"' || c == '<' || c == '>'
        || c == '|'
}

fn replace_chars(v: &Vec<char>) -> (o: Vec<char>)
    ensures
        o@ == replace_forbidden(v@),
{
    let mut o: Vec<char> = Vec::new();
    let mut i: usize = 0;
    while i < v.len()
        invariant
            i <= v@.len(),
            o@ == replace_forbidden(v@.take(i as int)),
        decreases v@.len() - i,
    {
        let c = v[i];
        if forbidden_char(c) {
            o.push('_');
        } else {
            o.push(c);
        }
        i = i + 1;
        proof {
            assert(o@ =~= replace_forbidden(v@.take(i as int)));
        }
    }
    proof {
        assert(o@ =~= replace_forbidden(v@));
    }
    o
}

fn trim_chars(v: &Vec<char>) -> (o: Vec<char>)
    ensures
        o@ == trim_spec(v@),
{
    let mut start: usize = 0;
    proof {
        assert(v@.skip(0) =~= v@);
    }
    while start < v.len() && whitespace_char(v[start])
        invariant
            start <= v@.len(),
            trim_start_spec(v@) == trim_start_spec(v@.skip(start as int)),
        decreases v@.len() - start,
    {
        proof {
            assert(v@.skip(start as int).drop_first() =~= v@.skip(start as int + 1));
        }
        start = start + 1;
    }
    proof {
        if start < v@.len() {
            assert(trim_start_spec(v@) == v@.skip(start as int));
        } else {
            assert(v@.skip(start as int) =~= Seq::<char>::empty());
            assert(trim_start_spec(v@) == v@.skip(start as int));
        }
    }
    let ghost t = v@.skip(start as int);
    let mut end: usize = v.len();
    proof {
        assert(t.take(end - start as int) =~= t);
    }
    while end > start && whitespace_char(v[end - 1])
        invariant
            start <= end <= v@.len(),
            t == v@.skip(start as int),
            trim_start_spec(v@) == t,
            trim_end_spec(t) == trim_end_spec(t.take(end - start as int)),
        decreases end,
    {
        proof {
            let ghost w = t.take(end - start as int);
            assert(w.last() == v@[end - 1]);
            assert(w.drop_last() =~= t.take(end - 1 - start as int));
        }
        end = end - 1;
    }
    proof {
        let ghost w = t.take(end - start as int);
        if end > start {
            assert(w.last() == v@[end - 1]);
            assert(!is_white(w.last()));
            assert(trim_end_spec(t) == w);
        } else {
            assert(w =~= Seq::<char>::empty());
            assert(trim_end_spec(t) == w);
        }
    }
    let mut o: Vec<char> = Vec::new();
    proof {
        assert(Seq::<char>::empty() =~= v@.subrange(start as int, start as int));
    }
    let mut i: usize = start;
    while i < end
        invariant
            start <= i <= end <= v@.len(),
            o@ == v@.subrange(start as int, i as int),
        decreases end - i,
    {
        o.push(v[i]);
        i = i + 1;
        proof {
            assert(o@ =~= v@.subrange(start as int, i as int));
        }
    }
    proof {
        assert(o@ =~= t.take(end - start as int));
    }
    o
}

/// Replace the forbidden characters in `name` by `'_'` and trim the result:
/// the sanitized path segment used for an artist or album directory.
pub fn sanitize_filename(name: &str) -> (r: String)
    ensures
        r@ == sanitize_spec(name@),
{
    let v = str_to_chars(name);
    let replaced = replace_chars(&v);
    let trimmed = trim_chars(&replaced);
    chars_to_string(trimmed)
}

proof fn lemma_trim_start_suffix(s: Seq<char>)
    ensures
        exists|k: int| 0 <= k <= s.len() && trim_start_spec(s) == s.skip(k),
    decreases s.len(),
{
    if s.len() == 0 || !is_white(s[0]) {
        assert(s.skip(0) =~= s);
        assert(trim_start_spec(s) == s.skip(0));
    } else {
        lemma_trim_start_suffix(s.drop_first());
        let k = choose|k: int|
            0 <= k <= s.drop_first().len() && trim_start_spec(s.drop_first()) == s.drop_first().skip(
                k,
            );
        assert(s.drop_first().skip(k) =~= s.skip(k + 1));
        assert(trim_start_spec(s) == s.skip(k + 1));
    }
}

proof fn lemma_trim_end_prefix(s: Seq<char>)
    ensures
        exists|k: int| 0 <= k <= s.len() && trim_end_spec(s) == s.take(k),
    decreases s.len(),
{
    if s.len() == 0 || !is_white(s.last()) {
        assert(s.take(s.len() as int) =~= s);
        assert(trim_end_spec(s) == s.take(s.len() as int));
    } else {
        lemma_trim_end_prefix(s.drop_last());
        let k = choose|k: int|
            0 <= k <= s.drop_last().len() && trim_end_spec(s.drop_last()) == s.drop_last().take(k);
        assert(s.drop_last().take(k) =~= s.take(k));
        assert(trim_end_spec(s) == s.take(k));
    }
}

proof fn lemma_trim_start_first(s: Seq<char>)
    ensures
        trim_start_spec(s).len() == 0 || !is_white(trim_start_spec(s)[0]),
    decreases s.len(),
{
    if !(s.len() == 0 || !is_white(s[0])) {
        lemma_trim_start_first(s.drop_first());
    }
}

proof fn lemma_trim_end_last(s: Seq<char>)
    ensures
        trim_end_spec(s).len() == 0 || !is_white(trim_end_spec(s).last()),
    decreases s.len(),
{
    if !(s.len() == 0 || !is_white(s.last())) {
        lemma_trim_end_last(s.drop_last());
    }
}

/// A sanitized name holds none of the characters that filesystems refuse:
/// every character of the output is ordinary.
pub proof fn lemma_sanitize_no_forbidden(s: Seq<char>)
    ensures
        forall|i: int|
            0 <= i < sanitize_spec(s).len() ==> !is_forbidden(#[trigger] sanitize_spec(s)[i]),
{
    let r = replace_forbidden(s);
    assert(forall|i: int| 0 <= i < r.len() ==> !is_forbidden(#[trigger] r[i]));
    let z = trim_start_spec(r);
    lemma_trim_start_suffix(r);
    let k1 = choose|k: int| 0 <= k <= r.len() && trim_start_spec(r) == r.skip(k);
    assert(forall|i: int| 0 <= i < z.len() ==> !is_forbidden(#[trigger] z[i]));
    let y = trim_end_spec(z);
    lemma_trim_end_prefix(z);
    let k2 = choose|k: int| 0 <= k <= z.len() && trim_end_spec(z) == z.take(k);
    assert(forall|i: int| 0 <= i < y.len() ==> !is_forbidden(#[trigger] y[i]));
}

/// Sanitization is idempotent: sanitizing an already sanitized name
/// gives it back unchanged.
pub proof fn lemma_sanitize_idempotent(s: Seq<char>)
    ensures
        sanitize_spec(sanitize_spec(s)) == sanitize_spec(s),
{
    let r = replace_forbidden(s);
    let z = trim_start_spec(r);
    let y = trim_end_spec(z);
    lemma_sanitize_no_forbidden(s);
    assert(sanitize_spec(s) == y);
    assert(forall|i: int| 0 <= i < y.len() ==> !is_forbidden(#[trigger] y[i]));
    assert(replace_forbidden(y) =~= y);
    lemma_trim_start_first(r);
    lemma_trim_end_prefix(z);
    let k2 = choose|k: int| 0 <= k <= z.len() && trim_end_spec(z) == z.take(k);
    if y.len() == 0 {
        assert(trim_start_spec(y) == y);
    } else {
        assert(y[0] == z[0]);
        assert(!is_white(y[0]));
        assert(trim_start_spec(y) == y);
    }
    lemma_trim_end_last(z);
    if y.len() == 0 {
        assert(trim_end_spec(y) == y);
    } else {
        assert(trim_end_spec(y) == y);
    }
}

/// `s` with leading and trailing whitespace removed.
pub fn trim_str(s: &str) -> (r: String)
    ensures
        r@ == trim_spec(s@),
{
    let v = str_to_chars(s);
    let trimmed = trim_chars(&v);
    chars_to_string(trimmed)
}

} // verus!
