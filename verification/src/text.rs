//! Literal find-and-replace on text, seen as a sequence of characters.

use vstd::prelude::*;

verus! {

/// Whether `pattern` stands in `text` at position `at`.
pub open spec fn occurs_at(text: Seq<char>, pattern: Seq<char>, at: int) -> bool {
    &&& 0 <= at
    &&& at + pattern.len() <= text.len()
    &&& text.subrange(at, at + pattern.len()) == pattern
}

/// Whether `pattern` stands anywhere in `text`.
pub open spec fn occurs(text: Seq<char>, pattern: Seq<char>) -> bool {
    exists|at: int| occurs_at(text, pattern, at)
}

/// `text` with every occurrence of `pattern` replaced by `with`. Occurrences
/// are found from left to right and do not overlap: after a replacement the
/// search goes on behind the replaced piece, and what was put in is not
/// searched again. An empty pattern occurs nowhere.
pub open spec fn replace_all(text: Seq<char>, pattern: Seq<char>, with: Seq<char>) -> Seq<char>
    decreases text.len(),
{
    if pattern.len() == 0 || text.len() < pattern.len() {
        text
    } else if text.subrange(0, pattern.len() as int) == pattern {
        with + replace_all(text.subrange(pattern.len() as int, text.len() as int), pattern, with)
    } else {
        seq![text[0]] + replace_all(text.subrange(1, text.len() as int), pattern, with)
    }
}

/// Replacing a pattern that does not occur changes nothing.
pub proof fn lemma_replace_absent(text: Seq<char>, pattern: Seq<char>, with: Seq<char>)
    requires
        !occurs(text, pattern),
    ensures
        replace_all(text, pattern, with) == text,
    decreases text.len(),
{
    if pattern.len() == 0 || text.len() < pattern.len() {
    } else {
        let rest = text.subrange(1, text.len() as int);
        assert(!occurs_at(text, pattern, 0));
        assert forall|at: int| !occurs_at(rest, pattern, at) by {
            if occurs_at(rest, pattern, at) {
                assert(rest.subrange(at, at + pattern.len()) =~= text.subrange(
                    at + 1,
                    at + 1 + pattern.len(),
                ));
                assert(occurs_at(text, pattern, at + 1));
            }
        }
        lemma_replace_absent(rest, pattern, with);
        assert(seq![text[0]] + rest =~= text);
    }
}

/// The characters of `s`, one by one.
pub fn chars_of(s: &str) -> (chars: Vec<char>)
    ensures
        chars@ == s@,
{
    let n = s.unicode_len();
    let mut chars: Vec<char> = Vec::new();
    let mut i: usize = 0;
    while i < n
        invariant
            n == s@.len(),
            i <= n,
            chars@ == s@.subrange(0, i as int),
        decreases n - i,
    {
        chars.push(s.get_char(i));
        i += 1;
    }
    chars
}

/// Whether `pattern` stands in `text` at position `at`.
fn matches_at(text: &Vec<char>, pattern: &Vec<char>, at: usize) -> (found: bool)
    requires
        at + pattern.len() <= text.len(),
    ensures
        found == occurs_at(text@, pattern@, at as int),
{
    let m = pattern.len();
    let mut j: usize = 0;
    while j < m
        invariant
            m == pattern.len(),
            at + m <= text.len(),
            j <= m,
            forall|k: int| 0 <= k < j ==> text@[at + k] == pattern@[k],
        decreases m - j,
    {
        if text[at + j] != pattern[j] {
            assert(text@.subrange(at as int, at + m)[j as int] != pattern@[j as int]);
            return false;
        }
        j += 1;
    }
    assert(text@.subrange(at as int, at + m) =~= pattern@);
    true
}

/// Replaces every occurrence of `pattern` in `text` by `with`, from left to
/// right. An empty pattern leaves the text as it is.
pub fn replace(text: &str, pattern: &str, with: &str) -> (res: String)
    ensures
        res@ == replace_all(text@, pattern@, with@),
{
    let t = chars_of(text);
    let p = chars_of(pattern);
    let n = t.len();
    let m = p.len();
    if m == 0 || n < m {
        return text.to_owned();
    }
    let mut out = String::new();
    let mut start: usize = 0;
    let mut i: usize = 0;
    proof {
        assert(text@.subrange(0, n as int) =~= text@);
        assert(out@ + text@.subrange(0, 0) =~= Seq::<char>::empty());
    }
    while i <= n - m
        invariant
            t@ == text@,
            p@ == pattern@,
            n == t.len(),
            m == p.len(),
            0 < m <= n,
            start <= i <= n,
            replace_all(text@, pattern@, with@) == out@ + text@.subrange(start as int, i as int)
                + replace_all(text@.subrange(i as int, n as int), pattern@, with@),
        decreases n - i,
    {
        let ghost tail = text@.subrange(i as int, n as int);
        if matches_at(&t, &p, i) {
            proof {
                assert(tail.subrange(0, m as int) =~= text@.subrange(i as int, i + m));
                assert(tail.subrange(m as int, tail.len() as int) =~= text@.subrange(
                    i + m,
                    n as int,
                ));
                assert(text@.subrange(i + m, i + m) =~= Seq::<char>::empty());
            }
            out.append(text.substring_char(start, i));
            out.append(with);
            i += m;
            start = i;
        } else {
            proof {
                assert(tail.subrange(0, m as int) =~= text@.subrange(i as int, i + m));
                assert(tail.subrange(1, tail.len() as int) =~= text@.subrange(i + 1, n as int));
                assert(text@.subrange(start as int, i as int) + seq![tail[0]] =~= text@.subrange(
                    start as int,
                    i + 1,
                ));
            }
            i += 1;
        }
    }
    out.append(text.substring_char(start, n));
    proof {
        assert(text@.subrange(start as int, i as int) + text@.subrange(i as int, n as int)
            =~= text@.subrange(start as int, n as int));
    }
    out
}

} // verus!
