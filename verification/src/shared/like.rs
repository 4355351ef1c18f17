//! The `LIKE` operator of the history store's search: `%` matches any run of
//! characters, `_` matches exactly one character, and every other character
//! matches itself, ASCII letters regardless of case.

use vstd::prelude::*;

verus! {

/// ASCII case folding: upper-case ASCII letters become lower-case, every
/// other character stays as it is.
pub open spec fn fold_ascii(c: char) -> char {
    if 'A' <= c <= 'Z' {
        ((c as u32) + 32) as char
    } else {
        c
    }
}

/// Whether text `t` matches pattern `p`.
pub open spec fn like_match(p: Seq<char>, t: Seq<char>) -> bool
    decreases p.len(), t.len(),
{
    if p.len() == 0 {
        t.len() == 0
    } else if p[0] == '%' {
        like_match(p.drop_first(), t) || (t.len() > 0 && like_match(p, t.drop_first()))
    } else if t.len() == 0 {
        false
    } else if p[0] == '_' || fold_ascii(p[0]) == fold_ascii(t[0]) {
        like_match(p.drop_first(), t.drop_first())
    } else {
        false
    }
}

/// Whether `a` and `b` are the same character up to ASCII case.
pub fn chars_match_fold(a: char, b: char) -> (r: bool)
    ensures
        r == (fold_ascii(a) == fold_ascii(b)),
{
    let fa: u32 = if 'A' <= a && a <= 'Z' { (a as u32) + 32 } else { a as u32 };
    let fb: u32 = if 'A' <= b && b <= 'Z' { (b as u32) + 32 } else { b as u32 };
    proof {
        if 'A' <= a <= 'Z' {
            assert(fold_ascii(a) as u32 == fa);
        }
        if 'A' <= b <= 'Z' {
            assert(fold_ascii(b) as u32 == fb);
        }
    }
    fa == fb
}

proof fn lemma_skip_first<A>(s: Seq<A>, i: int)
    requires
        0 <= i < s.len(),
    ensures
        s.skip(i).drop_first() =~= s.skip(i + 1),
        s.skip(i)[0] == s[i],
        s.skip(i).len() > 0,
{
}

/// Whether `text` matches `pattern` under `LIKE`.
///
/// Runs in time proportional to the product of the two lengths and keeps one
/// row of the match table per pattern position.
pub fn like_matches(pattern: &[char], text: &[char]) -> (r: bool)
    ensures
        r == like_match(pattern@, text@),
{
    let m = pattern.len();
    let n = text.len();
    // next[j] == like_match(pattern.skip(i + 1), text.skip(j)) for the row below.
    let mut next: Vec<bool> = Vec::new();
    let mut j: usize = 0;
    assert(pattern@.skip(m as int).len() == 0);
    while j < n
        invariant
            j <= n,
            m == pattern@.len(),
            n == text@.len(),
            next@.len() == j,
            forall|k: int| 0 <= k < j ==> next@[k] == like_match(pattern@.skip(m as int), text@.skip(k)),
        decreases n - j,
    {
        assert(pattern@.skip(m as int).len() == 0);
        assert(text@.skip(j as int).len() > 0);
        next.push(false);
        j = j + 1;
    }
    assert(text@.skip(n as int).len() == 0);
    next.push(true);
    let mut i: usize = m;
    while i > 0
        invariant
            i <= m,
            m == pattern@.len(),
            n == text@.len(),
            next@.len() == n + 1,
            forall|k: int| 0 <= k <= n ==> next@[k] == like_match(pattern@.skip(i as int), text@.skip(k)),
        decreases i,
    {
        let pi = i - 1;
        let pc = pattern[pi];
        let mut cur: Vec<bool> = Vec::new();
        // fill from j = n down to 0; cur is built reversed, so compute into a
        // full-length vector by first pushing placeholders
        let mut k: usize = 0;
        while k < n
            invariant
                k <= n,
                cur@.len() == k,
            decreases n - k,
        {
            cur.push(false);
            k = k + 1;
        }
        cur.push(false);
        let mut jj: usize = cur.len();
        while jj > 0
            invariant
                jj <= n + 1,
                cur@.len() == n + 1,
                next@.len() == n + 1,
                pi + 1 == i,
                i <= m,
                m == pattern@.len(),
                n == text@.len(),
                pc == pattern@[pi as int],
                forall|k: int| 0 <= k <= n ==> next@[k] == like_match(pattern@.skip(i as int), text@.skip(k)),
                forall|k: int| jj <= k <= n ==> cur@[k] == like_match(pattern@.skip(pi as int), text@.skip(k)),
            decreases jj,
        {
            let j = jj - 1;
            proof {
                lemma_skip_first(pattern@, pi as int);
            }
            let v: bool;
            if pc == '%' {
                if j < n {
                    proof {
                        lemma_skip_first(text@, j as int);
                    }
                    v = next[j] || cur[j + 1];
                } else {
                    v = next[j];
                }
            } else if j == n {
                assert(text@.skip(j as int).len() == 0);
                v = false;
            } else {
                proof {
                    lemma_skip_first(text@, j as int);
                }
                if pc == '_' || chars_match_fold(pc, text[j]) {
                    v = next[j + 1];
                } else {
                    v = false;
                }
            }
            cur.set(j, v);
            jj = j;
        }
        next = cur;
        i = pi;
    }
    assert(pattern@.skip(0) =~= pattern@);
    assert(text@.skip(0) =~= text@);
    next[0]
}

/// `s` with ASCII case folded (see [`fold_ascii`]).
pub open spec fn fold_text(s: Seq<char>) -> Seq<char> {
    s.map_values(|c: char| fold_ascii(c))
}

proof fn lemma_fold_char(c: char)
    ensures
        fold_ascii(fold_ascii(c)) == fold_ascii(c),
        (fold_ascii(c) == '%') == (c == '%'),
        (fold_ascii(c) == '_') == (c == '_'),
{
    if 'A' <= c <= 'Z' {
        let x: int = (c as u32) + 32;
        assert(97 <= x <= 122);
        assert(fold_ascii(c) as int == x);
    }
}

proof fn lemma_fold_drop_first(s: Seq<char>)
    requires
        s.len() > 0,
    ensures
        fold_text(s).drop_first() =~= fold_text(s.drop_first()),
        fold_text(s)[0] == fold_ascii(s[0]),
        fold_text(s).len() == s.len(),
{
}

/// Matching ignores ASCII case on both sides: a pattern matches a text
/// exactly when it matches it after both are folded to lower case.
pub proof fn law_like_ignores_case(p: Seq<char>, t: Seq<char>)
    ensures
        like_match(p, t) == like_match(fold_text(p), fold_text(t)),
    decreases p.len(), t.len(),
{
    let fp = fold_text(p);
    let ft = fold_text(t);
    if p.len() == 0 {
        assert(fp.len() == 0);
        assert(ft.len() == t.len());
    } else {
        lemma_fold_char(p[0]);
        lemma_fold_drop_first(p);
        assert(ft.len() == t.len());
        if p[0] == '%' {
            law_like_ignores_case(p.drop_first(), t);
            if t.len() > 0 {
                lemma_fold_drop_first(t);
                law_like_ignores_case(p, t.drop_first());
            }
        } else if t.len() == 0 {
        } else {
            lemma_fold_char(t[0]);
            lemma_fold_drop_first(t);
            law_like_ignores_case(p.drop_first(), t.drop_first());
        }
    }
}

/// Every text matches itself taken as a pattern (`%` and `_` in it match
/// themselves too).
pub proof fn law_like_matches_itself(t: Seq<char>)
    ensures
        like_match(t, t),
    decreases t.len(),
{
    if t.len() > 0 {
        law_like_matches_itself(t.drop_first());
        if t[0] == '%' {
            assert(like_match(t, t.drop_first()));
        }
    }
}

/// A text matches itself followed by `%`.
proof fn lemma_like_trailing_any(t: Seq<char>)
    ensures
        like_match(t + seq!['%'], t),
    decreases t.len(),
{
    let p = t + seq!['%'];
    if t.len() == 0 {
        assert(p.drop_first() =~= Seq::<char>::empty());
        assert(p[0] == '%' && p.len() == 1);
        assert(like_match(p.drop_first(), t));
    } else {
        assert(p.drop_first() =~= t.drop_first() + seq!['%']);
        assert(p[0] == t[0]);
        lemma_like_trailing_any(t.drop_first());
        assert(like_match(p.drop_first(), t.drop_first()));
        if t[0] == '%' {
            assert(like_match(p, t.drop_first()));
        }
    }
}

/// The pattern `%q%` matches every text that holds `q`, and `q` itself in
/// particular.
pub proof fn law_like_surrounded_matches(q: Seq<char>)
    ensures
        like_match(seq!['%'] + q + seq!['%'], q),
{
    let p = seq!['%'] + q + seq!['%'];
    assert(p.drop_first() =~= q + seq!['%']);
    lemma_like_trailing_any(q);
}

} // verus!
