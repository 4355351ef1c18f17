//! Moving images kept as files under `images/` into the store: whether a
//! table needs it, and where an image's thumbnail file lies. Reading the
//! files is left to the caller.

use vstd::prelude::*;
use crate::text::{chars_of, string_from_chars, push_str_chars};

verus! {

/// The position of the last `/` in `s`, if any.
pub open spec fn last_slash(s: Seq<char>) -> Option<int>
    decreases s.len(),
{
    if s.len() == 0 {
        None
    } else if s.last() == '/' {
        Some(s.len() - 1)
    } else {
        last_slash(s.drop_last())
    }
}

/// The thumbnail file of the image file `rel_path`: `thumb_` put before
/// the part after the last `/`; none without a `/`.
pub open spec fn thumbnail_path_of(rel_path: Seq<char>) -> Option<Seq<char>> {
    match last_slash(rel_path) {
        Some(i) => Some(rel_path.take(i + 1) + "thumb_"@ + rel_path.skip(i + 1)),
        None => None,
    }
}

/// The thumbnail file of an image file (see [`thumbnail_path_of`]).
pub fn thumbnail_path(rel_path: &str) -> (r: Option<String>)
    ensures
        match (r, thumbnail_path_of(rel_path@)) {
            (Some(a), Some(b)) => a@ == b,
            (None, None) => true,
            _ => false,
        },
{
    let cs = chars_of(rel_path);
    let mut k: usize = cs.len();
    assert(cs@.take(k as int) =~= cs@);
    while k > 0 && cs[k - 1] != '/'
        invariant
            k <= cs@.len(),
            cs@ == rel_path@,
            last_slash(cs@) == last_slash(cs@.take(k as int)),
        decreases k,
    {
        assert(cs@.take(k as int).drop_last() =~= cs@.take(k - 1));
        k = k - 1;
    }
    if k == 0 {
        assert(cs@.take(0) =~= Seq::<char>::empty());
        return None;
    }
    assert(cs@.take(k as int).last() == '/');
    assert(last_slash(cs@) == Some((k - 1) as int));
    let mut out: Vec<char> = Vec::new();
    let mut j: usize = 0;
    while j < k
        invariant
            j <= k <= cs@.len(),
            out@ == cs@.take(j as int),
        decreases k - j,
    {
        out.push(cs[j]);
        assert(cs@.take(j + 1) =~= cs@.take(j as int).push(cs@[j as int]));
        j = j + 1;
    }
    push_str_chars(&mut out, "thumb_");
    let ghost mid = out@;
    while j < cs.len()
        invariant
            k <= j <= cs@.len(),
            out@ == mid + cs@.subrange(k as int, j as int),
        decreases cs.len() - j,
    {
        out.push(cs[j]);
        assert(cs@.subrange(k as int, j + 1) =~= cs@.subrange(k as int, j as int).push(cs@[j as int]));
        j = j + 1;
    }
    assert(out@ =~= cs@.take(k as int) + "thumb_"@ + cs@.skip(k as int));
    Some(string_from_chars(out.as_slice()))
}

/// Whether the records table needs its images moved in, from how many
/// `content_blob` and `content_path` columns it has: only a table without
/// the blob column and with the path column.
pub fn needs_blob_migration(blob_columns: i64, path_columns: i64) -> (r: bool)
    ensures
        r == (blob_columns <= 0 && path_columns != 0),
{
    !(blob_columns > 0 || path_columns == 0)
}

} // verus!
