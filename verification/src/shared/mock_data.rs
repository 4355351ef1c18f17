//! Sample records for trying the history out: texts cut from an article (or
//! numbered placeholders when it has no words), stamped at pseudo-random
//! points of the last two days.

use vstd::prelude::*;
use vstd::wrapping::u64_specs::wrapping_add;
use crate::shared::database::{Database, StoreError, add_to_count, visible_count};
use crate::text::{
    dec_digits, chars_of, string_from_chars, push_dec_digits, split_white, split_whitespace_words,
};

verus! {

/// Two days in milliseconds: the span before `now` over which sample
/// records are spread.
pub const TWO_DAYS_MS: u64 = 172_800_000;

/// One xorshift step from `seed` (a zero seed counts as one).
pub open spec fn xorshift64(seed: usize) -> u64 {
    let x0: u64 = if seed as u64 == 0 { 1u64 } else { seed as u64 };
    let x1: u64 = x0 ^ (x0 << 13u64);
    let x2: u64 = x1 ^ (x1 >> 7u64);
    x2 ^ (x2 << 17u64)
}

/// A pseudo-random number derived from `seed` (see [`xorshift64`]).
pub fn rand_simple(seed: usize) -> (r: u64)
    ensures
        r == xorshift64(seed),
{
    let mut x: u64 = seed as u64;
    if x == 0 {
        x = 1;
    }
    x = x ^ (x << 13u64);
    x = x ^ (x >> 7u64);
    x = x ^ (x << 17u64);
    x
}

/// The words of `ws` joined by single spaces.
pub open spec fn join_words(ws: Seq<Seq<char>>) -> Seq<char>
    decreases ws.len(),
{
    if ws.len() == 0 {
        Seq::empty()
    } else if ws.len() == 1 {
        ws[0]
    } else {
        join_words(ws.drop_last()) + seq![' '] + ws.last()
    }
}

/// The smaller of two integers.
pub open spec fn min_int(a: int, b: int) -> int {
    if a <= b { a } else { b }
}

/// The text of sample record number `index` made at `now` from the words of
/// an article: a run of 5 to 100 consecutive words (fewer where the article
/// ends first) at a pseudo-random place, or `Mock data #<index>` when there
/// are no words.
pub open spec fn mock_text(index: usize, now: i64, words: Seq<Seq<char>>) -> Seq<char> {
    if words.len() == 0 {
        "Mock data #"@ + dec_digits(index as nat)
    } else {
        let seed_a = wrapping_add(index as u64, now as u64);
        let len_seed = xorshift64(seed_a as usize);
        let start_seed = xorshift64(wrapping_add(seed_a, 1u64) as usize);
        let len = min_int(5 + (len_seed % 96) as int, words.len() as int);
        let start = (start_seed % (words.len() as u64)) as int;
        let end = min_int(start + len, words.len() as int);
        join_words(words.subrange(start, end))
    }
}

/// The time given to sample record number `index`: `now` less a
/// pseudo-random part of two days.
pub open spec fn mock_time(index: usize, now: i64) -> i64 {
    (now - (xorshift64(index) % TWO_DAYS_MS) as int) as i64
}

/// The sample records, text and time, made at `now` when `current` records
/// are visible: record `i` is number `current + i + 1`.
pub open spec fn mock_entries(current: nat, count: nat, now: i64, words: Seq<Seq<char>>) -> Seq<(Seq<char>, i64)> {
    Seq::new(count, |i: int| {
        let index = (current + i + 1) as usize;
        (mock_text(index, now, words), mock_time(index, now))
    })
}

/// The words of `ws` joined by single spaces.
fn join_words_exec(ws: &[String]) -> (r: String)
    ensures
        r@ == join_words(ws@.map_values(|w: String| w@)),
{
    let ghost wv = ws@.map_values(|w: String| w@);
    let mut out: Vec<char> = Vec::new();
    let mut i: usize = 0;
    while i < ws.len()
        invariant
            wv == ws@.map_values(|w: String| w@),
            i <= ws@.len(),
            out@ == join_words(wv.take(i as int)),
        decreases ws.len() - i,
    {
        let cs = chars_of(ws[i].as_str());
        if i > 0 {
            out.push(' ');
        }
        let mut k: usize = 0;
        let ghost base = out@;
        while k < cs.len()
            invariant
                k <= cs@.len(),
                out@ == base + cs@.take(k as int),
            decreases cs.len() - k,
        {
            out.push(cs[k]);
            assert(cs@.take(k + 1) =~= cs@.take(k as int).push(cs@[k as int]));
            k = k + 1;
        }
        assert(cs@.take(k as int) =~= cs@);
        assert(wv.take(i + 1).drop_last() =~= wv.take(i as int));
        if i == 0 {
            assert(out@ =~= join_words(wv.take(1)));
        } else {
            assert(out@ =~= join_words(wv.take(i + 1)));
        }
        i = i + 1;
    }
    assert(wv.take(i as int) =~= wv);
    string_from_chars(out.as_slice())
}

/// The text of sample record number `index` (see [`mock_text`]).
pub fn mock_text_exec(index: usize, now: i64, words: &Vec<String>) -> (r: String)
    ensures
        r@ == mock_text(index, now, words@.map_values(|w: String| w@)),
{
    let total: usize = words.len();
    if total == 0 {
        let mut out = chars_of("Mock data #");
        push_dec_digits(index as u64, &mut out);
        string_from_chars(out.as_slice())
    } else {
        let seed_a: u64 = (index as u64).wrapping_add(now as u64);
        let len_seed = rand_simple(seed_a as usize);
        let start_seed = rand_simple(seed_a.wrapping_add(1) as usize);
        let desired: u64 = 5 + len_seed % 96;
        let len: usize = if desired <= total as u64 { desired as usize } else { total };
        let start: usize = (start_seed % (total as u64)) as usize;
        let end: usize = if len <= total - start { start + len } else { total };
        let slice = vstd::slice::slice_subrange(words.as_slice(), start, end);
        let r = join_words_exec(slice);
        assert(slice@.map_values(|w: String| w@) =~= words@.map_values(|w: String| w@).subrange(start as int, end as int));
        r
    }
}

impl Database {
    /// Adds `count` sample records made at `now` from the words of
    /// `article` (see [`mock_entries`]); a sample text already held is
    /// skipped. Returns how many were added.
    pub fn insert_mock_data(&mut self, count: usize, now: i64, article: &str) -> (r: Result<usize, StoreError>)
        requires
            old(self)@.wf(),
            visible_count(old(self)@.items) + count < usize::MAX,
            now >= i64::MIN + TWO_DAYS_MS,
        ensures
            final(self)@.wf(),
            ({
                let (sr, sv) = old(self)@.add_new_texts(
                    mock_entries(visible_count(old(self)@.items), count as nat, now, split_white(article@)),
                );
                &&& final(self)@ == sv
                &&& match (r, sr) {
                    (Ok(a), Ok(b)) => a as nat == b,
                    (Err(a), Err(b)) => a == b,
                    _ => false,
                }
            }),
    {
        let current = match self.count() {
            Ok(n) => n,
            Err(e) => {
                return Err(e);
            },
        };
        let words = split_whitespace_words(article);
        let ghost ws = split_white(article@);
        let ghost es = mock_entries(current as nat, count as nat, now, ws);
        let mut inserted: usize = 0;
        let mut i: usize = 0;
        assert(es.skip(0) =~= es);
        while i < count
            invariant
                i <= count,
                current + count < usize::MAX,
                current == visible_count(old(self)@.items),
                now >= i64::MIN + TWO_DAYS_MS,
                words@.map_values(|w: String| w@) == ws,
                ws == split_white(article@),
                es == mock_entries(current as nat, count as nat, now, ws),
                self@.wf(),
                inserted <= i,
                ({
                    let (r0, v0) = old(self)@.add_new_texts(es);
                    let (r1, v1) = self@.add_new_texts(es.skip(i as int));
                    v0 == v1 && r0 == add_to_count(r1, inserted as nat)
                }),
            decreases count - i,
        {
            let index: usize = current + i + 1;
            let offset: u64 = rand_simple(index) % TWO_DAYS_MS;
            let created_at: i64 = now - offset as i64;
            let text = mock_text_exec(index, now, &words);
            assert(es.skip(i as int)[0] == (text@, created_at));
            assert(es.skip(i as int).drop_first() =~= es.skip(i + 1));
            match self.add_new_text(text.as_str(), created_at) {
                Err(e) => {
                    return Err(e);
                },
                Ok(added) => {
                    if added {
                        inserted = inserted + 1;
                    }
                },
            }
            i = i + 1;
        }
        assert(es.skip(i as int) =~= Seq::<(Seq<char>, i64)>::empty());
        Ok(inserted)
    }
}

} // verus!
