//! Character-level utilities shared by the library: collecting the characters
//! of a string, building strings, white space, decimal and hexadecimal
//! rendering of integers, and UTF-8 byte widths.

use vstd::prelude::*;
use vstd::utf8::{encode_utf8, encode_scalar, valid_utf8, decode_utf8};

verus! {

broadcast use vstd::string::group_string_axioms;

/// The characters of `s`, in order.
pub fn chars_of(s: &str) -> (r: Vec<char>)
    ensures
        r@ == s@,
{
    let mut out: Vec<char> = Vec::new();
    for c in it: s.chars()
        invariant
            out@ == it.seq().take(it.index() as int),
            it.seq() == s@,
    {
        out.push(c);
        proof {
            assert(it.seq().take(it.index() + 1) =~= it.seq().take(it.index() as int).push(c));
        }
    }
    out
}

/// Builds a `String` holding exactly the characters of `v`.
///
/// Wraps `Iterator::collect` of `std` into a `String`; the contract claims
/// that the string's characters are those of the slice, in order.
#[verifier::external_body]
pub fn string_from_chars(v: &[char]) -> (r: String)
    ensures
        r@ == v@,
{
    v.iter().collect()
}


/// Appends the characters of `s` to `out`.
pub fn push_str_chars(out: &mut Vec<char>, s: &str)
    ensures
        final(out)@ == old(out)@ + s@,
{
    let cs = chars_of(s);
    let mut k: usize = 0;
    while k < cs.len()
        invariant
            k <= cs@.len(),
            cs@ == s@,
            out@ == old(out)@ + cs@.take(k as int),
        decreases cs.len() - k,
    {
        out.push(cs[k]);
        assert(cs@.take(k + 1) =~= cs@.take(k as int).push(cs@[k as int]));
        k = k + 1;
    }
    assert(cs@.take(k as int) =~= cs@);
}

/// Whether `s` ends with `suffix`.
pub open spec fn ends_with(s: Seq<char>, suffix: Seq<char>) -> bool {
    suffix.len() <= s.len() && s.subrange(s.len() - suffix.len(), s.len() as int) == suffix
}

/// Whether the characters `s` end with `suffix` (see [`ends_with`]).
pub fn chars_end_with(s: &Vec<char>, suffix: &Vec<char>) -> (r: bool)
    ensures
        r == ends_with(s@, suffix@),
{
    if suffix.len() > s.len() {
        return false;
    }
    let n: usize = s.len();
    let base: usize = n - suffix.len();
    let mut k: usize = 0;
    while k < suffix.len()
        invariant
            n == s@.len(),
            base == n - suffix@.len(),
            suffix@.len() <= n,
            k <= suffix@.len(),
            forall|j: int| 0 <= j < k ==> s@[base + j] == suffix@[j],
        decreases suffix.len() - k,
    {
        let at: usize = base + k;
        if s[at] != suffix[k] {
            assert(s@.subrange(base as int, s@.len() as int)[k as int] != suffix@[k as int]);
            return false;
        }
        k = k + 1;
    }
    assert(s@.subrange(base as int, s@.len() as int) =~= suffix@);
    true
}

/// Whether two strings hold the same characters.
pub fn str_eq(a: &str, b: &str) -> (r: bool)
    ensures
        r == (a@ == b@),
{
    let x = a.to_owned();
    let y = b.to_owned();
    x == y
}

/// What `String::from_utf8_lossy` makes of `bytes`: the text they encode,
/// with each ill-formed sequence replaced by U+FFFD.
pub uninterp spec fn utf8_lossy(bytes: Seq<u8>) -> Seq<char>;

/// The text of `bytes`, ill-formed sequences replaced by U+FFFD.
///
/// Calls `String::from_utf8_lossy` of `std`. The contract names the result
/// [`utf8_lossy`] of the bytes and claims, as `std` documents, that bytes
/// that are well-formed UTF-8 give exactly the text they encode.
#[verifier::external_body]
pub fn text_from_utf8_lossy(bytes: &[u8]) -> (r: String)
    ensures
        r@ == utf8_lossy(bytes@),
        valid_utf8(bytes@) ==> r@ == decode_utf8(bytes@),
{
    String::from_utf8_lossy(bytes).into_owned()
}

/// Whether `c` is white space in Unicode's sense (the property
/// `White_Space`), which is what `char::is_whitespace` tests.
pub open spec fn is_white(c: char) -> bool {
    ('\u{9}' <= c && c <= '\u{d}') || c == ' ' || c == '\u{85}' || c == '\u{a0}' || c == '\u{1680}'
        || ('\u{2000}' <= c && c <= '\u{200a}') || c == '\u{2028}' || c == '\u{2029}'
        || c == '\u{202f}' || c == '\u{205f}' || c == '\u{3000}'
}

/// Whether `c` is white space (see [`is_white`]).
pub fn char_is_white(c: char) -> (r: bool)
    ensures
        r == is_white(c),
{
    ('\u{9}' <= c && c <= '\u{d}') || c == ' ' || c == '\u{85}' || c == '\u{a0}' || c == '\u{1680}'
        || ('\u{2000}' <= c && c <= '\u{200a}') || c == '\u{2028}' || c == '\u{2029}'
        || c == '\u{202f}' || c == '\u{205f}' || c == '\u{3000}'
}

/// Whether every character of `s` is white space (so `s` trims to nothing).
pub open spec fn is_blank(s: Seq<char>) -> bool {
    forall|i: int| 0 <= i < s.len() ==> is_white(#[trigger] s[i])
}

/// Whether `s` holds nothing but white space.
pub fn str_is_blank(s: &str) -> (r: bool)
    ensures
        r == is_blank(s@),
{
    let cs = chars_of(s);
    let mut i: usize = 0;
    while i < cs.len()
        invariant
            cs@ == s@,
            i <= cs@.len(),
            forall|j: int| 0 <= j < i ==> is_white(#[trigger] cs@[j]),
        decreases cs.len() - i,
    {
        if !char_is_white(cs[i]) {
            return false;
        }
        i = i + 1;
    }
    true
}

/// The words of `s` that have been split off when `rest` is still to be
/// read: `done` are the finished words, `cur` the word being read.
pub open spec fn split_white_from(rest: Seq<char>, done: Seq<Seq<char>>, cur: Seq<char>) -> Seq<Seq<char>>
    decreases rest.len(),
{
    let flushed = if cur.len() > 0 { done.push(cur) } else { done };
    if rest.len() == 0 {
        flushed
    } else if is_white(rest[0]) {
        split_white_from(rest.drop_first(), flushed, Seq::empty())
    } else {
        split_white_from(rest.drop_first(), done, cur.push(rest[0]))
    }
}

/// The maximal runs of characters of `s` that are not white space, in
/// order; what `str::split_whitespace` yields.
pub open spec fn split_white(s: Seq<char>) -> Seq<Seq<char>> {
    split_white_from(s, Seq::empty(), Seq::empty())
}

/// The words of `s` (see [`split_white`]).
pub fn split_whitespace_words(s: &str) -> (r: Vec<String>)
    ensures
        r@.map_values(|w: String| w@) == split_white(s@),
{
    let cs = chars_of(s);
    let mut done: Vec<String> = Vec::new();
    let mut cur: Vec<char> = Vec::new();
    let mut i: usize = 0;
    assert(cs@.skip(0) =~= cs@);
    assert(done@.map_values(|w: String| w@) =~= Seq::<Seq<char>>::empty());
    assert(cur@ =~= Seq::<char>::empty());
    while i < cs.len()
        invariant
            cs@ == s@,
            i <= cs@.len(),
            split_white_from(cs@.skip(i as int), done@.map_values(|w: String| w@), cur@) == split_white(s@),
        decreases cs.len() - i,
    {
        let c = cs[i];
        assert(cs@.skip(i as int)[0] == c);
        assert(cs@.skip(i as int).drop_first() =~= cs@.skip(i + 1));
        if char_is_white(c) {
            if cur.len() > 0 {
                let ghost before = done@.map_values(|w: String| w@);
                let w = string_from_chars(cur.as_slice());
                done.push(w);
                assert(done@.map_values(|w: String| w@) =~= before.push(cur@));
            }
            cur = Vec::new();
        } else {
            cur.push(c);
        }
        i = i + 1;
    }
    assert(cs@.skip(i as int) =~= Seq::<char>::empty());
    if cur.len() > 0 {
        let ghost before = done@.map_values(|w: String| w@);
        let w = string_from_chars(cur.as_slice());
        done.push(w);
        assert(done@.map_values(|w: String| w@) =~= before.push(cur@));
    }
    assert(done@.map_values(|w: String| w@) =~= split_white(s@));
    done
}

/// `s` without its leading white space.
pub open spec fn trim_start_white(s: Seq<char>) -> Seq<char>
    decreases s.len(),
{
    if s.len() > 0 && is_white(s[0]) {
        trim_start_white(s.drop_first())
    } else {
        s
    }
}

/// `s` without its trailing white space.
pub open spec fn trim_end_white(s: Seq<char>) -> Seq<char>
    decreases s.len(),
{
    if s.len() > 0 && is_white(s.last()) {
        trim_end_white(s.drop_last())
    } else {
        s
    }
}

/// `s` without leading and trailing white space; what `str::trim` gives.
pub open spec fn trim_white(s: Seq<char>) -> Seq<char> {
    trim_end_white(trim_start_white(s))
}

/// `s` without leading and trailing white space (see [`trim_white`]).
pub fn str_trim(s: &str) -> (r: String)
    ensures
        r@ == trim_white(s@),
{
    let cs = chars_of(s);
    let n: usize = cs.len();
    let mut a: usize = 0;
    assert(cs@.skip(0) =~= cs@);
    while a < n && char_is_white(cs[a])
        invariant
            n == cs@.len(),
            cs@ == s@,
            a <= n,
            trim_start_white(cs@.skip(a as int)) == trim_start_white(s@),
        decreases n - a,
    {
        assert(cs@.skip(a as int).drop_first() =~= cs@.skip(a + 1));
        a = a + 1;
    }
    let ghost t = cs@.skip(a as int);
    assert(trim_start_white(t) == t);
    let mut b: usize = n;
    assert(t.take((b - a) as int) =~= t);
    while b > a && char_is_white(cs[b - 1])
        invariant
            n == cs@.len(),
            a <= b <= n,
            t == cs@.skip(a as int),
            trim_end_white(t.take((b - a) as int)) == trim_white(s@),
        decreases b - a,
    {
        assert(t.take((b - a) as int).drop_last() =~= t.take((b - 1 - a) as int));
        assert(t.take((b - a) as int).last() == cs@[b - 1]);
        b = b - 1;
    }
    let ghost u = t.take((b - a) as int);
    assert(trim_end_white(u) == u);
    let piece = vstd::slice::slice_subrange(cs.as_slice(), a, b);
    assert(piece@ =~= u);
    string_from_chars(piece)
}

/// Whether `pat` occurs in `s`.
pub open spec fn contains_seq(s: Seq<char>, pat: Seq<char>) -> bool {
    exists|i: int| 0 <= i && i + pat.len() <= s.len() && #[trigger] s.subrange(i, i + pat.len()) == pat
}

/// Whether `pat` occurs in `s` (see [`contains_seq`]).
pub fn chars_contain(s: &Vec<char>, pat: &Vec<char>) -> (r: bool)
    ensures
        r == contains_seq(s@, pat@),
{
    let n: usize = s.len();
    let m: usize = pat.len();
    if m > n {
        assert forall|i: int| 0 <= i && i + m <= n implies #[trigger] s@.subrange(i, i + m) != pat@ by {}
        return false;
    }
    let mut i: usize = 0;
    while i <= n - m
        invariant
            n == s@.len(),
            m == pat@.len(),
            m <= n,
            i <= n - m + 1,
            forall|j: int| 0 <= j < i ==> #[trigger] s@.subrange(j, j + m) != pat@,
        decreases n - m + 1 - i,
    {
        let mut k: usize = 0;
        while k < m && s[i + k] == pat[k]
            invariant
                n == s@.len(),
                m == pat@.len(),
                i + m <= n,
                k <= m,
                forall|q: int| 0 <= q < k ==> s@[i + q] == pat@[q],
            decreases m - k,
        {
            k = k + 1;
        }
        if k == m {
            assert(s@.subrange(i as int, i + m) =~= pat@);
            return true;
        }
        assert(s@.subrange(i as int, i + m)[k as int] != pat@[k as int]);
        i = i + 1;
    }
    false
}

/// The pieces of `s` between line feeds that are still to be read in
/// `rest`, given the finished pieces `done` and the piece `cur` being read.
pub open spec fn split_lines_from(rest: Seq<char>, done: Seq<Seq<char>>, cur: Seq<char>) -> Seq<Seq<char>>
    decreases rest.len(),
{
    if rest.len() == 0 {
        done.push(cur)
    } else if rest[0] == '\n' {
        split_lines_from(rest.drop_first(), done.push(cur), Seq::empty())
    } else {
        split_lines_from(rest.drop_first(), done, cur.push(rest[0]))
    }
}

/// The pieces of `s` between line feeds, in order (one more than there are
/// line feeds).
pub open spec fn split_lines(s: Seq<char>) -> Seq<Seq<char>> {
    split_lines_from(s, Seq::empty(), Seq::empty())
}

/// The pieces of `s` between line feeds (see [`split_lines`]).
pub fn split_line_pieces(s: &str) -> (r: Vec<Vec<char>>)
    ensures
        r@.map_values(|l: Vec<char>| l@) == split_lines(s@),
{
    let cs = chars_of(s);
    let mut done: Vec<Vec<char>> = Vec::new();
    let mut cur: Vec<char> = Vec::new();
    let mut i: usize = 0;
    assert(cs@.skip(0) =~= cs@);
    assert(done@.map_values(|l: Vec<char>| l@) =~= Seq::<Seq<char>>::empty());
    assert(cur@ =~= Seq::<char>::empty());
    while i < cs.len()
        invariant
            cs@ == s@,
            i <= cs@.len(),
            split_lines_from(cs@.skip(i as int), done@.map_values(|l: Vec<char>| l@), cur@) == split_lines(s@),
        decreases cs.len() - i,
    {
        let c = cs[i];
        assert(cs@.skip(i as int)[0] == c);
        assert(cs@.skip(i as int).drop_first() =~= cs@.skip(i + 1));
        if c == '\n' {
            let ghost before = done@.map_values(|l: Vec<char>| l@);
            let mut piece: Vec<char> = Vec::new();
            std::mem::swap(&mut piece, &mut cur);
            done.push(piece);
            assert(done@.map_values(|l: Vec<char>| l@) =~= before.push(piece@));
            assert(cur@ =~= Seq::<char>::empty());
        } else {
            cur.push(c);
        }
        i = i + 1;
    }
    assert(cs@.skip(i as int) =~= Seq::<char>::empty());
    let ghost before = done@.map_values(|l: Vec<char>| l@);
    let ghost last = cur@;
    done.push(cur);
    assert(done@.map_values(|l: Vec<char>| l@) =~= before.push(last));
    done
}

/// The character of decimal or hexadecimal digit `d` (lower-case letters).
pub open spec fn digit_char(d: int) -> char {
    if d < 10 {
        (48 + d) as char
    } else {
        (87 + d) as char
    }
}

/// The decimal digits of `n`, most significant first, without leading zeros.
pub open spec fn dec_digits(n: nat) -> Seq<char>
    decreases n,
{
    if n < 10 {
        seq![digit_char(n as int)]
    } else {
        dec_digits(n / 10).push(digit_char((n % 10) as int))
    }
}

/// The decimal text of an integer, with a leading `-` when negative; this is
/// what `Display` gives for Rust integers and what SQLite's
/// `CAST(.. AS TEXT)` gives for its integers.
pub open spec fn dec_text(n: int) -> Seq<char> {
    if n < 0 {
        seq!['-'] + dec_digits((-n) as nat)
    } else {
        dec_digits(n as nat)
    }
}

/// The lower-case hexadecimal digits of `n`, most significant first.
pub open spec fn hex_digits(n: nat) -> Seq<char>
    decreases n,
{
    if n < 16 {
        seq![digit_char(n as int)]
    } else {
        hex_digits(n / 16).push(digit_char((n % 16) as int))
    }
}

/// `s` left-padded with `'0'` to at least `width` characters.
pub open spec fn zero_pad(s: Seq<char>, width: nat) -> Seq<char> {
    if s.len() >= width {
        s
    } else {
        Seq::new((width - s.len()) as nat, |i: int| '0') + s
    }
}

/// The character of digit `d`.
pub fn digit_to_char(d: u64) -> (c: char)
    requires
        d < 16,
    ensures
        c == digit_char(d as int),
{
    if d < 10 {
        ((48 + d) as u8) as char
    } else {
        ((87 + d) as u8) as char
    }
}

/// Appends the decimal digits of `x` to `out`.
pub fn push_dec_digits(x: u64, out: &mut Vec<char>)
    ensures
        final(out)@ == old(out)@ + dec_digits(x as nat),
    decreases x,
{
    if x >= 10 {
        push_dec_digits(x / 10, out);
    }
    let c = digit_to_char(x % 10);
    out.push(c);
    proof {
        if x < 10 {
            assert(dec_digits(x as nat) =~= seq![c]);
        }
    }
}

/// Appends the lower-case hexadecimal digits of `x` to `out`.
pub fn push_hex_digits(x: u64, out: &mut Vec<char>)
    ensures
        final(out)@ == old(out)@ + hex_digits(x as nat),
    decreases x,
{
    if x >= 16 {
        push_hex_digits(x / 16, out);
    }
    let c = digit_to_char(x % 16);
    out.push(c);
    proof {
        if x < 16 {
            assert(hex_digits(x as nat) =~= seq![c]);
        }
    }
}

/// Appends the decimal text of `n` to `out`.
pub fn push_dec_text(n: i64, out: &mut Vec<char>)
    ensures
        final(out)@ == old(out)@ + dec_text(n as int),
{
    if n < 0 {
        out.push('-');
        let m: u64 = (-(n as i128)) as u64;
        push_dec_digits(m, out);
    } else {
        push_dec_digits(n as u64, out);
    }
}

/// Appends `hex_digits(x)` left-padded with zeros to `width` characters.
pub fn push_hex_padded(x: u64, width: usize, out: &mut Vec<char>)
    ensures
        final(out)@ == old(out)@ + zero_pad(hex_digits(x as nat), width as nat),
{
    let mut digits: Vec<char> = Vec::new();
    push_hex_digits(x, &mut digits);
    assert(digits@ =~= hex_digits(x as nat));
    let start = out.len();
    if digits.len() < width {
        let pad = width - digits.len();
        let mut i: usize = 0;
        while i < pad
            invariant
                i <= pad,
                out@.len() == start + i,
                forall|k: int| 0 <= k < start ==> out@[k] == old(out)@[k],
                forall|k: int| start <= k < start + i ==> out@[k] == '0',
                start == old(out)@.len(),
            decreases pad - i,
        {
            out.push('0');
            i = i + 1;
        }
    }
    let mid = out.len();
    let mut j: usize = 0;
    while j < digits.len()
        invariant
            j <= digits.len(),
            out@.len() == mid + j,
            forall|k: int| 0 <= k < mid ==> out@[k] == old(out)@.add(zero_pad(hex_digits(x as nat), width as nat))[k],
            forall|k: int| 0 <= k < j ==> out@[mid + k] == digits@[k],
            mid == start + (if digits@.len() < width { width - digits@.len() } else { 0int }),
            start == old(out)@.len(),
            digits@ == hex_digits(x as nat),
        decreases digits.len() - j,
    {
        out.push(digits[j]);
        j = j + 1;
    }
    assert(out@ =~= old(out)@ + zero_pad(hex_digits(x as nat), width as nat));
}


/// The number of bytes of the UTF-8 encoding of `c`.
pub open spec fn char_utf8_len(c: char) -> nat {
    if (c as u32) < 0x80 {
        1
    } else if (c as u32) < 0x800 {
        2
    } else if (c as u32) < 0x10000 {
        3
    } else {
        4
    }
}

/// The number of bytes of the UTF-8 encoding of `s`.
pub open spec fn utf8_len(s: Seq<char>) -> nat
    decreases s.len(),
{
    if s.len() == 0 {
        0
    } else {
        utf8_len(s.drop_last()) + char_utf8_len(s.last())
    }
}

/// `utf8_len` adds up over concatenation.
pub proof fn lemma_utf8_len_add(a: Seq<char>, b: Seq<char>)
    ensures
        utf8_len(a + b) == utf8_len(a) + utf8_len(b),
    decreases b.len(),
{
    if b.len() == 0 {
        assert(a + b =~= a);
    } else {
        assert((a + b).drop_last() =~= a + b.drop_last());
        lemma_utf8_len_add(a, b.drop_last());
    }
}

/// `utf8_len` of a sequence, split at its first character.
pub proof fn lemma_utf8_len_first(s: Seq<char>)
    requires
        s.len() > 0,
    ensures
        utf8_len(s) == char_utf8_len(s[0]) + utf8_len(s.drop_first()),
{
    let head = seq![s[0]];
    assert(s =~= head + s.drop_first());
    lemma_utf8_len_add(head, s.drop_first());
    assert(head.drop_last() =~= Seq::<char>::empty());
    assert(utf8_len(head) == utf8_len(head.drop_last()) + char_utf8_len(head.last()));
}

/// `utf8_len` is the length of vstd's UTF-8 encoding, that is, the byte
/// length that `str::len` reports.
pub proof fn lemma_utf8_len_is_encoded_len(s: Seq<char>)
    ensures
        encode_utf8(s).len() == utf8_len(s),
    decreases s.len(),
{
    if s.len() > 0 {
        lemma_utf8_len_first(s);
        lemma_utf8_len_is_encoded_len(s.drop_first());
        let c = s[0];
        vstd::utf8::char_is_scalar(c);
        assert(encode_scalar(c as u32).len() == char_utf8_len(c));
    }
}

/// The number of bytes of the UTF-8 encoding of `c`.
pub fn char_len_utf8(c: char) -> (r: usize)
    ensures
        r == char_utf8_len(c),
        1 <= r <= 4,
{
    let v = c as u32;
    if v < 0x80 {
        1
    } else if v < 0x800 {
        2
    } else if v < 0x10000 {
        3
    } else {
        4
    }
}

/// The number of bytes of the UTF-8 encoding of `s`, or `None` when that
/// number does not fit in a `usize`.
pub fn utf8_len_of(s: &[char]) -> (r: Option<usize>)
    ensures
        r matches Some(n) ==> n == utf8_len(s@),
        r is None ==> utf8_len(s@) > usize::MAX,
{
    let mut total: usize = 0;
    let mut i: usize = 0;
    while i < s.len()
        invariant
            i <= s@.len(),
            total == utf8_len(s@.take(i as int)),
        decreases s.len() - i,
    {
        let w = char_len_utf8(s[i]);
        assert(s@.take(i + 1).drop_last() =~= s@.take(i as int));
        if total > usize::MAX - w {
            proof {
                lemma_utf8_len_add(s@.take(i + 1), s@.skip(i + 1));
                assert(s@.take(i + 1) + s@.skip(i + 1) =~= s@);
            }
            return None;
        }
        total = total + w;
        i = i + 1;
    }
    assert(s@.take(i as int) =~= s@);
    Some(total)
}

} // verus!
