//! This device's stable identifier: the one stored before, else the
//! machine's GUID from the registry, else one made from the clock. Reading
//! and writing the stored file and querying the registry are left to the
//! caller.

use vstd::prelude::*;
use vstd::wrapping::u32_specs::wrapping_mul;
use crate::text::{
    digit_char,
    trim_white, str_trim, split_white, split_whitespace_words, contains_seq, chars_contain, chars_of,
    split_lines, split_line_pieces, string_from_chars, push_hex_digits, push_hex_padded, hex_digits, zero_pad,
};

verus! {

/// The stored identifier read back from the identifier file's `content`:
/// the content without surrounding white space, unless that is empty.
pub open spec fn stored_id_of(content: Seq<char>) -> Option<Seq<char>> {
    if trim_white(content).len() > 0 {
        Some(trim_white(content))
    } else {
        None
    }
}

/// The stored identifier in the identifier file's `content` (see
/// [`stored_id_of`]).
pub fn stored_device_id(content: &str) -> (r: Option<String>)
    ensures
        match (r, stored_id_of(content@)) {
            (Some(a), Some(b)) => a@ == b,
            (None, None) => true,
            _ => false,
        },
{
    let t = str_trim(content);
    if t.as_str().is_empty() {
        None
    } else {
        Some(t)
    }
}

/// The GUID in the registry query's output, read from its lines in order:
/// the last word of the first line that mentions `MachineGuid` and has at
/// least three words.
pub open spec fn guid_of_lines(lines: Seq<Seq<char>>) -> Option<Seq<char>>
    decreases lines.len(),
{
    if lines.len() == 0 {
        None
    } else if contains_seq(lines[0], "MachineGuid"@) && split_white(lines[0]).len() >= 3 {
        Some(split_white(lines[0]).last())
    } else {
        guid_of_lines(lines.drop_first())
    }
}

/// The machine's GUID in the output of the registry query (see
/// [`guid_of_lines`]; a carriage return before a line feed is white space
/// and changes nothing).
pub fn parse_machine_guid(output: &str) -> (r: Option<String>)
    ensures
        match (r, guid_of_lines(split_lines(output@))) {
            (Some(a), Some(b)) => a@ == b,
            (None, None) => true,
            _ => false,
        },
{
    let lines = split_line_pieces(output);
    let ghost lv = lines@.map_values(|l: Vec<char>| l@);
    let pat = chars_of("MachineGuid");
    let mut i: usize = 0;
    assert(lv.skip(0) =~= lv);
    while i < lines.len()
        invariant
            i <= lines@.len(),
            lv == lines@.map_values(|l: Vec<char>| l@),
            lv == split_lines(output@),
            pat@ == "MachineGuid"@,
            guid_of_lines(lv.skip(i as int)) == guid_of_lines(lv),
        decreases lines.len() - i,
    {
        assert(lv.skip(i as int)[0] == lines@[i as int]@);
        assert(lv.skip(i as int).drop_first() =~= lv.skip(i + 1));
        if chars_contain(&lines[i], &pat) {
            let line = string_from_chars(lines[i].as_slice());
            let words = split_whitespace_words(line.as_str());
            let n: usize = words.len();
            if n >= 3 {
                let w = words[n - 1].clone();
                assert(words@.map_values(|w: String| w@).last() == words@[n - 1]@);
                return Some(w);
            }
        }
        i = i + 1;
    }
    None
}

/// A pseudo-random number from the clock's nanoseconds `nanos`: their low
/// 32 bits times 747796405 (wrapping), then three xorshift steps.
pub open spec fn rand_from_nanos(nanos: u128) -> u32 {
    let x0 = wrapping_mul(nanos as u32, 747796405u32);
    let x1 = x0 ^ (x0 >> 17u32);
    let x2 = x1 ^ (x1 << 5u32);
    x2 ^ (x2 >> 13u32)
}

/// A pseudo-random number from the clock's nanoseconds (see
/// [`rand_from_nanos`]).
pub fn rand_simple(nanos: u128) -> (r: u32)
    ensures
        r == rand_from_nanos(nanos),
{
    let mut x: u32 = (nanos as u32).wrapping_mul(747796405);
    x = x ^ (x >> 17u32);
    x = x ^ (x << 5u32);
    x = x ^ (x >> 13u32);
    x
}

/// The fields of an identifier made from the clock's nanoseconds `now` and
/// a random number, as in a version-4 UUID: the low 32 bits of `now`; its
/// next 16 bits; the 12 bits above those with the version 4 in front; the
/// low 14 bits of `random` with the variant bits `10` in front; and `now`
/// modulo 2^48 - 1, which takes 48 bits.
pub open spec fn fallback_fields(now: u128, random: u32) -> (nat, nat, nat, nat, nat) {
    (
        (now % 0x1_0000_0000) as nat,
        (now / 0x1_0000_0000 % 0x1_0000) as nat,
        (now / 0x1_0000_0000_0000 % 0x1000 + 0x4000) as nat,
        (random % 0x4000 + 0x8000) as nat,
        (now % 0xFFFF_FFFF_FFFF) as nat,
    )
}

/// The identifier made from `now` and `random`: the fields of
/// [`fallback_fields`] in lower-case hexadecimal, padded with zeros to
/// 8, 4, 4, 4 and 12 digits and joined by `-`.
pub open spec fn fallback_id_of(now: u128, random: u32) -> Seq<char> {
    let (a, b, c, d, e) = fallback_fields(now, random);
    zero_pad(hex_digits(a), 8) + seq!['-'] + zero_pad(hex_digits(b), 4) + seq!['-'] + zero_pad(hex_digits(c), 4)
        + seq!['-'] + zero_pad(hex_digits(d), 4) + seq!['-'] + zero_pad(hex_digits(e), 12)
}

/// Whether `c` is a lower-case hexadecimal digit.
pub open spec fn is_hex_char(c: char) -> bool {
    ('0' <= c && c <= '9') || ('a' <= c && c <= 'f')
}

/// Whether `s` has the shape of a version-4 UUID: 36 characters, `-` at
/// positions 8, 13, 18 and 23 and lower-case hexadecimal digits elsewhere,
/// the third group starting with `4` and the fourth with `8`, `9`, `a` or
/// `b`.
pub open spec fn is_uuid_v4_text(s: Seq<char>) -> bool {
    &&& s.len() == 36
    &&& s[8] == '-' && s[13] == '-' && s[18] == '-' && s[23] == '-'
    &&& forall|i: int| 0 <= i < 36 && i != 8 && i != 13 && i != 18 && i != 23 ==> is_hex_char(#[trigger] s[i])
    &&& s[14] == '4'
    &&& (s[19] == '8' || s[19] == '9' || s[19] == 'a' || s[19] == 'b')
}

/// 16 to the power `w`.
pub open spec fn pow16(w: nat) -> nat
    decreases w,
{
    if w == 0 {
        1
    } else {
        16 * pow16((w - 1) as nat)
    }
}

/// A number below 16^w has at most `w` hexadecimal digits, all of them
/// hexadecimal characters.
proof fn lemma_hex_digits_fit(x: nat, w: nat)
    requires
        w >= 1,
        x < pow16(w),
    ensures
        hex_digits(x).len() <= w,
        hex_digits(x).len() >= 1,
        forall|i: int| 0 <= i < hex_digits(x).len() ==> is_hex_char(#[trigger] hex_digits(x)[i]),
    decreases w,
{
    if x < 16 {
        assert(hex_digits(x) =~= seq![digit_char(x as int)]);
    } else {
        assert(w >= 2) by {
            if w == 1 {
                assert(pow16(1) == 16 * pow16(0));
            }
        }
        assert(pow16(w) == 16 * pow16((w - 1) as nat));
        assert(x / 16 < pow16((w - 1) as nat)) by (nonlinear_arith)
            requires
                x < 16 * pow16((w - 1) as nat),
        ;
        lemma_hex_digits_fit(x / 16, (w - 1) as nat);
        let h = hex_digits(x);
        assert(h == hex_digits(x / 16).push(digit_char((x % 16) as int)));
        assert forall|i: int| 0 <= i < h.len() implies is_hex_char(#[trigger] h[i]) by {
            if i < h.len() - 1 {
                assert(h[i] == hex_digits(x / 16)[i]);
            }
        }
    }
}

/// Padding a text of at most `w` hexadecimal characters with zeros gives
/// exactly `w` hexadecimal characters.
proof fn lemma_pad_hex(x: nat, w: nat)
    requires
        w >= 1,
        x < pow16(w),
    ensures
        zero_pad(hex_digits(x), w).len() == w,
        forall|i: int| 0 <= i < w ==> is_hex_char(#[trigger] zero_pad(hex_digits(x), w)[i]),
{
    lemma_hex_digits_fit(x, w);
    let h = hex_digits(x);
    let p = zero_pad(h, w);
    assert forall|i: int| 0 <= i < w implies is_hex_char(#[trigger] p[i]) by {
        if h.len() < w {
            let k = (w - h.len()) as int;
            if i >= k {
                assert(p[i] == h[i - k]);
            }
        }
    }
}

/// A four-digit hexadecimal number starts with the digit of its top four
/// bits.
proof fn lemma_hex_four_first(x: nat)
    requires
        0x1000 <= x < 0x1_0000,
    ensures
        zero_pad(hex_digits(x), 4)[0] == digit_char((x / 0x1000) as int),
{
    vstd::arithmetic::div_mod::lemma_div_denominator(x as int, 16, 16);
    vstd::arithmetic::div_mod::lemma_div_denominator(x as int, 256, 16);
    let x1 = x / 16;
    let x2 = x1 / 16;
    let x3 = x2 / 16;
    assert(x2 == x / 256);
    assert(x3 == x / 4096);
    assert(1 <= x3 < 16);
    assert(16 <= x2 < 256);
    assert(256 <= x1 < 4096);
    assert(hex_digits(x3) =~= seq![digit_char(x3 as int)]);
    assert(hex_digits(x2) == hex_digits(x3).push(digit_char((x2 % 16) as int)));
    assert(hex_digits(x1) == hex_digits(x2).push(digit_char((x1 % 16) as int)));
    assert(hex_digits(x) == hex_digits(x1).push(digit_char((x % 16) as int)));
    assert(hex_digits(x).len() == 4);
    assert(hex_digits(x)[0] == digit_char(x3 as int));
}

/// The identifier made from the clock and a random number has the shape
/// of a version-4 UUID.
pub proof fn law_fallback_id_is_v4(now: u128, random: u32)
    ensures
        is_uuid_v4_text(fallback_id_of(now, random)),
{
    let (a, b, c, d, e) = fallback_fields(now, random);
    assert(pow16(0) == 1);
    assert(pow16(1) == 0x10);
    assert(pow16(2) == 0x100);
    assert(pow16(3) == 0x1000);
    assert(pow16(4) == 0x1_0000);
    assert(pow16(5) == 0x10_0000);
    assert(pow16(6) == 0x100_0000);
    assert(pow16(7) == 0x1000_0000);
    assert(pow16(8) == 0x1_0000_0000);
    assert(pow16(9) == 0x10_0000_0000);
    assert(pow16(10) == 0x100_0000_0000);
    assert(pow16(11) == 0x1000_0000_0000);
    assert(pow16(12) == 0x1_0000_0000_0000);
    lemma_pad_hex(a, 8);
    lemma_pad_hex(b, 4);
    lemma_pad_hex(c, 4);
    lemma_pad_hex(d, 4);
    lemma_pad_hex(e, 12);
    lemma_hex_four_first(c);
    lemma_hex_four_first(d);
    let pa = zero_pad(hex_digits(a), 8);
    let pb = zero_pad(hex_digits(b), 4);
    let pc = zero_pad(hex_digits(c), 4);
    let pd = zero_pad(hex_digits(d), 4);
    let pe = zero_pad(hex_digits(e), 12);
    let s = fallback_id_of(now, random);
    let dash = seq!['-'];
    assert(s =~= pa + dash + pb + dash + pc + dash + pd + dash + pe);
    assert(c / 0x1000 == 4);
    assert(8 <= d / 0x1000 <= 11);
    assert(digit_char(4) == '4');
    assert forall|i: int| 0 <= i < 36 && i != 8 && i != 13 && i != 18 && i != 23 implies is_hex_char(#[trigger] s[i]) by {
        if i < 8 {
            assert(s[i] == pa[i]);
        } else if i < 13 {
            assert(s[i] == pb[i - 9]);
        } else if i < 18 {
            assert(s[i] == pc[i - 14]);
        } else if i < 23 {
            assert(s[i] == pd[i - 19]);
        } else {
            assert(s[i] == pe[i - 24]);
        }
    }
    assert(s[14] == pc[0]);
    assert(s[19] == pd[0]);
}

/// An identifier in the shape of a version-4 UUID made from the clock's
/// nanoseconds `now` and a random number (see [`fallback_id_of`]).
pub fn generate_fallback_uuid(now: u128, random: u32) -> (r: String)
    ensures
        r@ == fallback_id_of(now, random),
        is_uuid_v4_text(r@),
{
    let a: u64 = (now % 0x1_0000_0000) as u64;
    let b: u64 = (now / 0x1_0000_0000 % 0x1_0000) as u64;
    let c: u64 = (now / 0x1_0000_0000_0000 % 0x1000 + 0x4000) as u64;
    let d: u64 = (random % 0x4000 + 0x8000) as u64;
    let e: u64 = (now % 0xFFFF_FFFF_FFFF) as u64;
    let mut out: Vec<char> = Vec::new();
    push_hex_padded(a, 8, &mut out);
    out.push('-');
    push_hex_padded(b, 4, &mut out);
    out.push('-');
    push_hex_padded(c, 4, &mut out);
    out.push('-');
    push_hex_padded(d, 4, &mut out);
    out.push('-');
    push_hex_padded(e, 12, &mut out);
    assert(out@ =~= fallback_id_of(now, random));
    proof {
        law_fallback_id_is_v4(now, random);
    }
    string_from_chars(out.as_slice())
}

/// The identifier this device settles on, from the identifier file's
/// content (when it could be read), the output of the registry query, and
/// the clock and a random number for a made-up one.
pub open spec fn device_id_of(content: Option<Seq<char>>, registry_output: Seq<char>, now: u128, random: u32) -> Seq<char> {
    match (match content {
        Some(c) => stored_id_of(c),
        None => None,
    }) {
        Some(t) => t,
        None => match guid_of_lines(split_lines(registry_output)) {
            Some(g) => g,
            None => fallback_id_of(now, random),
        },
    }
}

/// Whether the identifier file must be written with the identifier settled
/// on: it could not be read, or it holds nothing but white space.
pub open spec fn device_id_needs_write(content: Option<Seq<char>>) -> bool {
    match content {
        Some(c) => stored_id_of(c) is None,
        None => true,
    }
}

/// The identifier this device settles on (see [`device_id_of`]): the
/// trimmed content of the identifier file when it is not blank; otherwise
/// the GUID in the registry output, or one made from the clock and a
/// random number. `registry_output` is `None` when the registry was not
/// asked (there was a stored identifier) or gave nothing. The flag says
/// whether the identifier must be written to the file (see
/// [`device_id_needs_write`]).
pub fn settle_device_id(content: Option<&str>, registry_output: Option<&str>, now: u128, random: u32) -> (r: (
    String,
    bool,
))
    ensures
        r.0@ == device_id_of(
            match content {
                Some(c) => Some(c@),
                None => None,
            },
            match registry_output {
                Some(o) => o@,
                None => Seq::<char>::empty(),
            },
            now,
            random,
        ),
        r.1 == device_id_needs_write(
            match content {
                Some(c) => Some(c@),
                None => None,
            },
        ),
{
    match content {
        Some(c) => match stored_device_id(c) {
            Some(id) => {
                return (id, false);
            },
            None => {},
        },
        None => {},
    }
    let guid = match registry_output {
        Some(o) => parse_machine_guid(o),
        None => {
            proof {
                reveal_strlit("");
            }
            assert(""@ =~= Seq::<char>::empty());
            parse_machine_guid("")
        },
    };
    match guid {
        Some(g) => (g, true),
        None => (generate_fallback_uuid(now, random), true),
    }
}

} // verus!
