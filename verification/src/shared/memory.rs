//! Watching the process's memory use: the latest reading, the peak, how
//! many readings were taken, and how long the watch has run; and the
//! human-readable size text. Taking a reading from the operating system is
//! left to the caller.

use vstd::prelude::*;
use vstd::arithmetic::div_mod::lemma_fundamental_div_mod;
use crate::text::{dec_digits, zero_pad, push_dec_digits, push_str_chars, string_from_chars};

verus! {

#[verifier::external_type_specification]
#[verifier::external_body]
pub struct ExInstant(std::time::Instant);

/// The current instant of the monotonic clock.
///
/// Calls `std::time::Instant::now`; nothing is claimed of the result.
#[verifier::external_body]
fn instant_now() -> (r: std::time::Instant) {
    std::time::Instant::now()
}

/// The time passed since `start`.
///
/// Calls `std::time::Instant::elapsed`; nothing is claimed of the result.
#[verifier::external_body]
fn elapsed_since(start: &std::time::Instant) -> (r: std::time::Duration) {
    start.elapsed()
}

/// 2^53: below it every integer is a `f64` exactly.
pub open spec fn two_pow_53() -> nat {
    0x20_0000_0000_0000
}

/// The power of two by which `x` must be divided to fit in 53 bits.
pub open spec fn scale53(x: nat) -> nat
    decreases x,
{
    if x < two_pow_53() {
        1
    } else {
        2 * scale53(x / 2)
    }
}

/// `a / d` rounded to the nearest integer, ties to the even one.
pub open spec fn round_div_even(a: nat, d: nat) -> nat {
    let q = a / d;
    let r = a % d;
    if 2 * r > d || (2 * r == d && q % 2 == 1) {
        q + 1
    } else {
        q
    }
}

/// The value of `x as f64`: `x` rounded to 53 significant bits, ties to
/// even.
pub open spec fn f64_value(x: nat) -> nat {
    round_div_even(x, scale53(x)) * scale53(x)
}

/// `n` hundredths as fixed-point text with two decimals.
pub open spec fn fixed2(n: nat) -> Seq<char> {
    dec_digits(n / 100) + seq!['.'] + zero_pad(dec_digits(n % 100), 2)
}

/// A size in bytes as text: in GB, MB or KB (powers of 1024) with two
/// decimals, rounded as `{:.2}` rounds the `f64` quotient (to nearest,
/// ties to even), from 1 KB up; in whole bytes below.
pub open spec fn memory_text(bytes: u64) -> Seq<char> {
    if bytes >= 0x4000_0000 {
        fixed2(round_div_even(f64_value(bytes as nat) * 100, 0x4000_0000)) + " GB"@
    } else if bytes >= 0x10_0000 {
        fixed2(round_div_even(bytes as nat * 100, 0x10_0000)) + " MB"@
    } else if bytes >= 1024 {
        fixed2(round_div_even(bytes as nat * 100, 1024)) + " KB"@
    } else {
        dec_digits(bytes as nat) + " B"@
    }
}

/// `a / d` rounded to the nearest integer, ties to even.
fn round_div_even_exec(a: u128, d: u128) -> (r: u128)
    requires
        d > 0,
        a <= 0xFFFF_FFFF_FFFF_FFFF_FFFF_FFFF,
    ensures
        r == round_div_even(a as nat, d as nat),
{
    let q = a / d;
    let r = a % d;
    proof {
        lemma_fundamental_div_mod(a as int, d as int);
        assert(q <= a) by (nonlinear_arith)
            requires
                a == d * q + r,
                d >= 1,
                r >= 0,
                q >= 0,
        ;
    }
    if r > d - r || (r == d - r && q % 2 == 1) {
        q + 1
    } else {
        q
    }
}

/// The value of `x as f64`, as an integer (see [`f64_value`]).
fn f64_value_exec(x: u64) -> (r: u128)
    ensures
        r == f64_value(x as nat),
        r <= x as nat + 4096,
{
    let mut cur: u64 = x;
    let mut p: u64 = 1;
    while cur >= 0x20_0000_0000_0000
        invariant
            scale53(x as nat) == p * scale53(cur as nat),
            p * cur <= x,
            1 <= p <= 4096,
        decreases cur,
    {
        assert(scale53(cur as nat) == 2 * scale53((cur / 2) as nat));
        assert((2 * p) * (cur / 2) <= p * cur) by (nonlinear_arith)
            requires
                p >= 1,
        ;
        assert(p * 0x20_0000_0000_0000 <= p * cur) by (nonlinear_arith)
            requires
                cur >= 0x20_0000_0000_0000,
                p >= 1,
        ;
        assert(p < 2048) by (nonlinear_arith)
            requires
                p * 0x20_0000_0000_0000 <= p * cur,
                p * cur <= x,
                x <= 0xFFFF_FFFF_FFFF_FFFF,
        ;
        assert(p * scale53(cur as nat) == (2 * p) * scale53((cur / 2) as nat)) by (nonlinear_arith)
            requires
                scale53(cur as nat) == 2 * scale53((cur / 2) as nat),
        ;
        cur = cur / 2;
        p = p * 2;
    }
    assert(scale53(cur as nat) == 1);
    assert(p == scale53(x as nat)) by (nonlinear_arith)
        requires
            scale53(x as nat) == p * scale53(cur as nat),
            scale53(cur as nat) == 1,
    ;
    let q: u64 = x / p;
    let rem: u64 = x % p;
    proof {
        lemma_fundamental_div_mod(x as int, p as int);
    }
    let qq: u128 = if rem > p - rem || (rem == p - rem && q % 2 == 1) {
        q as u128 + 1
    } else {
        q as u128
    };
    assert(qq == round_div_even(x as nat, p as nat));
    assert(qq * p <= x + p) by (nonlinear_arith)
        requires
            qq <= q + 1,
            x == p * q + rem,
            rem >= 0,
    ;
    qq * (p as u128)
}

/// Appends `n` hundredths as text with two decimals (see [`fixed2`]).
fn push_fixed2(n: u128, out: &mut Vec<char>)
    requires
        n / 100 <= u64::MAX,
    ensures
        final(out)@ == old(out)@ + fixed2(n as nat),
{
    push_dec_digits((n / 100) as u64, out);
    out.push('.');
    let f: u64 = (n % 100) as u64;
    if f < 10 {
        out.push('0');
    }
    push_dec_digits(f, out);
    proof {
        if f < 10 {
            assert(dec_digits(f as nat).len() == 1);
            assert(zero_pad(dec_digits(f as nat), 2) =~= seq!['0'] + dec_digits(f as nat));
        } else {
            assert(dec_digits(f as nat) == dec_digits((f / 10) as nat).push(crate::text::digit_char((f % 10) as int)));
            assert(dec_digits(f as nat).len() == 2);
            assert(zero_pad(dec_digits(f as nat), 2) == dec_digits(f as nat));
        }
    }
    assert(out@ =~= old(out)@ + fixed2(n as nat));
}

/// The process's memory use as it is watched.
pub struct MemoryMonitor {
    start_time: std::time::Instant,
    peak_memory: u64,
    current_memory: u64,
    update_count: usize,
    readings: Ghost<Seq<u64>>,
}

/// The largest of `readings`, or 0 when there are none.
pub open spec fn max_reading(readings: Seq<u64>) -> u64
    decreases readings.len(),
{
    if readings.len() == 0 {
        0
    } else {
        let m = max_reading(readings.drop_last());
        if readings.last() > m {
            readings.last()
        } else {
            m
        }
    }
}

/// The last of `readings`, or 0 when there are none.
pub open spec fn last_reading(readings: Seq<u64>) -> u64 {
    if readings.len() == 0 {
        0
    } else {
        readings.last()
    }
}

/// The number of `readings` as a count that wraps at the top of `usize`.
pub open spec fn reading_count(readings: Seq<u64>) -> usize {
    (readings.len() % (usize::MAX as nat + 1)) as usize
}

/// The largest reading is at least the last one.
proof fn lemma_max_at_least_last(readings: Seq<u64>)
    ensures
        max_reading(readings) >= last_reading(readings),
{
}

impl MemoryMonitor {
    /// The readings taken so far, in order.
    pub closed spec fn readings(&self) -> Seq<u64> {
        self.readings@
    }

    /// The monitor's invariant: the current reading is the last one, the
    /// peak the largest, and the count the number of readings.
    #[verifier::type_invariant]
    closed spec fn wf(&self) -> bool {
        &&& self.current_memory == last_reading(self.readings@)
        &&& self.peak_memory == max_reading(self.readings@)
        &&& self.update_count == reading_count(self.readings@)
    }

    /// The invariant, for callers: holds of every monitor.
    pub closed spec fn holds_readings(&self) -> bool {
        self.wf()
    }

    /// The latest reading, in bytes.
    pub closed spec fn current(&self) -> u64 {
        self.current_memory
    }

    /// The largest reading, in bytes.
    pub closed spec fn peak(&self) -> u64 {
        self.peak_memory
    }

    /// How many readings were taken (wrapping at the top of `usize`).
    pub closed spec fn updates(&self) -> usize {
        self.update_count
    }

    /// A monitor started now, with no reading yet.
    pub fn new() -> (r: Self)
        ensures
            r.current() == 0,
            r.peak() == 0,
            r.updates() == 0,
            r.readings() == Seq::<u64>::empty(),
            r.holds_readings(),
    {
        MemoryMonitor {
            start_time: instant_now(),
            peak_memory: 0,
            current_memory: 0,
            update_count: 0,
            readings: Ghost(Seq::empty()),
        }
    }

    /// Takes the reading `memory_used` (bytes): it becomes the current one,
    /// raises the peak if larger, and is counted. Returns it.
    pub fn update(&mut self, memory_used: u64) -> (r: u64)
        ensures
            r == memory_used,
            final(self).current() == memory_used,
            final(self).peak() == if memory_used > old(self).peak() {
                memory_used
            } else {
                old(self).peak()
            },
            final(self).updates() == vstd::wrapping::usize_specs::wrapping_add(old(self).updates(), 1),
            final(self).readings() == old(self).readings().push(memory_used),
            final(self).holds_readings(),
    {
        proof {
            use_type_invariant(&*self);
        }
        let ghost before = self.readings@;
        let ghost after = before.push(memory_used);
        assert(after.drop_last() =~= before);
        proof {
            let m: int = usize::MAX as int + 1;
            let n: int = before.len() as int;
            let r: int = n % m;
            vstd::arithmetic::div_mod::lemma_add_mod_noop(n, 1, m);
            vstd::arithmetic::div_mod::lemma_small_mod(1, m as nat);
            assert((n + 1) % m == (r + 1) % m);
            if r + 1 < m {
                vstd::arithmetic::div_mod::lemma_small_mod((r + 1) as nat, m as nat);
            } else {
                vstd::arithmetic::div_mod::lemma_mod_self_0(m);
            }
            assert(after.len() == before.len() + 1);
            assert(reading_count(after) == vstd::wrapping::usize_specs::wrapping_add(reading_count(before), 1));
        }
        let peak = if memory_used > self.peak_memory { memory_used } else { self.peak_memory };
        let count = self.update_count.wrapping_add(1);
        *self = MemoryMonitor {
            start_time: self.start_time,
            peak_memory: peak,
            current_memory: memory_used,
            update_count: count,
            readings: Ghost(after),
        };
        memory_used
    }

    /// After an attempt to give the process's idle memory back to the
    /// system: when it succeeded, `memory_after` is taken as a reading and
    /// the bytes freed (the earlier reading less it, at least 0) are
    /// returned; when it failed nothing changes and `None` is returned.
    pub fn trim_working_set(&mut self, trimmed: bool, memory_after: u64) -> (r: Option<u64>)
        ensures
            !trimmed ==> r is None && *final(self) == *old(self),
            trimmed ==> r == Some(
                if old(self).current() >= memory_after {
                    (old(self).current() - memory_after) as u64
                } else {
                    0u64
                },
            ) && final(self).current() == memory_after && final(self).peak() == (if memory_after > old(
                self,
            ).peak() {
                memory_after
            } else {
                old(self).peak()
            }) && final(self).updates() == vstd::wrapping::usize_specs::wrapping_add(old(self).updates(), 1)
                && final(self).readings() == old(self).readings().push(memory_after),
            final(self).holds_readings(),
    {
        proof {
            use_type_invariant(&*self);
        }
        if !trimmed {
            return None;
        }
        let before = self.get_current_memory();
        let after = self.update(memory_after);
        Some(before.saturating_sub(after))
    }

    /// The latest reading, in bytes (0 before any).
    pub fn get_current_memory(&self) -> (r: u64)
        ensures
            r == self.current(),
            r == last_reading(self.readings()),
    {
        proof {
            use_type_invariant(self);
        }
        self.current_memory
    }

    /// The largest reading, in bytes: the largest of all readings taken
    /// (0 before any), so never below the current one and never falling.
    pub fn get_peak_memory(&self) -> (r: u64)
        ensures
            r == self.peak(),
            r == max_reading(self.readings()),
            r >= self.current(),
    {
        proof {
            use_type_invariant(self);
            lemma_max_at_least_last(self.readings@);
        }
        self.peak_memory
    }

    /// How many readings were taken (wrapping at the top of `usize`).
    pub fn get_update_count(&self) -> (r: usize)
        ensures
            r == self.updates(),
            r == reading_count(self.readings()),
    {
        proof {
            use_type_invariant(self);
        }
        self.update_count
    }

    /// How long the monitor has run.
    pub fn get_uptime(&self) -> (r: std::time::Duration) {
        elapsed_since(&self.start_time)
    }

    /// After asking the system to empty the process's working set: whether
    /// it did (where the platform cannot, the answer is `false`).
    pub fn minimize_working_set(emptied: bool) -> (r: bool)
        ensures
            r == emptied,
    {
        emptied
    }

    /// A size in bytes as text (see [`memory_text`]).
    pub fn format_memory(bytes: u64) -> (r: String)
        ensures
            r@ == memory_text(bytes),
    {
        let mut out: Vec<char> = Vec::new();
        if bytes >= 0x4000_0000 {
            let v = f64_value_exec(bytes);
            let n = round_div_even_exec(v * 100, 0x4000_0000);
            push_fixed2(n, &mut out);
            push_str_chars(&mut out, " GB");
        } else if bytes >= 0x10_0000 {
            let n = round_div_even_exec(bytes as u128 * 100, 0x10_0000);
            push_fixed2(n, &mut out);
            push_str_chars(&mut out, " MB");
        } else if bytes >= 1024 {
            let n = round_div_even_exec(bytes as u128 * 100, 1024);
            push_fixed2(n, &mut out);
            push_str_chars(&mut out, " KB");
        } else {
            push_dec_digits(bytes, &mut out);
            push_str_chars(&mut out, " B");
        }
        string_from_chars(out.as_slice())
    }
}

/// Over any number of readings, a monitor's peak is the largest reading
/// (0 before any), never below the current reading, which is the last one;
/// and its count is the number of readings (wrapping at the top of
/// `usize`). Every monitor holds its readings so.
pub proof fn law_peak_is_largest_reading(m: MemoryMonitor)
    requires
        m.holds_readings(),
    ensures
        m.peak() == max_reading(m.readings()),
        m.peak() >= m.current(),
        m.current() == last_reading(m.readings()),
        m.updates() == reading_count(m.readings()),
{
    lemma_max_at_least_last(m.readings());
}

} // verus!
