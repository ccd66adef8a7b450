//! What the discrete GPU reports about itself.
//!
//! Deliberately not a backend: NVIDIA exposes neither power draw nor clocks
//! through sysfs. The reading comes from `nvidia-smi`, asked for
//! `power.draw,enforced.power.limit,clocks.gr` in CSV without header or
//! units; this module reads that answer. Read-only on purpose:
//! `nvidia-powerd` moves watts around several times a second on a Dynamic
//! Boost laptop, and a second writer would produce bugs that reproduce only
//! sometimes.
use vstd::prelude::*;

use crate::text::{
    all_digits, chars_of, digits_value, is_digit, parse_u32, parse_u32_spec, split, split_on,
    starts_with, trim, trimmed, views,
};

verus! {

/// The fields asked of `nvidia-smi`, in the order [`parse`] reads them.
/// `enforced.power.limit` rather than `power.limit`: on a Dynamic Boost
/// laptop the latter reads `[N/A]`, because there is no fixed limit; the
/// enforced one is the ceiling actually in effect.
pub fn query_fields() -> (r: &'static str)
    ensures
        r@ == "power.draw,enforced.power.limit,clocks.gr"@,
{
    "power.draw,enforced.power.limit,clocks.gr"
}

#[derive(Debug, Clone, Copy, PartialEq, Eq, Structural)]
pub struct Gpu {
    /// Power draw right now, in whole watts.
    pub power_w: Option<u16>,
    /// The ceiling in effect, which Dynamic Boost raises and lowers.
    pub power_limit_w: Option<u16>,
    /// Graphics clock, in MHz.
    pub clock_mhz: Option<u32>,
}

impl Gpu {
    pub open spec fn blank() -> Gpu {
        Gpu { power_w: None, power_limit_w: None, clock_mhz: None }
    }

    /// True when the GPU reported nothing at all, which is how a machine
    /// without one looks.
    pub fn is_empty(&self) -> (r: bool)
        ensures
            r == (*self == Gpu::blank()),
    {
        self.power_w.is_none() && self.power_limit_w.is_none() && self.clock_mhz.is_none()
    }
}

impl Default for Gpu {
    fn default() -> (r: Gpu)
        ensures
            r == Gpu::blank(),
    {
        Gpu { power_w: None, power_limit_w: None, clock_mhz: None }
    }
}

/// `[N/A]` and friends are absences, not values; so is an empty field.
pub open spec fn field_spec(raw: Option<Seq<char>>) -> Option<Seq<char>> {
    match raw {
        Some(v) => if v.len() > 0 && !(v.len() >= 4 && v.subrange(0, 4) == "[N/A"@) {
            Some(v)
        } else {
            None
        },
        None => None,
    }
}

/// Position of the first `c` in `s` at or after `i`, or `s.len()`.
pub open spec fn index_of_from(s: Seq<char>, c: char, i: int) -> int
    decreases s.len() - i,
{
    if i >= s.len() {
        s.len() as int
    } else if s[i] == c {
        i
    } else {
        index_of_from(s, c, i + 1)
    }
}

/// A wattage in plain decimal notation (`13.12`, `115.00`, `40`, `.5`),
/// rounded to the nearest watt with halves going up, negatives as 0 and
/// anything above `u16::MAX` as `u16::MAX`. Anything else is no reading,
/// including exponent forms (`1e2`), `inf` and `nan`, which `nvidia-smi`
/// does not print for these fields.
pub open spec fn watts_spec(v: Seq<char>) -> Option<u16> {
    let negative = v.len() > 0 && v[0] == '-';
    let body = if v.len() > 0 && (v[0] == '-' || v[0] == '+') {
        v.drop_first()
    } else {
        v
    };
    let d = index_of_from(body, '.', 0);
    let int_part = body.subrange(0, d);
    let frac = if d < body.len() {
        body.subrange(d + 1, body.len() as int)
    } else {
        Seq::<char>::empty()
    };
    if !all_digits(int_part) || !all_digits(frac) || int_part.len() + frac.len() == 0 {
        None
    } else if negative {
        Some(0)
    } else {
        let rounded = digits_value(int_part) + if frac.len() > 0 && frac[0] >= '5' {
            1nat
        } else {
            0nat
        };
        Some(
            if rounded > u16::MAX {
                u16::MAX
            } else {
                rounded as u16
            },
        )
    }
}

/// The first line of `csv` with something other than white space on it.
pub open spec fn first_row(lines: Seq<Seq<char>>) -> Option<Seq<char>>
    decreases lines.len(),
{
    if lines.len() == 0 {
        None
    } else if trim(lines[0]).len() > 0 {
        Some(lines[0])
    } else {
        first_row(lines.drop_first())
    }
}

/// The `i`th comma-separated field of `row`, trimmed, if the row has one.
pub open spec fn nth_field(row: Seq<char>, i: int) -> Option<Seq<char>> {
    let fields = split_on(row, ',');
    if i < fields.len() {
        Some(trim(fields[i]))
    } else {
        None
    }
}

/// What one `nvidia-smi` answer says. One row per GPU; the first is the one
/// the laptop renders on.
pub open spec fn parse_spec(csv: Seq<char>) -> Option<Gpu> {
    match first_row(split_on(csv, '\n')) {
        None => None,
        Some(row) => Some(
            Gpu {
                power_w: match field_spec(nth_field(row, 0)) {
                    Some(v) => watts_spec(v),
                    None => None,
                },
                power_limit_w: match field_spec(nth_field(row, 1)) {
                    Some(v) => watts_spec(v),
                    None => None,
                },
                clock_mhz: match field_spec(nth_field(row, 2)) {
                    Some(v) => parse_u32_spec(v),
                    None => None,
                },
            },
        ),
    }
}

/// `[N/A]` and friends are absences, not values.
pub fn field(raw: Option<&[char]>) -> (r: Option<Vec<char>>)
    ensures
        match r {
            Some(v) => field_spec(
                match raw {
                    Some(x) => Some(x@),
                    None => None,
                },
            ) == Some(v@),
            None => field_spec(
                match raw {
                    Some(x) => Some(x@),
                    None => None,
                },
            ) is None,
        },
{
    let value = match raw {
        Some(v) => v,
        None => {
            return None;
        },
    };
    proof {
        reveal_strlit("[N/A");
    }
    if value.len() == 0 || starts_with(value, &chars_of("[N/A")) {
        None
    } else {
        Some(crate::text::copy_chars(value))
    }
}

proof fn lemma_index_of(s: Seq<char>, c: char, i: int, found: Option<usize>)
    requires
        0 <= i <= s.len(),
        forall|j: int| 0 <= j < i ==> s[j] != c,
        match found {
            Some(k) => i <= k < s.len() && s[k as int] == c && forall|j: int| i <= j < k ==> s[j] != c,
            None => forall|j: int| i <= j < s.len() ==> s[j] != c,
        },
    ensures
        index_of_from(s, c, 0) == match found {
            Some(k) => k as int,
            None => s.len() as int,
        },
    decreases i,
{
    if i > 0 {
        lemma_index_of(s, c, i - 1, found);
    } else {
        lemma_index_of_rest(s, c, 0, found);
    }
}

proof fn lemma_index_of_rest(s: Seq<char>, c: char, i: int, found: Option<usize>)
    requires
        0 <= i <= s.len(),
        match found {
            Some(k) => i <= k < s.len() && s[k as int] == c && forall|j: int| i <= j < k ==> s[j] != c,
            None => forall|j: int| i <= j < s.len() ==> s[j] != c,
        },
    ensures
        index_of_from(s, c, i) == match found {
            Some(k) => k as int,
            None => s.len() as int,
        },
    decreases s.len() - i,
{
    if i < s.len() {
        match found {
            Some(k) => {
                if k as int != i {
                    lemma_index_of_rest(s, c, i + 1, found);
                }
            },
            None => {
                lemma_index_of_rest(s, c, i + 1, found);
            },
        }
    }
}

fn all_digits_exec(s: &[char]) -> (r: bool)
    ensures
        r == all_digits(s@),
{
    let mut i: usize = 0;
    while i < s.len()
        invariant
            i <= s.len(),
            forall|j: int| 0 <= j < i ==> is_digit(#[trigger] s@[j]),
        decreases s.len() - i,
    {
        if !('0' <= s[i] && s[i] <= '9') {
            return false;
        }
        i += 1;
    }
    true
}

/// The value of a run of digits, or `cap` if it is larger.
fn capped_value(s: &[char], cap: u64) -> (r: u64)
    requires
        all_digits(s@),
        cap <= 100000,
    ensures
        r == if digits_value(s@) > cap {
            cap as nat
        } else {
            digits_value(s@)
        },
{
    let mut acc: u64 = 0;
    let mut over = false;
    let mut i: usize = 0;
    while i < s.len()
        invariant
            i <= s.len(),
            cap <= 100000,
            all_digits(s@),
            !over ==> acc == digits_value(s@.take(i as int)) && acc <= cap,
            over ==> digits_value(s@.take(i as int)) > cap,
        decreases s.len() - i,
    {
        let c = s[i];
        assert(is_digit(s@[i as int]));
        let d = (c as u32 - '0' as u32) as u64;
        proof {
            let pre = s@.take(i as int);
            assert(s@.take(i + 1) =~= pre.push(c));
            assert(pre.push(c).drop_last() =~= pre);
        }
        if !over {
            acc = acc * 10 + d;
            if acc > cap {
                over = true;
            }
        }
        i += 1;
    }
    assert(s@.take(s.len() as int) =~= s@);
    if over {
        cap
    } else {
        acc
    }
}

/// Rounds a plain decimal wattage to whole watts.
pub fn round_watts(v: &[char]) -> (r: Option<u16>)
    ensures
        r == watts_spec(v@),
{
    let negative = v.len() > 0 && v[0] == '-';
    let body = if v.len() > 0 && (v[0] == '-' || v[0] == '+') {
        crate::text::tail_from(v, 1)
    } else {
        crate::text::copy_chars(v)
    };
    proof {
        if v@.len() > 0 {
            assert(v@.subrange(1, v@.len() as int) =~= v@.drop_first());
        }
    }
    let found = crate::text::find_char(&body, '.', 0);
    proof {
        lemma_index_of(body@, '.', 0, found);
    }
    let d = match found {
        Some(k) => k,
        None => body.len(),
    };
    let int_part = crate::text::slice_range(&body, 0, d);
    let frac = if d < body.len() {
        crate::text::tail_from(&body, d + 1)
    } else {
        Vec::new()
    };
    if !all_digits_exec(&int_part) || !all_digits_exec(&frac) || int_part.len() + frac.len() == 0 {
        return None;
    }
    if negative {
        return Some(0);
    }
    let value = capped_value(&int_part, 70000);
    let up: u64 = if frac.len() > 0 && frac[0] >= '5' {
        1
    } else {
        0
    };
    let rounded = value + up;
    if rounded > 0xffff {
        Some(0xffff)
    } else {
        Some(rounded as u16)
    }
}

/// Parse one `nvidia-smi` answer.
///
/// Split from the call so the shapes that matter (a missing field, the
/// `[N/A]` a Dynamic Boost laptop returns, a second GPU) are testable on a
/// machine with no NVIDIA hardware at all.
pub fn parse(csv: &str) -> (r: Option<Gpu>)
    ensures
        r == parse_spec(csv@),
{
    let text = chars_of(csv);
    let lines = split(&text, '\n');
    let ghost ls = views(lines@);
    let mut i: usize = 0;
    assert(ls.subrange(0, ls.len() as int) =~= ls);
    while i < lines.len()
        invariant
            i <= lines.len(),
            ls == views(lines@),
            ls == split_on(text@, '\n'),
            text@ == csv@,
            first_row(ls) == first_row(ls.subrange(i as int, ls.len() as int)),
        decreases lines.len() - i,
    {
        let ghost rest = ls.subrange(i as int, ls.len() as int);
        assert(rest[0] == lines@[i as int]@);
        assert(rest.drop_first() =~= ls.subrange(i + 1, ls.len() as int));
        if trimmed(&lines[i]).len() > 0 {
            return Some(parse_row(&lines[i]));
        }
        i += 1;
    }
    None
}

/// The readings in one row.
fn parse_row(row: &[char]) -> (g: Gpu)
    ensures
        g.power_w == match field_spec(nth_field(row@, 0)) {
            Some(v) => watts_spec(v),
            None => None,
        },
        g.power_limit_w == match field_spec(nth_field(row@, 1)) {
            Some(v) => watts_spec(v),
            None => None,
        },
        g.clock_mhz == match field_spec(nth_field(row@, 2)) {
            Some(v) => parse_u32_spec(v),
            None => None,
        },
{
    let pieces = split(row, ',');
    let ghost ps = views(pieces@);
    let f0 = if pieces.len() > 0 {
        Some(trimmed(&pieces[0]))
    } else {
        None
    };
    let f1 = if pieces.len() > 1 {
        Some(trimmed(&pieces[1]))
    } else {
        None
    };
    let f2 = if pieces.len() > 2 {
        Some(trimmed(&pieces[2]))
    } else {
        None
    };
    let power_w = match field(opt_ref(&f0)) {
        Some(v) => round_watts(&v),
        None => None,
    };
    let power_limit_w = match field(opt_ref(&f1)) {
        Some(v) => round_watts(&v),
        None => None,
    };
    let clock_mhz = match field(opt_ref(&f2)) {
        Some(v) => parse_u32(&v),
        None => None,
    };
    Gpu { power_w, power_limit_w, clock_mhz }
}

fn opt_ref(o: &Option<Vec<char>>) -> (r: Option<&[char]>)
    ensures
        match r {
            Some(s) => *o matches Some(v) && s@ == v@,
            None => *o is None,
        },
{
    match o {
        Some(v) => Some(v.as_slice()),
        None => None,
    }
}

/// How long a cached reading is reused, in milliseconds.
pub open spec fn ttl_ms() -> u64 {
    2000
}

/// A cache in front of the GPU driver.
///
/// Clients refresh once a second and there may be several of them; asking
/// the driver every time would mean spawning a process per client per second
/// for a reading that barely changes in between. One reading is shared by
/// everyone who asks within two seconds. A machine with no GPU caches an
/// empty reading, so the absence is cached too.
pub struct GpuReader {
    /// When the last reading was taken (milliseconds), and what it said.
    last: Option<(u64, Gpu)>,
}

impl GpuReader {
    pub closed spec fn last_reading(&self) -> Option<(u64, Gpu)> {
        self.last
    }

    pub fn new() -> (r: GpuReader)
        ensures
            r.last_reading() is None,
    {
        GpuReader { last: None }
    }

    /// The cached reading, when one was taken less than two seconds before
    /// `now_ms`; `None` means it is time to ask the driver again.
    pub fn read(&self, now_ms: u64) -> (r: Option<Gpu>)
        ensures
            r == match self.last_reading() {
                Some((taken, gpu)) => if now_ms >= taken && now_ms - taken < ttl_ms() || now_ms
                    < taken {
                    Some(gpu)
                } else {
                    None
                },
                None => None,
            },
    {
        match self.last {
            Some((taken, gpu)) => {
                let elapsed = if now_ms >= taken {
                    now_ms - taken
                } else {
                    0
                };
                if elapsed < 2000 {
                    Some(gpu)
                } else {
                    None
                }
            },
            None => None,
        }
    }

    /// Remembers what the driver said at `now_ms` (nothing reads as an empty
    /// reading) and hands it back.
    pub fn record(&mut self, now_ms: u64, fresh: Option<Gpu>) -> (r: Gpu)
        ensures
            r == match fresh {
                Some(g) => g,
                None => Gpu::blank(),
            },
            final(self).last_reading() == Some((now_ms, r)),
    {
        let gpu = match fresh {
            Some(g) => g,
            None => Gpu::default(),
        };
        self.last = Some((now_ms, gpu));
        gpu
    }
}

/// Within two seconds of a reading, the cache answers with that reading.
pub proof fn lemma_cache_hit(reader: GpuReader, taken: u64, gpu: Gpu, now_ms: u64)
    requires
        reader.last_reading() == Some((taken, gpu)),
        taken <= now_ms < taken + ttl_ms(),
    ensures
        (match reader.last_reading() {
            Some((t, g)) => if now_ms >= t && now_ms - t < ttl_ms() || now_ms < t {
                Some(g)
            } else {
                None
            },
            None => None,
        }) == Some(gpu),
{
}

} // verus!
