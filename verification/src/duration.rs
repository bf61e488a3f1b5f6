//! Durations and the ISO-8601 duration subset used by the management API
//! (`P{d}DT{h}H{m}M{s(.f)}S`).

use vstd::prelude::*;
use crate::text::{
    lemma_decimal, lemma_digit_char, all_digits, decimal, digit_char, digit_to_char, digit_val, digits_value, is_digit, push_decimal,
    str_chars, string_from_chars, first_index, lemma_first_index,
};

verus! {

broadcast use vstd::string::group_string_axioms;

/// The service's "unlimited" sentinel (.NET `TimeSpan.MaxValue`), written
/// back verbatim for any duration at or above it.
pub const TIMESPAN_MAX: &'static str = "P10675199DT2H48M5.4775807S";

/// Whole seconds of the unlimited sentinel.
pub const TIMESPAN_MAX_SECS: u64 = 922337203685;

/// Sub-second part of the unlimited sentinel.
pub const TIMESPAN_MAX_NANOS: u32 = 477580700;

pub const NANOS_PER_SEC: u32 = 1_000_000_000;

/// A span of time: whole seconds plus a sub-second nanosecond part.
#[derive(Clone, Copy, Debug, PartialEq, Eq)]
pub struct Duration {
    pub secs: u64,
    pub nanos: u32,
}

impl Duration {
    /// The nanosecond part is below one second.
    pub open spec fn wf(self) -> bool {
        self.nanos < NANOS_PER_SEC
    }

    /// `secs` seconds plus `nanos` nanoseconds, carrying whole seconds out of
    /// `nanos`.
    pub fn new(secs: u64, nanos: u32) -> (d: Duration)
        requires
            secs + nanos / 1_000_000_000 <= u64::MAX,
        ensures
            d.wf(),
            d.secs == secs + nanos / 1_000_000_000,
            d.nanos == nanos % 1_000_000_000,
    {
        Duration { secs: secs + (nanos / NANOS_PER_SEC) as u64, nanos: nanos % NANOS_PER_SEC }
    }

    pub fn from_secs(secs: u64) -> (d: Duration)
        ensures
            d.wf(),
            d.secs == secs,
            d.nanos == 0,
    {
        Duration { secs, nanos: 0 }
    }

    pub fn from_mins(mins: u64) -> (d: Duration)
        requires
            mins * 60 <= u64::MAX,
        ensures
            d.wf(),
            d.secs == mins * 60,
            d.nanos == 0,
    {
        Duration { secs: mins * 60, nanos: 0 }
    }

    pub fn as_secs(&self) -> (r: u64)
        ensures
            r == self.secs,
    {
        self.secs
    }

    pub fn subsec_nanos(&self) -> (r: u32)
        ensures
            r == self.nanos,
    {
        self.nanos
    }
}

// ---- unlimited -----------------------------------------------------------------

pub open spec fn spec_unlimited() -> Duration {
    Duration { secs: TIMESPAN_MAX_SECS, nanos: TIMESPAN_MAX_NANOS }
}

pub open spec fn spec_is_unlimited(d: Duration) -> bool {
    d.secs >= TIMESPAN_MAX_SECS
}

/// The "unlimited" duration used in entity descriptions.
pub fn unlimited() -> (d: Duration)
    ensures
        d == spec_unlimited(),
        d.wf(),
{
    Duration { secs: TIMESPAN_MAX_SECS, nanos: TIMESPAN_MAX_NANOS }
}

/// True when a duration represents the service's "unlimited" sentinel.
pub fn is_unlimited(d: Duration) -> (r: bool)
    ensures
        r == spec_is_unlimited(d),
{
    d.secs >= TIMESPAN_MAX_SECS
}

// ---- formatting ------------------------------------------------------------------

pub open spec fn pow10(k: nat) -> nat
    decreases k,
{
    if k == 0 {
        1
    } else {
        10 * pow10((k - 1) as nat)
    }
}

/// The last `k` decimal digits of `n`, zero-padded.
pub open spec fn padded(n: nat, k: nat) -> Seq<char>
    decreases k,
{
    if k == 0 {
        Seq::empty()
    } else {
        padded(n / 10, (k - 1) as nat).push(digit_char(n % 10))
    }
}

/// Drops trailing zero digits of a `k`-digit fraction, keeping at least one.
pub open spec fn trim_frac(v: nat, k: nat) -> (nat, nat)
    decreases k,
{
    if k > 1 && v % 10 == 0 {
        trim_frac(v / 10, (k - 1) as nat)
    } else {
        (v, k)
    }
}

/// Fractional seconds: nine digits with trailing zeros removed.
pub open spec fn frac_digits(nanos: nat) -> Seq<char> {
    let (v, k) = trim_frac(nanos, 9);
    padded(v, k)
}

pub open spec fn unit_seg(n: nat, unit: char) -> Seq<char> {
    if n > 0 {
        decimal(n).push(unit)
    } else {
        Seq::empty()
    }
}

pub open spec fn seconds_seg(hours: nat, minutes: nat, seconds: nat, nanos: nat) -> Seq<char> {
    if seconds > 0 || nanos > 0 || (hours == 0 && minutes == 0) {
        if nanos > 0 {
            (decimal(seconds).push('.') + frac_digits(nanos)).push('S')
        } else {
            decimal(seconds).push('S')
        }
    } else {
        Seq::empty()
    }
}

pub open spec fn time_seg(days: nat, hours: nat, minutes: nat, seconds: nat, nanos: nat) -> Seq<
    char,
> {
    if hours > 0 || minutes > 0 || seconds > 0 || nanos > 0 || days == 0 {
        seq!['T'] + unit_seg(hours, 'H') + unit_seg(minutes, 'M') + seconds_seg(
            hours,
            minutes,
            seconds,
            nanos,
        )
    } else {
        Seq::empty()
    }
}

/// ISO-8601 rendering of a duration split into components.
pub open spec fn format_parts(days: nat, hours: nat, minutes: nat, seconds: nat, nanos: nat) -> Seq<
    char,
> {
    seq!['P'] + unit_seg(days, 'D') + time_seg(days, hours, minutes, seconds, nanos)
}

pub open spec fn spec_format_iso8601(d: Duration) -> Seq<char> {
    if spec_is_unlimited(d) {
        TIMESPAN_MAX@
    } else {
        format_parts(
            d.secs as nat / 86400,
            (d.secs as nat % 86400) / 3600,
            (d.secs as nat % 3600) / 60,
            d.secs as nat % 60,
            d.nanos as nat,
        )
    }
}

fn push_padded(out: &mut Vec<char>, n: u64, k: u64)
    ensures
        final(out)@ == old(out)@ + padded(n as nat, k as nat),
    decreases k,
{
    if k > 0 {
        push_padded(out, n / 10, k - 1);
        let c = digit_to_char(n % 10);
        out.push(c);
    }
}

fn push_frac(out: &mut Vec<char>, nanos: u32)
    ensures
        final(out)@ == old(out)@ + frac_digits(nanos as nat),
{
    let mut v: u64 = nanos as u64;
    let mut k: u64 = 9;
    while k > 1 && v % 10 == 0
        invariant
            1 <= k <= 9,
            trim_frac(v as nat, k as nat) == trim_frac(nanos as nat, 9),
        decreases k,
    {
        v = v / 10;
        k = k - 1;
    }
    push_padded(out, v, k);
}

fn push_unit_seg(out: &mut Vec<char>, n: u64, unit: char)
    ensures
        final(out)@ == old(out)@ + unit_seg(n as nat, unit),
{
    if n > 0 {
        push_decimal(out, n);
        out.push(unit);
    }
}

fn push_seconds_seg(out: &mut Vec<char>, hours: u64, minutes: u64, seconds: u64, nanos: u32)
    ensures
        final(out)@ == old(out)@ + seconds_seg(
            hours as nat,
            minutes as nat,
            seconds as nat,
            nanos as nat,
        ),
{
    if seconds > 0 || nanos > 0 || (hours == 0 && minutes == 0) {
        push_decimal(out, seconds);
        let ghost mid = out@;
        if nanos > 0 {
            out.push('.');
            push_frac(out, nanos);
        }
        out.push('S');
        assert(out@ =~= old(out)@ + seconds_seg(
            hours as nat,
            minutes as nat,
            seconds as nat,
            nanos as nat,
        ));
    }
}

/// Format a duration as the ISO-8601 subset the service emits
/// (`P{d}DT{h}H{m}M{s(.f)}S`, e.g. `PT1M`, `P14D`, `PT16S`); durations at or
/// above the unlimited sentinel render as [`TIMESPAN_MAX`].
pub fn format_iso8601(d: Duration) -> (s: String)
    requires
        d.wf(),
    ensures
        s@ == spec_format_iso8601(d),
{
    if is_unlimited(d) {
        return TIMESPAN_MAX.to_owned();
    }
    let total = d.secs;
    let days = total / 86_400;
    let hours = (total % 86_400) / 3_600;
    let minutes = (total % 3_600) / 60;
    let seconds = total % 60;
    let nanos = d.nanos;

    let mut out: Vec<char> = Vec::new();
    out.push('P');
    push_unit_seg(&mut out, days, 'D');
    if hours > 0 || minutes > 0 || seconds > 0 || nanos > 0 || days == 0 {
        out.push('T');
        push_unit_seg(&mut out, hours, 'H');
        push_unit_seg(&mut out, minutes, 'M');
        push_seconds_seg(&mut out, hours, minutes, seconds, nanos);
    }
    assert(out@ =~= format_parts(
        days as nat,
        hours as nat,
        minutes as nat,
        seconds as nat,
        nanos as nat,
    ));
    string_from_chars(out.as_slice())
}


// ---- parsing --------------------------------------------------------------------

pub open spec fn is_num_char(c: char) -> bool {
    is_digit(c) || c == '.'
}

/// Length of the leading run of digits and dots.
pub open spec fn number_len(s: Seq<char>) -> nat
    decreases s.len(),
{
    if s.len() > 0 && is_num_char(s[0]) {
        1 + number_len(s.drop_first())
    } else {
        0
    }
}

/// Seconds per unit designator; years and months are not accepted, and
/// `D` belongs to the date part while `H`, `M`, `S` belong to the time part.
pub open spec fn unit_secs(c: char, is_time: bool) -> Option<nat> {
    if c == 'D' && !is_time {
        Some(86400)
    } else if c == 'H' && is_time {
        Some(3600)
    } else if c == 'M' && is_time {
        Some(60)
    } else if c == 'S' && is_time {
        Some(1)
    } else {
        None
    }
}

/// A plain integer: non-empty, all digits, and within `u64`.
pub open spec fn int_token(num: Seq<char>) -> Option<nat> {
    if num.len() > 0 && all_digits(num) && digits_value(num) <= u64::MAX {
        Some(digits_value(num))
    } else {
        None
    }
}

/// Index of the first `.`, or -1.
pub open spec fn dot_pos(s: Seq<char>) -> int
    decreases s.len(),
{
    if s.len() == 0 {
        -1
    } else if s[0] == '.' {
        0
    } else {
        let p = dot_pos(s.drop_first());
        if p < 0 {
            -1
        } else {
            p + 1
        }
    }
}

/// Nanoseconds denoted by the digits after a decimal point, rounded half up
/// at the ninth digit.
pub open spec fn nanos_of(f: Seq<char>) -> nat {
    if f.len() <= 9 {
        digits_value(f) * pow10((9 - f.len()) as nat)
    } else {
        digits_value(f.take(9)) + if digit_val(f[9]) >= 5 {
            1nat
        } else {
            0nat
        }
    }
}

/// A decimal `int.frac` number of seconds: exactly one `.` and at least one
/// digit; yields (whole seconds, nanoseconds).
pub open spec fn frac_token(num: Seq<char>) -> Option<(nat, nat)> {
    let k = dot_pos(num);
    if k >= 0 && num.len() >= 2 && all_digits(num.skip(k + 1)) {
        Some((digits_value(num.take(k)), nanos_of(num.skip(k + 1))))
    } else {
        None
    }
}

/// Value of one `number unit` segment as (seconds, nanoseconds).
pub open spec fn token_value(num: Seq<char>, c: char, is_time: bool) -> Option<(nat, nat)> {
    match unit_secs(c, is_time) {
        None => None,
        Some(u) => if c == 'S' && num.contains('.') {
            frac_token(num)
        } else {
            match int_token(num) {
                Some(v) => Some((v * u, 0nat)),
                None => None,
            }
        },
    }
}

pub open spec fn add_parts(a: (nat, nat), rest: Option<(nat, nat)>) -> Option<(nat, nat)> {
    match rest {
        Some((x, y)) => Some((a.0 + x, a.1 + y)),
        None => None,
    }
}

/// Sum of the segments of the date (`is_time == false`) or time part; every
/// segment is a number followed by a unit and nothing may trail.
pub open spec fn parse_part(s: Seq<char>, is_time: bool) -> Option<(nat, nat)>
    decreases s.len(),
{
    let k = number_len(s);
    if k >= s.len() {
        if s.len() == 0 {
            Some((0nat, 0nat))
        } else {
            None
        }
    } else {
        match token_value(s.take(k as int), s[k as int], is_time) {
            None => None,
            Some(t) => add_parts(t, parse_part(s.skip(k + 1int), is_time)),
        }
    }
}

/// The duration denoted by an ISO-8601 duration of the supported subset,
/// when its total fits in a [`Duration`].
pub open spec fn spec_parse_iso8601(s: Seq<char>) -> Option<Duration> {
    if s.len() == 0 || s[0] != 'P' {
        None
    } else {
        let rest = s.drop_first();
        let t = first_index(rest, 'T');
        let date = if t >= 0 {
            rest.take(t)
        } else {
            rest
        };
        let time = if t >= 0 {
            rest.skip(t + 1)
        } else {
            Seq::empty()
        };
        match (parse_part(date, false), parse_part(time, true)) {
            (Some((a, b)), Some((c, d))) => {
                let secs = a + c + (b + d) / 1_000_000_000;
                if secs <= u64::MAX {
                    Some(Duration { secs: secs as u64, nanos: ((b + d) % 1_000_000_000) as u32 })
                } else {
                    None
                }
            },
            _ => None,
        }
    }
}

// ---- parsing lemmas ----------------------------------------------------------------

proof fn lemma_number_len(s: Seq<char>, k: int)
    requires
        0 <= k <= s.len(),
        forall|j: int| 0 <= j < k ==> is_num_char(#[trigger] s[j]),
        k == s.len() || !is_num_char(s[k]),
    ensures
        number_len(s) == k,
    decreases k,
{
    if k > 0 {
        lemma_number_len(s.drop_first(), k - 1);
    }
}

proof fn lemma_digits_prefix_le(s: Seq<char>, j: int)
    requires
        0 <= j <= s.len(),
    ensures
        digits_value(s.take(j)) <= digits_value(s),
    decreases s.len(),
{
    if j < s.len() {
        lemma_digits_prefix_le(s.drop_last(), j);
        assert(s.drop_last().take(j) =~= s.take(j));
    } else {
        assert(s.take(j) =~= s);
    }
}

proof fn lemma_digits_step(s: Seq<char>, i: int)
    requires
        0 <= i < s.len(),
    ensures
        digits_value(s.take(i + 1)) == digits_value(s.take(i)) * 10 + digit_val(s[i]),
{
    assert(s.take(i + 1).drop_last() =~= s.take(i));
}

proof fn lemma_pow10_pos(k: nat)
    ensures
        pow10(k) >= 1,
    decreases k,
{
    if k > 0 {
        lemma_pow10_pos((k - 1) as nat);
    }
}

proof fn lemma_pow_split(a: nat, b: nat)
    ensures
        pow10(a + b) == pow10(a) * pow10(b),
    decreases a,
{
    if a > 0 {
        let a1 = (a - 1) as nat;
        lemma_pow_split(a1, b);
        let x = pow10(a1);
        let y = pow10(b);
        assert(pow10(a1 + b + 1) == 10 * pow10(a1 + b));
        assert(a1 + b + 1 == a + b);
        assert(pow10(a) == 10 * x);
        assert(10 * (x * y) == (10 * x) * y) by (nonlinear_arith);
    } else {
        assert(pow10(0) == 1);
    }
}

proof fn lemma_pow10_9()
    ensures
        pow10(9) == 1_000_000_000,
{
    reveal_with_fuel(pow10, 10);
}

proof fn lemma_digits_lt_pow(s: Seq<char>)
    requires
        all_digits(s),
    ensures
        digits_value(s) < pow10(s.len()),
    decreases s.len(),
{
    if s.len() > 0 {
        let t = s.drop_last();
        assert(all_digits(t)) by {
            assert forall|i: int| 0 <= i < t.len() implies #[trigger] is_digit(t[i]) by {
                assert(t[i] == s[i]);
            }
        }
        lemma_digits_lt_pow(t);
        assert(is_digit(s[s.len() - 1]));
        assert(digit_val(s.last()) <= 9);
        assert(pow10(s.len()) == 10 * pow10(t.len()));
    }
}

proof fn lemma_nanos_of_bound(f: Seq<char>)
    requires
        all_digits(f),
    ensures
        nanos_of(f) <= 1_000_000_000,
{
    if f.len() <= 9 {
        lemma_digits_lt_pow(f);
        let k = f.len();
        lemma_pow_split(k, (9 - k) as nat);
        assert(k + (9 - k) as nat == 9);
        lemma_pow10_9();
        let a = digits_value(f);
        let p = pow10(k);
        let q = pow10((9 - k) as nat);
        assert(a + 1 <= p);
        assert((a + 1) * q <= p * q) by (nonlinear_arith)
            requires
                a + 1 <= p,
        ;
        assert(a * q + q == (a + 1) * q) by (nonlinear_arith);
        lemma_pow10_pos((9 - k) as nat);
    } else {
        let t = f.take(9);
        assert(all_digits(t)) by {
            assert forall|i: int| 0 <= i < t.len() implies #[trigger] is_digit(t[i]) by {
                assert(t[i] == f[i]);
            }
        }
        lemma_digits_lt_pow(t);
        lemma_pow10_9();
    }
}

/// Keeps a parsed value only when its whole seconds fit in `u64`.
pub open spec fn capped(p: Option<(nat, nat)>) -> Option<(nat, nat)> {
    match p {
        Some((a, b)) => if a <= u64::MAX {
            p
        } else {
            None
        },
        None => None,
    }
}

fn is_digit_char(c: char) -> (r: bool)
    ensures
        r == is_digit(c),
{
    '0' <= c && c <= '9'
}

fn digit_value(c: char) -> (r: u64)
    requires
        is_digit(c),
    ensures
        r == digit_val(c),
        r <= 9,
{
    (c as u32 - '0' as u32) as u64
}

/// `int_token` of `s[lo..hi]`.
pub fn parse_int_digits(s: &[char], lo: usize, hi: usize) -> (r: Option<u64>)
    requires
        lo <= hi <= s.len(),
    ensures
        match int_token(s@.subrange(lo as int, hi as int)) {
            Some(v) => r == Some(v as u64),
            None => r is None,
        },
{
    let ghost t = s@.subrange(lo as int, hi as int);
    if lo == hi {
        return None;
    }
    let mut v: u64 = 0;
    let mut i = lo;
    assert(t.take(0) =~= Seq::<char>::empty());
    while i < hi
        invariant
            lo <= i <= hi,
            hi <= s.len(),
            t == s@.subrange(lo as int, hi as int),
            all_digits(t.take(i - lo)),
            v == digits_value(t.take(i - lo)),
        decreases hi - i,
    {
        let c = s[i];
        if !is_digit_char(c) {
            assert(t[i - lo] == c);
            return None;
        }
        let d = digit_value(c);
        proof {
            lemma_digits_step(t, i - lo);
            assert(t[i - lo] == c);
        }
        if v > (u64::MAX - d) / 10 {
            proof {
                assert(v * 10 + d > u64::MAX);
                if all_digits(t) {
                    lemma_digits_prefix_le(t, i - lo + 1);
                }
            }
            return None;
        }
        v = v * 10 + d;
        i = i + 1;
        assert(all_digits(t.take(i - lo))) by {
            assert forall|j: int| 0 <= j < i - lo implies #[trigger] is_digit(t.take(i - lo)[j]) by {
                if j < i - lo - 1 {
                    assert(t.take(i - lo)[j] == t.take(i - lo - 1)[j]);
                }
            }
        }
    }
    assert(t.take(hi - lo) =~= t);
    Some(v)
}

fn pow10_exec(k: u64) -> (r: u64)
    requires
        k <= 9,
    ensures
        r == pow10(k as nat),
    decreases k,
{
    if k == 0 {
        1
    } else {
        let p = pow10_exec(k - 1);
        proof {
            lemma_pow_split((k - 1) as nat, 1);
            lemma_pow_split((k - 1) as nat, (9 - k + 1) as nat);
            lemma_pow10_9();
            lemma_pow10_pos((9 - k + 1) as nat);
            assert(pow10(0) == 1);
            assert(pow10(1) == 10);
            assert(p * 10 <= 1_000_000_000) by (nonlinear_arith)
                requires
                    p * pow10((9 - k + 1) as nat) == 1_000_000_000,
                    pow10((9 - k + 1) as nat) >= 10,
            {
            }
        }
        p * 10
    }
}

/// `nanos_of` of the all-digit window `s[lo..hi]`.
fn nanos_from(s: &[char], lo: usize, hi: usize) -> (r: u64)
    requires
        lo <= hi <= s.len(),
        all_digits(s@.subrange(lo as int, hi as int)),
    ensures
        r == nanos_of(s@.subrange(lo as int, hi as int)),
        r <= 1_000_000_000,
{
    let ghost f = s@.subrange(lo as int, hi as int);
    let n = hi - lo;
    let m = if n <= 9 {
        n
    } else {
        9
    };
    let mut v: u64 = 0;
    let mut i: usize = 0;
    assert(f.take(0) =~= Seq::<char>::empty());
    while i < m
        invariant
            i <= m,
            m <= 9,
            m <= n,
            n == hi - lo,
            lo <= hi <= s.len(),
            f == s@.subrange(lo as int, hi as int),
            all_digits(f),
            v == digits_value(f.take(i as int)),
            v < pow10(i as nat),
        decreases m - i,
    {
        let c = s[lo + i];
        assert(f[i as int] == c);
        let d = digit_value(c);
        proof {
            lemma_digits_step(f, i as int);
            lemma_pow10_9();
            lemma_pow_split(i as nat, 1);
            assert(pow10(0) == 1);
            assert(pow10(1) == 10);
            lemma_pow_split((i + 1) as nat, (9 - i - 1) as nat);
            lemma_pow10_pos((9 - i - 1) as nat);
            assert(v * 10 + d < pow10((i + 1) as nat)) by (nonlinear_arith)
                requires
                    v < pow10(i as nat),
                    d <= 9,
                    pow10((i + 1) as nat) == pow10(i as nat) * 10,
            {
            }
            assert(pow10((i + 1) as nat) <= 1_000_000_000) by (nonlinear_arith)
                requires
                    pow10((i + 1) as nat) * pow10((9 - i - 1) as nat) == 1_000_000_000,
                    pow10((9 - i - 1) as nat) >= 1,
            {
            }
        }
        v = v * 10 + d;
        i = i + 1;
    }
    proof {
        lemma_nanos_of_bound(f);
    }
    if n <= 9 {
        assert(f.take(n as int) =~= f);
        let p = pow10_exec((9 - n) as u64);
        proof {
            lemma_pow_split(n as nat, (9 - n) as nat);
            lemma_pow10_9();
            assert(v * p <= 1_000_000_000) by (nonlinear_arith)
                requires
                    v < pow10(n as nat),
                    pow10(n as nat) * p == 1_000_000_000,
            {
            }
        }
        v * p
    } else {
        let d = digit_value(s[lo + 9]);
        assert(f[9] == s@[lo + 9]);
        proof {
            lemma_pow10_9();
        }
        if d >= 5 {
            v + 1
        } else {
            v
        }
    }
}

/// The first `.` in `s[lo..hi]`, as an absolute index, or `hi`.
fn find_dot(s: &[char], lo: usize, hi: usize) -> (r: usize)
    requires
        lo <= hi <= s.len(),
    ensures
        lo <= r <= hi,
        r < hi ==> dot_pos(s@.subrange(lo as int, hi as int)) == r - lo,
        r == hi ==> dot_pos(s@.subrange(lo as int, hi as int)) == -1,
        r < hi ==> s@[r as int] == '.',
        forall|j: int| lo <= j < r ==> s@[j] != '.',
{
    let mut i = lo;
    while i < hi && s[i] != '.'
        invariant
            lo <= i <= hi,
            hi <= s.len(),
            forall|j: int| lo <= j < i ==> s@[j] != '.',
        decreases hi - i,
    {
        i = i + 1;
    }
    proof {
        lemma_dot_pos(s@.subrange(lo as int, hi as int), i - lo);
    }
    i
}

proof fn lemma_dot_pos(t: Seq<char>, k: int)
    requires
        0 <= k <= t.len(),
        forall|j: int| 0 <= j < k ==> t[j] != '.',
        k < t.len() ==> t[k] == '.',
    ensures
        k < t.len() ==> dot_pos(t) == k,
        k == t.len() ==> dot_pos(t) == -1,
    decreases k,
{
    if k > 0 {
        lemma_dot_pos(t.drop_first(), k - 1);
    }
}

/// Value of the segment `s[lo..hi]` followed by the unit `c`.
fn parse_token(s: &[char], lo: usize, hi: usize, c: char, is_time: bool) -> (r: Option<(u64, u64)>)
    requires
        lo <= hi <= s.len(),
        forall|j: int| lo <= j < hi ==> is_num_char(#[trigger] s@[j]),
    ensures
        match capped(token_value(s@.subrange(lo as int, hi as int), c, is_time)) {
            Some((a, b)) => r matches Some((x, y)) && x == a && y == b,
            None => r is None,
        },
        r matches Some((a, b)) ==> b <= 1_000_000_000,
{
    let ghost num = s@.subrange(lo as int, hi as int);
    let unit: u64 = if c == 'D' && !is_time {
        86400
    } else if c == 'H' && is_time {
        3600
    } else if c == 'M' && is_time {
        60
    } else if c == 'S' && is_time {
        1
    } else {
        return None;
    };
    let k = find_dot(s, lo, hi);
    proof {
        if k < hi {
            assert(num[k - lo] == '.');
            assert(num.contains('.'));
        } else {
            assert forall|j: int| 0 <= j < num.len() implies num[j] != '.' by {
                assert(num[j] == s@[lo + j]);
            }
            assert(!num.contains('.'));
        }
    }
    if c == 'S' && k < hi {
        // fractional seconds
        if hi - lo < 2 {
            return None;
        }
        let k2 = find_dot(s, k + 1, hi);
        proof {
            let after = num.skip(k - lo + 1);
            assert(after =~= s@.subrange(k + 1, hi as int));
            if k2 < hi {
                assert(after[k2 - k - 1] == '.');
                assert(!is_digit(after[k2 - k - 1]));
            } else {
                assert forall|j: int| 0 <= j < after.len() implies #[trigger] is_digit(after[j]) by {
                    assert(after[j] == s@[k + 1 + j]);
                    assert(is_num_char(s@[k + 1 + j]));
                }
            }
        }
        if k2 < hi {
            return None;
        }
        let whole: u64 = if k == lo {
            assert(num.take(0) =~= Seq::<char>::empty());
            0
        } else {
            proof {
                let w = num.take(k - lo);
                assert(w =~= s@.subrange(lo as int, k as int));
                assert(all_digits(w)) by {
                    assert forall|j: int| 0 <= j < w.len() implies #[trigger] is_digit(w[j]) by {
                        assert(w[j] == s@[lo + j]);
                        assert(is_num_char(s@[lo + j]));
                    }
                }
            }
            match parse_int_digits(s, lo, k) {
                Some(w) => w,
                None => {
                    return None;
                },
            }
        };
        let nanos = nanos_from(s, k + 1, hi);
        proof {
            assert(num.take(k - lo) =~= s@.subrange(lo as int, k as int));
            assert(num.skip(k - lo + 1) =~= s@.subrange(k + 1, hi as int));
        }
        Some((whole, nanos))
    } else {
        match parse_int_digits(s, lo, hi) {
            None => None,
            Some(v) => {
                if (v as u128) * (unit as u128) > u64::MAX as u128 {
                    None
                } else {
                    Some((v * unit, 0))
                }
            },
        }
    }
}

/// `capped(parse_part(s[lo..hi]))`, with the nanosecond sum.
fn parse_part_exec(s: &[char], lo: usize, hi: usize, is_time: bool) -> (r: Option<(u64, u128)>)
    requires
        lo <= hi <= s.len(),
    ensures
        match capped(parse_part(s@.subrange(lo as int, hi as int), is_time)) {
            Some((a, b)) => r matches Some((x, y)) && x == a && y == b,
            None => r is None,
        },
        r matches Some((a, b)) ==> b <= (hi as int) * 1_000_000_000,
{
    let ghost whole = s@.subrange(lo as int, hi as int);
    let mut acc_s: u64 = 0;
    let mut acc_n: u128 = 0;
    let mut tok = lo;
    let mut i = lo;
    assert(s@.subrange(lo as int, hi as int) =~= whole);
    while i < hi
        invariant
            lo <= tok <= i <= hi,
            hi <= s.len(),
            whole == s@.subrange(lo as int, hi as int),
            forall|j: int| tok <= j < i ==> is_num_char(#[trigger] s@[j]),
            acc_n <= (tok as int) * 1_000_000_000,
            parse_part(whole, is_time) == add_parts(
                (acc_s as nat, acc_n as nat),
                parse_part(s@.subrange(tok as int, hi as int), is_time),
            ),
        decreases hi - i,
    {
        let c = s[i];
        if '0' <= c && c <= '9' || c == '.' {
            i = i + 1;
        } else {
            let ghost rest = s@.subrange(tok as int, hi as int);
            proof {
                lemma_number_len(rest, i - tok);
                assert(rest.take(i - tok) =~= s@.subrange(tok as int, i as int));
                assert(rest.skip(i - tok + 1) =~= s@.subrange(i + 1, hi as int));
                assert(rest[i - tok] == c);
            }
            match parse_token(s, tok, i, c, is_time) {
                None => {
                    return None;
                },
                Some((a, b)) => {
                    proof {
                        let rest = s@.subrange(tok as int, hi as int);
                        let after = s@.subrange(i + 1, hi as int);
                        let k = number_len(rest);
                        assert(k == i - tok);
                        assert(rest.take(k as int) == s@.subrange(tok as int, i as int));
                        assert(rest[k as int] == c);
                        assert(rest.skip(k + 1int) == after);
                        assert(token_value(rest.take(k as int), rest[k as int], is_time) == Some(
                            (a as nat, b as nat),
                        ));
                        assert(parse_part(rest, is_time) == add_parts(
                            (a as nat, b as nat),
                            parse_part(after, is_time),
                        ));
                    }
                    if a > u64::MAX - acc_s {
                        return None;
                    }
                    acc_s = acc_s + a;
                    acc_n = acc_n + b as u128;
                    i = i + 1;
                    tok = i;
                },
            }
        }
    }
    proof {
        let rest = s@.subrange(tok as int, hi as int);
        lemma_number_len(rest, hi - tok);
    }
    if tok == hi {
        Some((acc_s, acc_n))
    } else {
        None
    }
}

/// Parse the ISO-8601 duration subset the service emits. Years and months
/// are rejected, as is anything whose total does not fit in a [`Duration`].
pub fn parse_iso8601(s: &str) -> (r: Option<Duration>)
    ensures
        r == spec_parse_iso8601(s@),
{
    let cs = str_chars(s);
    let n = cs.len();
    if n == 0 || cs[0] != 'P' {
        return None;
    }
    let mut t: usize = 1;
    while t < n && cs[t] != 'T'
        invariant
            1 <= t <= n,
            n == cs.len(),
            forall|j: int| 1 <= j < t ==> cs@[j] != 'T',
        decreases n - t,
    {
        t = t + 1;
    }
    let ghost rest = s@.drop_first();
    proof {
        lemma_first_index(rest, t - 1, 'T');
    }
    let (date_hi, time_lo) = if t < n {
        (t, t + 1)
    } else {
        (n, n)
    };
    proof {
        if t < n {
            assert(rest.take(t - 1) =~= cs@.subrange(1, t as int));
            assert(rest.skip(t as int) =~= cs@.subrange(t + 1, n as int));
        } else {
            assert(rest =~= cs@.subrange(1, n as int));
            assert(cs@.subrange(n as int, n as int) =~= Seq::<char>::empty());
        }
    }
    let date = parse_part_exec(cs.as_slice(), 1, date_hi, false);
    let (a, b) = match date {
        Some(p) => p,
        None => {
            return None;
        },
    };
    let time = parse_part_exec(cs.as_slice(), time_lo, n, true);
    let (c, d) = match time {
        Some(p) => p,
        None => {
            return None;
        },
    };
    let nanos: u128 = b + d;
    let secs: u128 = (a as u128) + (c as u128) + nanos / 1_000_000_000;
    if secs > u64::MAX as u128 {
        return None;
    }
    Some(Duration { secs: secs as u64, nanos: (nanos % 1_000_000_000) as u32 })
}


// ---- round trip ----------------------------------------------------------------------

proof fn lemma_parse_part_cons(num: Seq<char>, c: char, rest: Seq<char>, is_time: bool)
    requires
        forall|j: int| 0 <= j < num.len() ==> is_num_char(#[trigger] num[j]),
        !is_num_char(c),
    ensures
        parse_part(num.push(c) + rest, is_time) == match token_value(num, c, is_time) {
            None => None,
            Some(t) => add_parts(t, parse_part(rest, is_time)),
        },
{
    let s = num.push(c) + rest;
    assert forall|j: int| 0 <= j < num.len() implies is_num_char(#[trigger] s[j]) by {
        assert(s[j] == num[j]);
    }
    assert(s[num.len() as int] == c);
    lemma_number_len(s, num.len() as int);
    assert(s.take(num.len() as int) =~= num);
    assert(s.skip(num.len() + 1int) =~= rest);
}

proof fn lemma_decimal_num(n: nat)
    ensures
        forall|j: int| 0 <= j < decimal(n).len() ==> is_num_char(#[trigger] decimal(n)[j]),
        !decimal(n).contains('.'),
        n <= u64::MAX ==> int_token(decimal(n)) == Some(n),
{
    lemma_decimal(n);
    assert forall|j: int| 0 <= j < decimal(n).len() implies is_num_char(#[trigger] decimal(n)[j]) by {
        assert(is_digit(decimal(n)[j]));
    }
    if decimal(n).contains('.') {
        let j = choose|j: int| 0 <= j < decimal(n).len() && decimal(n)[j] == '.';
        assert(is_digit(decimal(n)[j]));
    }
}

proof fn lemma_padded(v: nat, k: nat)
    ensures
        padded(v, k).len() == k,
        all_digits(padded(v, k)),
        digits_value(padded(v, k)) == v % pow10(k),
    decreases k,
{
    if k > 0 {
        let k1 = (k - 1) as nat;
        lemma_padded(v / 10, k1);
        lemma_digit_char(v % 10);
        let p = padded(v, k);
        assert(p.drop_last() =~= padded(v / 10, k1));
        assert forall|i: int| 0 <= i < p.len() implies #[trigger] is_digit(p[i]) by {
            if i < k1 {
                assert(p[i] == padded(v / 10, k1)[i]);
            }
        }
        lemma_pow10_pos(k1);
        let q = pow10(k1);
        assert(pow10(k) == 10 * q);
        assert(((v / 10) % q) * 10 + v % 10 == v % (10 * q)) by (nonlinear_arith)
            requires
                q >= 1,
        {
            assert(v == (v / 10) * 10 + v % 10);
            assert(v / 10 == ((v / 10) / q) * q + (v / 10) % q);
            assert(v == ((v / 10) / q) * (10 * q) + (((v / 10) % q) * 10 + v % 10));
            assert(0 <= ((v / 10) % q) * 10 + v % 10 < 10 * q);
        }
    } else {
        assert(pow10(0) == 1);
    }
}

proof fn lemma_trim_frac(v0: nat, k0: nat)
    requires
        k0 >= 1,
        v0 < pow10(k0),
    ensures
        1 <= trim_frac(v0, k0).1 <= k0,
        trim_frac(v0, k0).0 < pow10(trim_frac(v0, k0).1),
        trim_frac(v0, k0).0 * pow10((k0 - trim_frac(v0, k0).1) as nat) == v0,
    decreases k0,
{
    let (v, k) = trim_frac(v0, k0);
    if k0 > 1 && v0 % 10 == 0 {
        let k1 = (k0 - 1) as nat;
        assert(pow10(k0) == 10 * pow10(k1));
        assert(v0 / 10 < pow10(k1)) by (nonlinear_arith)
            requires
                v0 < 10 * pow10(k1),
        {
        }
        lemma_trim_frac(v0 / 10, k1);
        assert(trim_frac(v0, k0) == trim_frac(v0 / 10, k1));
        let j = (k1 - k) as nat;
        lemma_pow_split(j, 1);
        assert(pow10(0) == 1);
        assert(pow10(1) == 10);
        assert((k0 - k) as nat == j + 1);
        let p = pow10(j);
        assert(v * pow10(j + 1) == v0) by (nonlinear_arith)
            requires
                pow10(j + 1) == p * 10,
                v * p == v0 / 10,
                v0 % 10 == 0,
        {
        }
        assert(trim_frac(v0, k0).0 == v);
        assert(trim_frac(v0, k0).1 == k);
        assert((k0 - trim_frac(v0, k0).1) as nat == j + 1);
    } else {
        assert(pow10(0) == 1);
        assert(trim_frac(v0, k0) == (v0, k0));
        assert((k0 - k0) as nat == 0);
        assert(v0 * pow10(0) == v0);
    }
}

proof fn lemma_frac_digits(n: nat)
    requires
        0 < n < 1_000_000_000,
    ensures
        1 <= frac_digits(n).len() <= 9,
        all_digits(frac_digits(n)),
        nanos_of(frac_digits(n)) == n,
        forall|j: int| 0 <= j < frac_digits(n).len() ==> is_num_char(#[trigger] frac_digits(n)[j]),
{
    lemma_pow10_9();
    lemma_trim_frac(n, 9);
    let (v, k) = trim_frac(n, 9);
    lemma_padded(v, k);
    let f = frac_digits(n);
    assert(f == padded(v, k));
    assert(v % pow10(k) == v) by (nonlinear_arith)
        requires
            v < pow10(k),
    {
    }
    assert forall|j: int| 0 <= j < f.len() implies is_num_char(#[trigger] f[j]) by {
        assert(is_digit(f[j]));
    }
}

proof fn lemma_frac_token(secs: nat, n: nat)
    requires
        0 < n < 1_000_000_000,
    ensures
        ({
            let num = decimal(secs).push('.') + frac_digits(n);
            &&& forall|j: int| 0 <= j < num.len() ==> is_num_char(#[trigger] num[j])
            &&& num.contains('.')
            &&& frac_token(num) == Some((secs, n))
        }),
{
    lemma_decimal_num(secs);
    lemma_decimal(secs);
    lemma_frac_digits(n);
    let ds = decimal(secs);
    let f = frac_digits(n);
    let num = ds.push('.') + f;
    assert forall|j: int| 0 <= j < num.len() implies is_num_char(#[trigger] num[j]) by {
        if j < ds.len() {
            assert(num[j] == ds[j]);
        } else if j > ds.len() {
            assert(num[j] == f[j - ds.len() - 1]);
        }
    }
    assert(num[ds.len() as int] == '.');
    assert forall|j: int| 0 <= j < ds.len() implies num[j] != '.' by {
        assert(num[j] == ds[j]);
        assert(is_digit(ds[j]));
    }
    lemma_dot_pos(num, ds.len() as int);
    assert(num.take(ds.len() as int) =~= ds);
    assert(num.skip(ds.len() + 1int) =~= f);
}

proof fn lemma_unit_seg(n: nat, unit: char, is_time: bool, rest: Seq<char>, u: nat)
    requires
        unit_secs(unit, is_time) == Some(u),
        unit != 'S',
        n * u <= u64::MAX,
        n <= u64::MAX,
    ensures
        parse_part(unit_seg(n, unit) + rest, is_time) == add_parts((n * u, 0nat), parse_part(rest, is_time)),
{
    if n > 0 {
        lemma_decimal_num(n);
        lemma_parse_part_cons(decimal(n), unit, rest, is_time);
        assert(unit_seg(n, unit) + rest == decimal(n).push(unit) + rest);
    } else {
        assert(unit_seg(n, unit) + rest =~= rest);
        match parse_part(rest, is_time) {
            Some(p) => {},
            None => {},
        }
    }
}

proof fn lemma_seconds_seg(hours: nat, minutes: nat, seconds: nat, nanos: nat)
    requires
        seconds < 60,
        nanos < 1_000_000_000,
    ensures
        parse_part(seconds_seg(hours, minutes, seconds, nanos), true) == Some((seconds, nanos)),
{
    let e = Seq::<char>::empty();
    if seconds > 0 || nanos > 0 || (hours == 0 && minutes == 0) {
        if nanos > 0 {
            lemma_frac_token(seconds, nanos);
            let num = decimal(seconds).push('.') + frac_digits(nanos);
            lemma_parse_part_cons(num, 'S', e, true);
            assert(num.push('S') + e =~= seconds_seg(hours, minutes, seconds, nanos));
        } else {
            lemma_decimal_num(seconds);
            lemma_parse_part_cons(decimal(seconds), 'S', e, true);
            assert(decimal(seconds).push('S') + e =~= seconds_seg(hours, minutes, seconds, nanos));
        }
    } else {
        assert(seconds_seg(hours, minutes, seconds, nanos) =~= e);
    }
}

proof fn lemma_no_t(days: nat)
    ensures
        first_index(unit_seg(days, 'D'), 'T') == -1,
        forall|j: int| 0 <= j < unit_seg(days, 'D').len() ==> unit_seg(days, 'D')[j] != 'T',
{
    let d = unit_seg(days, 'D');
    if days > 0 {
        lemma_decimal(days);
        assert forall|j: int| 0 <= j < d.len() implies d[j] != 'T' by {
            if j < decimal(days).len() {
                assert(d[j] == decimal(days)[j]);
                assert(is_digit(decimal(days)[j]));
            }
        }
    }
    lemma_first_index(d, d.len() as int, 'T');
}

/// Parsing the rendering of duration components gives back their total.
#[verifier::spinoff_prover]
#[verifier::rlimit(100)]
proof fn lemma_parse_format_parts(days: nat, hours: nat, minutes: nat, seconds: nat, nanos: nat)
    requires
        hours < 24,
        minutes < 60,
        seconds < 60,
        nanos < 1_000_000_000,
        days * 86400 + hours * 3600 + minutes * 60 + seconds <= u64::MAX,
    ensures
        spec_parse_iso8601(format_parts(days, hours, minutes, seconds, nanos)) == Some(
            Duration {
                secs: (days * 86400 + hours * 3600 + minutes * 60 + seconds) as u64,
                nanos: nanos as u32,
            },
        ),
{
    let s = format_parts(days, hours, minutes, seconds, nanos);
    let date = unit_seg(days, 'D');
    let time = time_seg(days, hours, minutes, seconds, nanos);
    let rest = s.drop_first();
    assert(rest =~= date + time);
    lemma_no_t(days);
    let e = Seq::<char>::empty();
    // date part
    lemma_unit_seg(days, 'D', false, e, 86400);
    assert(date + e =~= date);
    assert(parse_part(e, false) == Some((0nat, 0nat)));
    assert(parse_part(date, false) == Some((days * 86400, 0nat)));
    // time part
    let hs = unit_seg(hours, 'H');
    let ms = unit_seg(minutes, 'M');
    let ss = seconds_seg(hours, minutes, seconds, nanos);
    lemma_seconds_seg(hours, minutes, seconds, nanos);
    lemma_unit_seg(minutes, 'M', true, ss, 60);
    lemma_unit_seg(hours, 'H', true, ms + ss, 3600);
    assert(hs + (ms + ss) =~= hs + ms + ss);
    let tp = parse_part(hs + ms + ss, true);
    assert(tp == Some((hours * 3600 + minutes * 60 + seconds, nanos)));
    if hours > 0 || minutes > 0 || seconds > 0 || nanos > 0 || days == 0 {
        assert(time =~= seq!['T'] + (hs + ms + ss));
        assert(rest[date.len() as int] == 'T');
        assert forall|j: int| 0 <= j < date.len() implies rest[j] != 'T' by {
            assert(rest[j] == date[j]);
        }
        lemma_first_index(rest, date.len() as int, 'T');
        assert(rest.take(date.len() as int) =~= date);
        assert(rest.skip(date.len() + 1int) =~= hs + ms + ss);
    } else {
        assert(time =~= e);
        assert(rest =~= date);
        assert(hours == 0 && minutes == 0 && seconds == 0 && nanos == 0);
        assert(parse_part(e, true) == Some((0nat, 0nat)));
    }
}

proof fn lemma_timespan_max_literal()
    ensures
        TIMESPAN_MAX@ == format_parts(10675199, 2, 48, 5, 477580700),
{
    reveal_strlit("P10675199DT2H48M5.4775807S");
    assert(decimal(1) == seq!['1']);
    assert(decimal(10) == seq!['1', '0']);
    assert(decimal(106) == seq!['1', '0', '6']);
    assert(decimal(1067) == seq!['1', '0', '6', '7']);
    assert(decimal(10675) == seq!['1', '0', '6', '7', '5']);
    assert(decimal(106751) == seq!['1', '0', '6', '7', '5', '1']);
    assert(decimal(1067519) == seq!['1', '0', '6', '7', '5', '1', '9']);
    assert(decimal(10675199) == seq!['1', '0', '6', '7', '5', '1', '9', '9']);
    assert(decimal(2) == seq!['2']);
    assert(decimal(4) == seq!['4']);
    assert(decimal(48) == seq!['4', '8']);
    assert(decimal(5) == seq!['5']);
    assert(trim_frac(4775807, 7) == (4775807nat, 7nat));
    assert(trim_frac(47758070, 8) == (4775807nat, 7nat));
    assert(trim_frac(477580700, 9) == (4775807nat, 7nat));
    assert(padded(0, 0) == Seq::<char>::empty());
    assert(padded(4, 1) == seq!['4']);
    assert(padded(47, 2) == seq!['4', '7']);
    assert(padded(477, 3) == seq!['4', '7', '7']);
    assert(padded(4775, 4) == seq!['4', '7', '7', '5']);
    assert(padded(47758, 5) == seq!['4', '7', '7', '5', '8']);
    assert(padded(477580, 6) == seq!['4', '7', '7', '5', '8', '0']);
    assert(padded(4775807, 7) == seq!['4', '7', '7', '5', '8', '0', '7']);
    assert(TIMESPAN_MAX@ =~= format_parts(10675199, 2, 48, 5, 477580700));
}

/// Parsing what [`format_iso8601`] writes gives the duration back; a duration
/// at or above the unlimited sentinel comes back as the sentinel itself.
pub proof fn law_format_parse_round_trip(d: Duration)
    requires
        d.wf(),
    ensures
        spec_parse_iso8601(spec_format_iso8601(d)) == Some(
            if spec_is_unlimited(d) {
                spec_unlimited()
            } else {
                d
            },
        ),
{
    if spec_is_unlimited(d) {
        lemma_timespan_max_literal();
        lemma_parse_format_parts(10675199, 2, 48, 5, 477580700);
    } else {
        let t = d.secs as nat;
        let days = t / 86400;
        let hours = (t % 86400) / 3600;
        let minutes = (t % 3600) / 60;
        let seconds = t % 60;
        assert(days * 86400 + hours * 3600 + minutes * 60 + seconds == t && hours < 24 && minutes
            < 60 && seconds < 60) by (nonlinear_arith)
            requires
                days == t / 86400,
                hours == (t % 86400) / 3600,
                minutes == (t % 3600) / 60,
                seconds == t % 60,
        {
        }
        lemma_parse_format_parts(days, hours, minutes, seconds, d.nanos as nat);
    }
}

// ---- human-friendly rendering ---------------------------------------------------------

/// `unlimited`, or the whole seconds in the largest unit that divides them
/// exactly (`14d`, `2h`, `1m`, `30s`).
pub open spec fn spec_fmt_duration(d: Duration) -> Seq<char> {
    let s = d.secs as nat;
    if spec_is_unlimited(d) {
        "unlimited"@
    } else if s > 0 && s % 86400 == 0 {
        decimal(s / 86400).push('d')
    } else if s > 0 && s % 3600 == 0 {
        decimal(s / 3600).push('h')
    } else if s > 0 && s % 60 == 0 {
        decimal(s / 60).push('m')
    } else {
        decimal(s).push('s')
    }
}

/// Human-friendly duration: `1m`, `30s`, `14d`, or `unlimited`.
pub fn fmt_duration(d: Duration) -> (r: String)
    ensures
        r@ == spec_fmt_duration(d),
{
    if is_unlimited(d) {
        return "unlimited".to_owned();
    }
    let secs = d.secs;
    let mut out: Vec<char> = Vec::new();
    if secs > 0 && secs % 86_400 == 0 {
        push_decimal(&mut out, secs / 86_400);
        out.push('d');
    } else if secs > 0 && secs % 3_600 == 0 {
        push_decimal(&mut out, secs / 3_600);
        out.push('h');
    } else if secs > 0 && secs % 60 == 0 {
        push_decimal(&mut out, secs / 60);
        out.push('m');
    } else {
        push_decimal(&mut out, secs);
        out.push('s');
    }
    string_from_chars(out.as_slice())
}

} // verus!
