//! Time spans and byte sizes as whole numbers, and the short texts the
//! developer tools show for them.
use vstd::prelude::*;
use crate::text::{decimal, digit_char, digit_to_char, push_char, u64_to_decimal};

verus! {

/// A span of time, counted in nanoseconds.
#[derive(Debug, Clone, Copy, PartialEq, Eq, PartialOrd, Ord, Hash, Default, Structural)]
pub struct Duration {
    nanos: u64,
}

impl View for Duration {
    type V = nat;

    closed spec fn view(&self) -> nat {
        self.nanos as nat
    }
}

impl Duration {
    /// The empty span, in specifications.
    pub closed spec fn nil() -> Duration {
        Duration { nanos: 0 }
    }

    /// A span fits in 64 bits of nanoseconds.
    pub proof fn lemma_bounded(d: Duration)
        ensures
            d@ <= u64::MAX,
    {
    }

    /// No time at all.
    pub fn zero() -> (r: Self)
        ensures
            r@ == 0,
            r == Duration::nil(),
    {
        Duration { nanos: 0 }
    }

    /// A span of some nanoseconds.
    pub fn from_nanos(nanos: u64) -> (r: Self)
        ensures
            r@ == nanos,
    {
        Duration { nanos }
    }

    /// A span of some microseconds.
    pub fn from_micros(micros: u64) -> (r: Self)
        requires
            micros * 1000 <= u64::MAX,
        ensures
            r@ == micros * 1000,
    {
        Duration { nanos: micros * 1000 }
    }

    /// A span of some milliseconds.
    pub fn from_millis(millis: u64) -> (r: Self)
        requires
            millis * 1_000_000 <= u64::MAX,
        ensures
            r@ == millis * 1_000_000,
    {
        Duration { nanos: millis * 1_000_000 }
    }

    /// A span of some seconds.
    pub fn from_secs(secs: u64) -> (r: Self)
        requires
            secs * 1_000_000_000 <= u64::MAX,
        ensures
            r@ == secs * 1_000_000_000,
    {
        Duration { nanos: secs * 1_000_000_000 }
    }

    /// The whole nanoseconds.
    pub fn as_nanos(&self) -> (r: u64)
        ensures
            r == self@,
    {
        self.nanos
    }

    /// The whole microseconds.
    pub fn as_micros(&self) -> (r: u64)
        ensures
            r == self@ / 1000,
    {
        self.nanos / 1000
    }

    /// The whole milliseconds.
    pub fn as_millis(&self) -> (r: u64)
        ensures
            r == self@ / 1_000_000,
    {
        self.nanos / 1_000_000
    }

    /// Whether the span is empty.
    pub fn is_zero(&self) -> (r: bool)
        ensures
            r == (self@ == 0),
    {
        self.nanos == 0
    }

    /// The sum of two spans, when it fits.
    pub fn checked_add(&self, other: Duration) -> (r: Option<Duration>)
        ensures
            r matches Some(d) ==> d@ == self@ + other@,
            r is None <==> self@ + other@ > u64::MAX,
    {
        match self.nanos.checked_add(other.nanos) {
            Some(n) => Some(Duration { nanos: n }),
            None => None,
        }
    }

    /// The sum of two spans that fits.
    pub fn plus(&self, other: Duration) -> (r: Duration)
        requires
            self@ + other@ <= u64::MAX,
        ensures
            r@ == self@ + other@,
    {
        Duration { nanos: self.nanos + other.nanos }
    }

    /// The span divided by a count, rounded down to the nanosecond.
    pub fn div(&self, n: u32) -> (r: Duration)
        requires
            n > 0,
        ensures
            r@ == self@ / (n as nat),
    {
        Duration { nanos: self.nanos / (n as u64) }
    }
}

/// A total of nanoseconds divided by a count, rounded down to the
/// nanosecond (as `std::time::Duration` divides).
pub fn average_of(total: u128, n: u32) -> (r: Duration)
    requires
        n > 0,
        (total as nat) / (n as nat) <= u64::MAX,
    ensures
        r@ == (total as nat) / (n as nat),
{
    Duration { nanos: (total / (n as u128)) as u64 }
}

/// `n / d` rounded to the nearest whole number, a half to the even one.
pub open spec fn round_half_even(n: nat, d: nat) -> nat {
    let q = n / d;
    let r = n % d;
    if 2 * r > d {
        q + 1
    } else if 2 * r < d {
        q
    } else if q % 2 == 1 {
        q + 1
    } else {
        q
    }
}

/// Rounds `n / d` to the nearest whole number, a half to the even one.
pub fn div_round_half_even(n: u64, d: u64) -> (r: u64)
    requires
        d >= 2,
    ensures
        r == round_half_even(n as nat, d as nat),
{
    let q = n / d;
    let rem = n % d;
    assert(q < u64::MAX) by (nonlinear_arith)
        requires
            q == n / d,
            d >= 2,
    ;
    let twice: u128 = (rem as u128) * 2;
    if twice > d as u128 {
        q + 1
    } else if twice < d as u128 {
        q
    } else if q % 2 == 1 {
        q + 1
    } else {
        q
    }
}

/// A number of tenths written with one decimal: `12` is `1.2`.
pub open spec fn tenths_text(t: nat) -> Seq<char> {
    decimal(t / 10) + seq!['.', digit_char(t % 10)]
}

/// A number of hundredths written with two decimals: `123` is `1.23`.
pub open spec fn hundredths_text(h: nat) -> Seq<char> {
    decimal(h / 100) + seq!['.', digit_char((h / 10) % 10), digit_char(h % 10)]
}

fn tenths_string(t: u64) -> (r: String)
    ensures
        r@ == tenths_text(t as nat),
{
    let mut s = u64_to_decimal(t / 10);
    push_char(&mut s, '.');
    push_char(&mut s, digit_to_char(t % 10));
    assert(s@ =~= tenths_text(t as nat));
    s
}

fn hundredths_string(h: u64) -> (r: String)
    ensures
        r@ == hundredths_text(h as nat),
{
    let mut s = u64_to_decimal(h / 100);
    push_char(&mut s, '.');
    push_char(&mut s, digit_to_char((h / 10) % 10));
    push_char(&mut s, digit_to_char(h % 10));
    assert(s@ =~= hundredths_text(h as nat));
    s
}

/// How a byte count is shown: `0 B`, whole bytes below a kibibyte, else
/// kibibytes or mebibytes with one decimal.
pub open spec fn size_text(bytes: nat) -> Seq<char> {
    if bytes == 0 {
        "0 B"@
    } else if bytes < 1024 {
        decimal(bytes) + " B"@
    } else if bytes < 1024 * 1024 {
        tenths_text(round_half_even(bytes * 10, 1024)) + " KB"@
    } else {
        tenths_text(round_half_even(bytes * 10, 1024 * 1024)) + " MB"@
    }
}

/// Writes a byte count for display.
pub fn format_size(bytes: u64) -> (r: String)
    ensures
        r@ == size_text(bytes as nat),
{
    if bytes == 0 {
        return "0 B".to_owned();
    }
    if bytes < 1024 {
        let mut s = u64_to_decimal(bytes);
        s.append(" B");
        return s;
    }
    let unit: u64 = if bytes < 1024 * 1024 {
        1024
    } else {
        1024 * 1024
    };
    // bytes * 10 / unit, rounded, computed without overflow.
    let q = bytes / unit;
    let rem = bytes % unit;
    let t = rem * 10;
    let d = t / unit;
    let rest = t % unit;
    assert(q * 10 + d <= u64::MAX) by (nonlinear_arith)
        requires
            q == bytes / unit,
            t == rem * 10,
            d == t / unit,
            rem < unit,
            unit >= 1024,
    ;
    let base = q * 10 + d;
    proof {
        vstd::arithmetic::div_mod::lemma_fundamental_div_mod(bytes as int, unit as int);
        vstd::arithmetic::div_mod::lemma_fundamental_div_mod(t as int, unit as int);
        assert(bytes * 10 == base * unit + rest) by (nonlinear_arith)
            requires
                bytes == unit * q + rem,
                t == unit * d + rest,
                t == rem * 10,
                base == q * 10 + d,
        ;
        vstd::arithmetic::div_mod::lemma_fundamental_div_mod_converse(
            bytes * 10,
            unit as int,
            base as int,
            rest as int,
        );
    }
    let twice: u128 = (rest as u128) * 2;
    let tenths = if twice > unit as u128 {
        base + 1
    } else if twice < unit as u128 {
        base
    } else if base % 2 == 1 {
        base + 1
    } else {
        base
    };
    let mut s = tenths_string(tenths);
    if unit == 1024 {
        s.append(" KB");
    } else {
        s.append(" MB");
    }
    s
}

/// How a span of time is shown: whole microseconds below a millisecond,
/// milliseconds rounded to whole below a second, else seconds with two
/// decimals.
pub open spec fn duration_text(nanos: nat) -> Seq<char> {
    if nanos < 1_000_000 {
        decimal(nanos / 1000) + " µs"@
    } else if nanos < 1_000_000_000 {
        decimal(round_half_even(nanos, 1_000_000)) + " ms"@
    } else {
        hundredths_text(round_half_even(nanos, 10_000_000)) + " s"@
    }
}

/// Writes a span of time for display.
pub fn format_duration(d: Duration) -> (r: String)
    ensures
        r@ == duration_text(d@),
{
    let n = d.as_nanos();
    if n < 1_000_000 {
        let mut s = u64_to_decimal(n / 1000);
        s.append(" µs");
        s
    } else if n < 1_000_000_000 {
        let mut s = u64_to_decimal(div_round_half_even(n, 1_000_000));
        s.append(" ms");
        s
    } else {
        let mut s = hundredths_string(div_round_half_even(n, 10_000_000));
        s.append(" s");
        s
    }
}

} // verus!
