//! Opt-in resource accounting for the analysis interval of this process:
//! the arithmetic of the counters and the text of the resource footer.
use vstd::prelude::*;
use crate::text::{dec, digit, digit_char, extend, extend_str, push_decimal, string_of};

verus! {

/// The largest number of nanoseconds a `std::time::Duration` can hold.
pub const MAX_DURATION_NANOS: u128 = 18_446_744_073_709_551_615_999_999_999;

pub open spec fn spec_max_duration_nanos() -> nat {
    18_446_744_073_709_551_615_999_999_999
}

/// `n / d` rounded to the nearest integer, ties to the even quotient.
pub open spec fn rhe(n: nat, d: nat) -> nat {
    let q = n / d;
    let r = n % d;
    if 2 * r > d || (2 * r == d && q % 2 == 1) {
        q + 1
    } else {
        q
    }
}

pub fn round_half_even_div(n: u128, d: u128) -> (r: u128)
    requires
        d > 0,
        n < u128::MAX,
    ensures
        r == rhe(n as nat, d as nat),
        r <= n as nat / d as nat + 1,
{
    let q = n / d;
    let rem = n % d;
    assert(q <= n) by {
        assert(n / d <= n) by (nonlinear_arith)
            requires
                d > 0,
        ;
    }
    if rem > d - rem || (rem == d - rem && q % 2 == 1) {
        q + 1
    } else {
        q
    }
}

/// The digits after the decimal point of `f` thousandths, trailing zeros removed.
pub open spec fn frac3(f: nat) -> Seq<char> {
    let d1 = f / 100;
    let d2 = (f / 10) % 10;
    let d3 = f % 10;
    if d3 != 0 {
        seq!['.', digit(d1 as int), digit(d2 as int), digit(d3 as int)]
    } else if d2 != 0 {
        seq!['.', digit(d1 as int), digit(d2 as int)]
    } else if d1 != 0 {
        seq!['.', digit(d1 as int)]
    } else {
        seq![]
    }
}

/// A value of `t` thousandths printed with three decimals, trailing zeros and
/// a trailing point removed.
pub open spec fn compact(t: nat) -> Seq<char> {
    dec(t / 1000) + frac3(t % 1000)
}

fn push_compact(v: &mut Vec<char>, t: u128)
    ensures
        final(v)@ == old(v)@ + compact(t as nat),
{
    push_decimal(v, t / 1000);
    let f = t % 1000;
    let d1 = f / 100;
    let d2 = (f / 10) % 10;
    let d3 = f % 10;
    let ghost before = v@;
    if d3 != 0 {
        v.push('.');
        v.push(digit_char(d1));
        v.push(digit_char(d2));
        v.push(digit_char(d3));
    } else if d2 != 0 {
        v.push('.');
        v.push(digit_char(d1));
        v.push(digit_char(d2));
    } else if d1 != 0 {
        v.push('.');
        v.push(digit_char(d1));
    }
    assert(v@ =~= before + frac3(f as nat));
}

pub open spec fn dur_part(count: nat, unit: Seq<char>) -> Seq<Seq<char>> {
    if count > 0 {
        seq![dec(count) + seq![' '] + unit]
    } else {
        seq![]
    }
}

/// Words joined by single spaces.
pub open spec fn join_words(parts: Seq<Seq<char>>) -> Seq<char>
    decreases parts.len(),
{
    if parts.len() == 0 {
        seq![]
    } else if parts.len() == 1 {
        parts[0]
    } else {
        join_words(parts.drop_last()) + seq![' '] + parts.last()
    }
}

/// The days, hours, minutes and seconds of a duration given in milliseconds.
pub open spec fn duration_fields(millis: nat) -> (nat, nat, nat, nat) {
    let seconds = millis / 1000;
    let r1 = seconds % 86400;
    let r2 = r1 % 3600;
    (seconds / 86400, r1 / 3600, r2 / 60, r2 % 60)
}

/// The words of a duration of at least one second: a part per nonzero unit,
/// then the seconds with their milliseconds when they are not zero or no
/// other part was written.
pub open spec fn duration_parts(millis: nat) -> Seq<Seq<char>> {
    let (d, h, m, s) = duration_fields(millis);
    let parts = dur_part(d, "d"@) + dur_part(h, "h"@) + dur_part(m, "min"@);
    let last = if s > 0 || millis % 1000 > 0 || parts.len() == 0 {
        seq![compact(s * 1000 + millis % 1000) + " s"@]
    } else {
        seq![]
    };
    parts + last
}

/// A duration of at least one second, given in milliseconds.
pub open spec fn spec_long_duration(millis: nat) -> Seq<char> {
    join_words(duration_parts(millis))
}

/// The binary exponent of `n / d`: the largest `e <= 9` with
/// `d * 2^e <= n`, for a quotient of at least one.
pub open spec fn binade(n: nat, d: nat, e: nat) -> nat
    decreases 9 - e,
{
    if e >= 9 || n < d * two_pow(e + 1) {
        e
    } else {
        binade(n, d, e + 1)
    }
}

/// `n` nanoseconds as a number of milliseconds printed with three decimals:
/// `n / 1e6` rounded to a double (53 significant bits, ties to even), then
/// rounded to thousandths, ties to even. The result counts thousandths.
pub open spec fn ms_thousandths(n: nat) -> nat {
    let e = binade(n, 1_000_000, 0);
    let p = two_pow((52 - e) as nat);
    let m = rhe(n * p, 1_000_000);
    rhe(m * 1000, p)
}

proof fn lemma_two_pow_mono(a: nat, b: nat)
    requires
        a <= b,
    ensures
        1 <= two_pow(a) <= two_pow(b),
    decreases b,
{
    if b > a {
        lemma_two_pow_mono(a, (b - 1) as nat);
    } else if a > 0 {
        lemma_two_pow_mono((a - 1) as nat, (b - 1) as nat);
    }
}

fn pow2(k: u128) -> (r: u128)
    requires
        k <= 52,
    ensures
        r == two_pow(k as nat),
        1 <= r <= 4_503_599_627_370_496,
{
    let mut r: u128 = 1;
    let mut i: u128 = 0;
    proof {
        lemma_two_pow_mono(k as nat, 52);
        assert(two_pow(52) == 4_503_599_627_370_496) by {
            reveal_with_fuel(two_pow, 53);
        }
    }
    while i < k
        invariant
            i <= k <= 52,
            r == two_pow(i as nat),
            two_pow(k as nat) <= 4_503_599_627_370_496,
        decreases k - i,
    {
        proof {
            lemma_two_pow_mono((i + 1) as nat, k as nat);
        }
        r = r * 2;
        i = i + 1;
    }
    proof {
        lemma_two_pow_mono(0, k as nat);
    }
    r
}

fn millis_thousandths(n: u128) -> (r: u128)
    requires
        n < 1_000_000_000,
    ensures
        r == ms_thousandths(n as nat),
{
    let mut e: u128 = 0;
    let mut q: u128 = 2;
    assert(two_pow(1) == 2) by {
        reveal_with_fuel(two_pow, 2);
    }
    while e < 9 && n >= 1_000_000 * q
        invariant
            e <= 9,
            q == two_pow((e + 1) as nat),
            q <= 1024,
            binade(n as nat, 1_000_000, e as nat) == binade(n as nat, 1_000_000, 0),
        decreases 9 - e,
    {
        proof {
            lemma_two_pow_mono((e + 2) as nat, 10);
            assert(two_pow(10) == 1024) by {
                reveal_with_fuel(two_pow, 11);
            }
        }
        e = e + 1;
        q = q * 2;
    }
    assert(binade(n as nat, 1_000_000, e as nat) == e);
    let p = pow2(52 - e);
    assert(n * p <= 1_000_000_000 * 4_503_599_627_370_496) by (nonlinear_arith)
        requires
            n < 1_000_000_000,
            p <= 4_503_599_627_370_496,
    ;
    let m = round_half_even_div(n * p, 1_000_000);
    assert(m <= 4_503_599_627_370_496_001) by (nonlinear_arith)
        requires
            m <= (n * p) as nat / 1_000_000 + 1,
            n * p <= 1_000_000_000 * 4_503_599_627_370_496,
    ;
    round_half_even_div(m * 1000, p)
}

/// The resource footer's text for a duration. Durations between one
/// millisecond and one second are printed as the double-precision number of
/// milliseconds, to three decimals.
pub open spec fn spec_format_duration(nanos: nat) -> Seq<char> {
    if nanos == 0 {
        "0 s"@
    } else {
        let millis = (nanos + 500_000) / 1_000_000;
        if millis >= 1000 {
            spec_long_duration(millis)
        } else if nanos >= 1_000_000 {
            compact(ms_thousandths(nanos)) + " ms"@
        } else if nanos >= 1000 {
            compact(nanos) + " µs"@
        } else {
            dec(nanos) + " ns"@
        }
    }
}

fn join_parts(parts: &Vec<Vec<char>>, Ghost(views): Ghost<Seq<Seq<char>>>) -> (r: Vec<char>)
    requires
        views.len() == parts@.len(),
        forall|i: int| 0 <= i < views.len() ==> #[trigger] views[i] == parts@[i]@,
    ensures
        r@ == join_words(views),
{
    let mut r: Vec<char> = Vec::new();
    let mut i: usize = 0;
    while i < parts.len()
        invariant
            views.len() == parts@.len(),
            forall|j: int| 0 <= j < views.len() ==> #[trigger] views[j] == parts@[j]@,
            i <= parts@.len(),
            r@ == join_words(views.take(i as int)),
        decreases parts@.len() - i,
    {
        if i > 0 {
            r.push(' ');
        }
        extend(&mut r, &parts[i]);
        i = i + 1;
        assert(views.take(i as int).drop_last() =~= views.take(i - 1));
        if i == 1 {
            assert(views.take(1)[0] == views[0]);
        }
    }
    assert(views.take(parts@.len() as int) =~= views);
    r
}

fn long_duration(millis: u128) -> (r: Vec<char>)
    requires
        millis >= 1000,
    ensures
        r@ == spec_long_duration(millis as nat),
{
    let mut seconds = millis / 1000;
    let d = seconds / 86400;
    let r1 = seconds % 86400;
    let h = r1 / 3600;
    let r2 = r1 % 3600;
    let m = r2 / 60;
    let s = r2 % 60;
    let mut parts: Vec<Vec<char>> = Vec::new();
    let ghost mut views: Seq<Seq<char>> = seq![];
    if d > 0 {
        let mut p: Vec<char> = Vec::new();
        push_decimal(&mut p, d);
        extend_str(&mut p, " d");
        proof {
            reveal_strlit(" d");
            reveal_strlit("d");
            assert(p@ =~= dec(d as nat) + seq![' '] + "d"@);
            views = views.push(p@);
        }
        parts.push(p);
    }
    assert(views =~= dur_part(d as nat, "d"@));
    if h > 0 {
        let mut p: Vec<char> = Vec::new();
        push_decimal(&mut p, h);
        extend_str(&mut p, " h");
        proof {
            reveal_strlit(" h");
            reveal_strlit("h");
            assert(p@ =~= dec(h as nat) + seq![' '] + "h"@);
            views = views.push(p@);
        }
        parts.push(p);
    }
    assert(views =~= dur_part(d as nat, "d"@) + dur_part(h as nat, "h"@));
    if m > 0 {
        let mut p: Vec<char> = Vec::new();
        push_decimal(&mut p, m);
        extend_str(&mut p, " min");
        proof {
            reveal_strlit(" min");
            reveal_strlit("min");
            assert(p@ =~= dec(m as nat) + seq![' '] + "min"@);
            views = views.push(p@);
        }
        parts.push(p);
    }
    let ghost unit_parts = views;
    assert(unit_parts =~= dur_part(d as nat, "d"@) + dur_part(h as nat, "h"@) + dur_part(
        m as nat,
        "min"@,
    ));
    if s > 0 || millis % 1000 > 0 || parts.len() == 0 {
        let mut p: Vec<char> = Vec::new();
        push_compact(&mut p, s * 1000 + millis % 1000);
        extend_str(&mut p, " s");
        proof {
            views = views.push(p@);
        }
        parts.push(p);
        assert(views =~= unit_parts + seq![compact((s * 1000 + millis % 1000) as nat) + " s"@]);
    } else {
        assert(views =~= unit_parts + seq![]);
    }
    join_parts(&parts, Ghost(views))
}

/// Formats a duration given in nanoseconds, from nanoseconds up to days.
pub fn format_duration(nanos: u128) -> (r: String)
    requires
        nanos <= MAX_DURATION_NANOS,
    ensures
        r@ == spec_format_duration(nanos as nat),
{
    let mut v: Vec<char> = Vec::new();
    if nanos == 0 {
        extend_str(&mut v, "0 s");
        return string_of(v.as_slice());
    }
    let millis = (nanos + 500_000) / 1_000_000;
    if millis >= 1000 {
        v = long_duration(millis);
    } else if nanos >= 1_000_000 {
        let t = millis_thousandths(nanos);
        push_compact(&mut v, t);
        extend_str(&mut v, " ms");
    } else if nanos >= 1000 {
        push_compact(&mut v, nanos);
        extend_str(&mut v, " µs");
    } else {
        push_decimal(&mut v, nanos);
        extend_str(&mut v, " ns");
    }
    string_of(v.as_slice())
}

pub open spec fn two_pow(e: nat) -> nat
    decreases e,
{
    if e == 0 {
        1
    } else {
        2 * two_pow((e - 1) as nat)
    }
}

pub open spec fn pow1024(k: nat) -> nat
    decreases k,
{
    if k == 0 {
        1
    } else {
        1024 * pow1024((k - 1) as nat)
    }
}

/// The number of low bits that a 64-bit integer loses when converted to an
/// IEEE double (53 significant bits).
pub open spec fn f64_shift(b: nat, e: nat) -> nat
    decreases 11 - e,
{
    if e >= 11 || b / two_pow(e) < 9_007_199_254_740_992 {
        e
    } else {
        f64_shift(b, e + 1)
    }
}

/// The value of `b as f64`: rounded to 53 significant bits, ties to even.
pub open spec fn f64_value(b: nat) -> nat {
    let e = f64_shift(b, 0);
    rhe(b, two_pow(e)) * two_pow(e)
}

/// The binary unit (1 = KiB ... 6 = EiB) at which `v` bytes fall below 1024.
pub open spec fn memory_unit(v: nat, k: nat) -> nat
    decreases 6 - k,
{
    if k >= 6 || v < pow1024(k + 1) {
        k
    } else {
        memory_unit(v, k + 1)
    }
}

pub open spec fn unit_name(k: nat) -> Seq<char> {
    if k == 1 {
        "KiB"@
    } else if k == 2 {
        "MiB"@
    } else if k == 3 {
        "GiB"@
    } else if k == 4 {
        "TiB"@
    } else if k == 5 {
        "PiB"@
    } else {
        "EiB"@
    }
}

/// Peak memory text: bytes below 1 KiB, otherwise two decimals of the largest
/// binary unit below 1024, rounded as `{:.2}` rounds the double value (ties to even).
pub open spec fn spec_format_memory(bytes: nat) -> Seq<char> {
    if bytes < 1024 {
        dec(bytes) + " B"@
    } else {
        let v = f64_value(bytes);
        let k = memory_unit(v, 1);
        let h = rhe(v * 100, pow1024(k));
        dec(h / 100) + seq!['.', digit(((h % 100) / 10) as int), digit((h % 10) as int), ' ']
            + unit_name(k)
    }
}

fn double_of(b: u64) -> (r: u128)
    ensures
        r == f64_value(b as nat),
        r <= 36_893_488_147_419_103_232,
{
    let mut e: u128 = 0;
    let mut p: u128 = 1;
    let b = b as u128;
    while e < 11 && b / p >= 9_007_199_254_740_992
        invariant
            e <= 11,
            p == two_pow(e as nat),
            1 <= p <= 2048,
            f64_shift(b as nat, e as nat) == f64_shift(b as nat, 0),
            b < 18_446_744_073_709_551_616,
        decreases 11 - e,
    {
        assert(two_pow((e + 1) as nat) == 2 * two_pow(e as nat));
        proof {
            if e == 10 {
                assert(p == 1024) by {
                    reveal_with_fuel(two_pow, 11);
                }
            }
        }
        e = e + 1;
        p = p * 2;
    }
    proof {
        if e < 11 {
            assert(f64_shift(b as nat, e as nat) == e);
        } else {
            assert(f64_shift(b as nat, e as nat) == e);
        }
    }
    assert(b / p < 9_007_199_254_740_992 + 1) by {
        if e == 11 {
            assert(p == 2048) by {
                reveal_with_fuel(two_pow, 12);
            }
            assert(b / p < 9_007_199_254_740_992) by (nonlinear_arith)
                requires
                    p == 2048,
                    b < 18_446_744_073_709_551_616,
            ;
        }
    }
    let q = round_half_even_div(b, p);
    assert(q * p <= 36_893_488_147_419_103_232) by (nonlinear_arith)
        requires
            q <= 9_007_199_254_740_993,
            1 <= p <= 2048,
            q <= b / p + 1,
            b < 18_446_744_073_709_551_616,
    {
        assert((b / p) * p <= b);
    }
    q * p
}

/// Formats a byte count with binary units.
pub fn format_memory(bytes: u64) -> (r: String)
    ensures
        r@ == spec_format_memory(bytes as nat),
{
    let mut v: Vec<char> = Vec::new();
    if bytes < 1024 {
        push_decimal(&mut v, bytes as u128);
        extend_str(&mut v, " B");
        return string_of(v.as_slice());
    }
    let value = double_of(bytes);
    let mut k: u128 = 1;
    let mut p: u128 = 1024;
    assert(pow1024(1) == 1024) by {
        reveal_with_fuel(pow1024, 2);
    }
    while k < 6 && value >= p * 1024
        invariant
            1 <= k <= 6,
            p == pow1024(k as nat),
            p >= 1024,
            p <= 1_152_921_504_606_846_976,
            memory_unit(value as nat, k as nat) == memory_unit(value as nat, 1),
        decreases 6 - k,
    {
        assert(pow1024((k + 1) as nat) == 1024 * pow1024(k as nat));
        assert(p <= 1_125_899_906_842_624) by {
            if k == 6 {
            } else {
                assert(k <= 5);
                lemma_pow1024_bound(k as nat);
            }
        }
        k = k + 1;
        p = p * 1024;
    }
    assert(memory_unit(value as nat, k as nat) == k) by {
        assert(pow1024((k + 1) as nat) == 1024 * pow1024(k as nat));
    }
    let h = round_half_even_div(value * 100, p);
    push_decimal(&mut v, h / 100);
    v.push('.');
    v.push(digit_char((h % 100) / 10));
    v.push(digit_char(h % 10));
    v.push(' ');
    if k == 1 {
        extend_str(&mut v, "KiB");
    } else if k == 2 {
        extend_str(&mut v, "MiB");
    } else if k == 3 {
        extend_str(&mut v, "GiB");
    } else if k == 4 {
        extend_str(&mut v, "TiB");
    } else if k == 5 {
        extend_str(&mut v, "PiB");
    } else {
        extend_str(&mut v, "EiB");
    }
    string_of(v.as_slice())
}

proof fn lemma_pow1024_bound(k: nat)
    requires
        k <= 5,
    ensures
        pow1024(k) <= 1_125_899_906_842_624,
{
    reveal_with_fuel(pow1024, 6);
}

/// Counters for the analysis interval. Durations are in nanoseconds.
pub struct ResourceStats {
    pub elapsed_nanos: u128,
    pub cpu_nanos: Option<u128>,
    pub peak_memory_bytes: Option<u64>,
}

impl ResourceStats {
    /// Every duration fits in a `std::time::Duration`.
    pub open spec fn wf(&self) -> bool {
        &&& self.elapsed_nanos <= spec_max_duration_nanos()
        &&& self.cpu_nanos matches Some(c) ==> c <= spec_max_duration_nanos()
    }
}

/// Process counters read at one moment; a counter that cannot be read is `None`.
pub struct Snapshot {
    pub cpu_nanos: Option<u128>,
    pub peak_memory_bytes: Option<u64>,
}

impl Snapshot {
    pub open spec fn wf(&self) -> bool {
        self.cpu_nanos matches Some(c) ==> c <= spec_max_duration_nanos()
    }
}

pub open spec fn spec_render(stats: ResourceStats) -> Seq<char> {
    let cpu = match stats.cpu_nanos {
        Some(c) => spec_format_duration(c as nat),
        None => "unavailable"@,
    };
    let memory = match stats.peak_memory_bytes {
        Some(b) => spec_format_memory(b as nat),
        None => "unavailable"@,
    };
    "\nAnalysis resources:\n  Elapsed time: "@ + spec_format_duration(stats.elapsed_nanos as nat)
        + "\n  CPU time (all process threads): "@ + cpu + "\n  Peak memory (process lifetime): "@
        + memory + "\n  CPU and memory exclude child processes.\n"@
}

/// The resource footer appended to analysis output.
pub fn render(stats: &ResourceStats) -> (r: String)
    requires
        stats.wf(),
    ensures
        r@ == spec_render(*stats),
{
    let mut v: Vec<char> = Vec::new();
    extend_str(&mut v, "\nAnalysis resources:\n  Elapsed time: ");
    let elapsed = format_duration(stats.elapsed_nanos);
    extend_str(&mut v, elapsed.as_str());
    extend_str(&mut v, "\n  CPU time (all process threads): ");
    match stats.cpu_nanos {
        Some(c) => {
            let t = format_duration(c);
            extend_str(&mut v, t.as_str());
        },
        None => {
            extend_str(&mut v, "unavailable");
        },
    }
    extend_str(&mut v, "\n  Peak memory (process lifetime): ");
    match stats.peak_memory_bytes {
        Some(b) => {
            let t = format_memory(b);
            extend_str(&mut v, t.as_str());
        },
        None => {
            extend_str(&mut v, "unavailable");
        },
    }
    extend_str(&mut v, "\n  CPU and memory exclude child processes.\n");
    string_of(v.as_slice())
}

#[verifier::external_type_specification]
#[verifier::external_body]
pub struct ExInstant(std::time::Instant);

/// `Instant::now`: the current moment of a monotonic clock. Nothing is
/// claimed of the value.
#[verifier::external_body]
fn instant_now() -> std::time::Instant {
    std::time::Instant::now()
}

/// `Instant::elapsed`, in nanoseconds: the time since `i`. It depends on the
/// clock; only that it fits a `Duration` is claimed.
#[verifier::external_body]
fn elapsed_nanos(i: &std::time::Instant) -> (r: u128)
    ensures
        r <= MAX_DURATION_NANOS,
{
    i.elapsed().as_nanos()
}

/// The CPU time consumed between two snapshots, when both were read and the
/// counter did not go backwards.
pub open spec fn spec_cpu_delta(start: Option<u128>, end: Option<u128>) -> Option<u128> {
    match (start, end) {
        (Some(a), Some(b)) => if b >= a {
            Some((b - a) as u128)
        } else {
            None
        },
        _ => None,
    }
}

pub struct ResourceTracker {
    started: std::time::Instant,
    cpu_started: Option<u128>,
}

impl ResourceTracker {
    pub closed spec fn cpu_start(&self) -> Option<u128> {
        self.cpu_started
    }

    /// Starts the interval at the moment of the call, given the process
    /// counters read at that moment.
    pub fn start(snapshot: Snapshot) -> (r: Self)
        ensures
            r.cpu_start() == snapshot.cpu_nanos,
    {
        ResourceTracker { started: instant_now(), cpu_started: snapshot.cpu_nanos }
    }

    /// Ends the interval, given the process counters read at its end.
    pub fn finish(self, snapshot: Snapshot) -> (r: ResourceStats)
        ensures
            r.wf() <== snapshot.wf(),
            r.cpu_nanos == spec_cpu_delta(self.cpu_start(), snapshot.cpu_nanos),
            r.peak_memory_bytes == snapshot.peak_memory_bytes,
    {
        let elapsed = elapsed_nanos(&self.started);
        let cpu = match (self.cpu_started, snapshot.cpu_nanos) {
            (Some(a), Some(b)) => if b >= a {
                Some(b - a)
            } else {
                None
            },
            _ => None,
        };
        ResourceStats { elapsed_nanos: elapsed, cpu_nanos: cpu, peak_memory_bytes: snapshot.peak_memory_bytes }
    }
}

/// A `timeval` as nanoseconds, when its fields are in range.
pub open spec fn spec_timeval_nanos(seconds: i64, micros: i64) -> Option<u128> {
    if seconds >= 0 && 0 <= micros < 1_000_000 {
        Some((seconds * 1_000_000_000 + micros * 1000) as u128)
    } else {
        None
    }
}

pub fn timeval_nanos(seconds: i64, micros: i64) -> (r: Option<u128>)
    ensures
        r == spec_timeval_nanos(seconds, micros),
{
    if seconds >= 0 && 0 <= micros && micros < 1_000_000 {
        Some(seconds as u128 * 1_000_000_000 + micros as u128 * 1000)
    } else {
        None
    }
}

/// The counters that `getrusage(RUSAGE_SELF)` reports, as a snapshot. `maxrss`
/// is counted in units of `bytes_per_unit` bytes (KiB on Linux, bytes on macOS).
pub open spec fn spec_rusage_snapshot(
    user: (i64, i64),
    system: (i64, i64),
    maxrss: i64,
    bytes_per_unit: u64,
) -> Snapshot {
    let cpu = match (spec_timeval_nanos(user.0, user.1), spec_timeval_nanos(system.0, system.1)) {
        (Some(u), Some(s)) => if u + s <= spec_max_duration_nanos() {
            Some((u + s) as u128)
        } else {
            None
        },
        _ => None,
    };
    let peak = if maxrss >= 0 && maxrss * bytes_per_unit <= u64::MAX {
        Some((maxrss * bytes_per_unit) as u64)
    } else {
        None
    };
    Snapshot { cpu_nanos: cpu, peak_memory_bytes: peak }
}

pub fn rusage_snapshot(user: (i64, i64), system: (i64, i64), maxrss: i64, bytes_per_unit: u64) -> (r:
    Snapshot)
    ensures
        r == spec_rusage_snapshot(user, system, maxrss, bytes_per_unit),
        r.wf(),
{
    let cpu = match (timeval_nanos(user.0, user.1), timeval_nanos(system.0, system.1)) {
        (Some(u), Some(s)) => if s <= MAX_DURATION_NANOS && u <= MAX_DURATION_NANOS - s {
            Some(u + s)
        } else {
            None
        },
        _ => None,
    };
    let peak = if maxrss >= 0 && bytes_per_unit == 0 {
        Some(0u64)
    } else if maxrss >= 0 && (maxrss as u64) <= u64::MAX / bytes_per_unit {
        assert((maxrss as u64) * bytes_per_unit <= u64::MAX) by (nonlinear_arith)
            requires
                bytes_per_unit > 0,
                (maxrss as u64) <= u64::MAX / bytes_per_unit,
        ;
        Some((maxrss as u64) * bytes_per_unit)
    } else {
        proof {
            if maxrss >= 0 {
                assert(maxrss * bytes_per_unit > u64::MAX) by (nonlinear_arith)
                    requires
                        bytes_per_unit > 0,
                        maxrss > u64::MAX / bytes_per_unit,
                ;
            }
        }
        None
    };
    Snapshot { cpu_nanos: cpu, peak_memory_bytes: peak }
}

/// A Windows `FILETIME` (100-nanosecond ticks in two 32-bit halves) as nanoseconds.
pub open spec fn spec_filetime_nanos(low: u32, high: u32) -> nat {
    ((high * 4_294_967_296 + low) * 100) as nat
}

pub fn filetime_nanos(low: u32, high: u32) -> (r: u128)
    ensures
        r == spec_filetime_nanos(low, high),
        r < 1_844_674_407_370_955_161_600,
{
    (high as u128 * 4_294_967_296 + low as u128) * 100
}

/// The counters that `GetProcessTimes` and `GetProcessMemoryInfo` report, as
/// a snapshot: CPU time is kernel plus user time.
pub open spec fn spec_windows_snapshot(
    times_ok: bool,
    kernel: (u32, u32),
    user: (u32, u32),
    memory_ok: bool,
    peak_working_set: u64,
) -> Snapshot {
    Snapshot {
        cpu_nanos: if times_ok {
            Some((spec_filetime_nanos(kernel.0, kernel.1) + spec_filetime_nanos(user.0, user.1)) as u128)
        } else {
            None
        },
        peak_memory_bytes: if memory_ok {
            Some(peak_working_set)
        } else {
            None
        },
    }
}

pub fn windows_snapshot(
    times_ok: bool,
    kernel: (u32, u32),
    user: (u32, u32),
    memory_ok: bool,
    peak_working_set: u64,
) -> (r: Snapshot)
    ensures
        r == spec_windows_snapshot(times_ok, kernel, user, memory_ok, peak_working_set),
        r.wf(),
{
    let cpu = if times_ok {
        Some(filetime_nanos(kernel.0, kernel.1) + filetime_nanos(user.0, user.1))
    } else {
        None
    };
    Snapshot { cpu_nanos: cpu, peak_memory_bytes: if memory_ok { Some(peak_working_set) } else { None } }
}

} // verus!
